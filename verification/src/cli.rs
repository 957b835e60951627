//! The command-line surface, minus the parser: the settings the program
//! runs with and their cross-flag sanity checks.

use vstd::prelude::*;
use crate::dicks::{DickConfig, BALLS_SCALE};

verus! {

/// Wipe files and devices with ASCII penises: what the user asked for.
///
/// `files` are the targets as path bytes. `balls_chance` is the chance of
/// a `#` as a whole number of 2^24ths; a value above `BALLS_SCALE` stands
/// for a chance that is not a probability (the program maps anything
/// outside `[0.0, 1.0]`, and NaN, there).
#[derive(Debug)]
pub struct Args {
    pub files: Vec<Vec<u8>>,
    pub recursive: bool,
    pub rounds: usize,
    pub wipefree: bool,
    pub slow: bool,
    pub rape: bool,
    pub secure_erase: bool,
    pub shaft_min: usize,
    pub shaft_max: usize,
    pub jizz_min: usize,
    pub jizz_max: usize,
    pub balls_chance: u32,
    pub buffer_size: usize,
    pub bar_width: usize,
    pub no_progress: bool,
    pub dry_run: bool,
    pub verify: bool,
    pub gay: bool,
}

/// The reason the settings don't make sense, for the first check that
/// fails, or none.
pub open spec fn validation_error(a: Args) -> Option<Seq<char>> {
    if a.shaft_min > a.shaft_max {
        Some(
            "--shaft-min must be <= --shaft-max (your max can't be smaller than your min, big guy)"@,
        )
    } else if a.jizz_min > a.jizz_max {
        Some("--jizz-min must be <= --jizz-max (drip range got crossed)"@)
    } else if a.balls_chance > BALLS_SCALE {
        Some("--balls-chance must be in [0.0, 1.0] (it's a probability, not a body count)"@)
    } else if a.buffer_size < 64 {
        Some("--buffer-size must be >= 64 bytes (too small to fit a single dick)"@)
    } else if a.bar_width < 4 {
        Some("--bar-width must be >= 4 (need room for [8D] at minimum)"@)
    } else {
        None
    }
}

/// Law: the settings are accepted exactly when both length ranges are
/// in order (equal bounds, such as a fixed drip of 0, are in order), the
/// balls chance is at most certain, the buffer holds at least 64 bytes and
/// the bar is at least 4 wide; a crossed drip range is reported as such
/// once the shaft range is in order.
pub proof fn lemma_validation(a: Args)
    ensures
        (validation_error(a) is None) <==> (a.shaft_min <= a.shaft_max && a.jizz_min <= a.jizz_max
            && a.balls_chance <= BALLS_SCALE && a.buffer_size >= 64 && a.bar_width >= 4),
        a.shaft_min <= a.shaft_max && a.jizz_min > a.jizz_max ==> validation_error(a) == Some(
            "--jizz-min must be <= --jizz-max (drip range got crossed)"@,
        ),
        a.shaft_min > a.shaft_max ==> validation_error(a) == Some(
            "--shaft-min must be <= --shaft-max (your max can't be smaller than your min, big guy)"@,
        ),
{
}

impl Args {
    /// Sanity-check cross-flag combinations. Returns the user-facing reason
    /// the args don't make sense, if any. Good safe-words save lives.
    pub fn validate(&self) -> (r: Result<(), String>)
        ensures
            match validation_error(*self) {
                None => r is Ok,
                Some(msg) => r matches Err(m) && m@ == msg,
            },
    {
        if self.shaft_min > self.shaft_max {
            return Err(
                "--shaft-min must be <= --shaft-max (your max can't be smaller than your min, big guy)".to_owned(),
            );
        }
        if self.jizz_min > self.jizz_max {
            return Err("--jizz-min must be <= --jizz-max (drip range got crossed)".to_owned());
        }
        if self.balls_chance > BALLS_SCALE {
            return Err(
                "--balls-chance must be in [0.0, 1.0] (it's a probability, not a body count)".to_owned(),
            );
        }
        if self.buffer_size < 64 {
            return Err(
                "--buffer-size must be >= 64 bytes (too small to fit a single dick)".to_owned(),
            );
        }
        if self.bar_width < 4 {
            return Err("--bar-width must be >= 4 (need room for [8D] at minimum)".to_owned());
        }
        Ok(())
    }

    /// The generator settings these arguments ask for.
    pub fn dick_config(&self) -> (r: DickConfig)
        ensures
            r.shaft_min == self.shaft_min,
            r.shaft_max == self.shaft_max,
            r.jizz_min == self.jizz_min,
            r.jizz_max == self.jizz_max,
            r.balls_chance == self.balls_chance,
            validation_error(*self) is None ==> r.well_formed(),
    {
        DickConfig {
            shaft_min: self.shaft_min,
            shaft_max: self.shaft_max,
            jizz_min: self.jizz_min,
            jizz_max: self.jizz_max,
            balls_chance: self.balls_chance,
        }
    }
}

} // verus!
