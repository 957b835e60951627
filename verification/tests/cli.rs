use wipedicks::cli::Args;
use wipedicks::dicks::BALLS_SCALE;

fn defaults() -> Args {
    Args {
        files: vec![b"/tmp/x".to_vec()],
        recursive: false,
        rounds: 1,
        wipefree: false,
        slow: false,
        rape: false,
        secure_erase: false,
        shaft_min: 1,
        shaft_max: 12,
        jizz_min: 0,
        jizz_max: 3,
        balls_chance: 1 << 23,
        buffer_size: 1 << 20,
        bar_width: 16,
        no_progress: false,
        dry_run: false,
        verify: false,
        gay: false,
    }
}

#[test]
fn defaults_are_valid() {
    assert_eq!(defaults().validate(), Ok(()));
    let cfg = defaults().dick_config();
    assert_eq!((cfg.shaft_min, cfg.shaft_max, cfg.jizz_min, cfg.jizz_max), (1, 12, 0, 3));
}

#[test]
fn each_bad_flag_has_its_message() {
    let mut a = defaults();
    a.shaft_min = 13;
    assert_eq!(a.validate(), Err("--shaft-min must be <= --shaft-max (your max can't be smaller than your min, big guy)".to_string()));
    let mut a = defaults();
    a.jizz_min = 4;
    assert_eq!(a.validate(), Err("--jizz-min must be <= --jizz-max (drip range got crossed)".to_string()));
    let mut a = defaults();
    a.balls_chance = BALLS_SCALE + 1;
    assert_eq!(a.validate(), Err("--balls-chance must be in [0.0, 1.0] (it's a probability, not a body count)".to_string()));
    let mut a = defaults();
    a.buffer_size = 63;
    assert_eq!(a.validate(), Err("--buffer-size must be >= 64 bytes (too small to fit a single dick)".to_string()));
    let mut a = defaults();
    a.bar_width = 3;
    assert_eq!(a.validate(), Err("--bar-width must be >= 4 (need room for [8D] at minimum)".to_string()));
    // the first failing check wins
    let mut a = defaults();
    a.bar_width = 0;
    a.jizz_min = 9;
    assert_eq!(a.validate(), Err("--jizz-min must be <= --jizz-max (drip range got crossed)".to_string()));
    let mut a = defaults();
    a.balls_chance = BALLS_SCALE;
    a.buffer_size = 64;
    a.bar_width = 4;
    assert_eq!(a.validate(), Ok(()));
}
