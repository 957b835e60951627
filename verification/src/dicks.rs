//! Random-penis factory. Per-thread, no sword-crossing.
//!
//! A penis is `8`, an optional `#` (the balls), a shaft of `=`, the head
//! `D`, a drip of `~` and a trailing space. The generator draws the balls,
//! the shaft length and the drip length from a per-thread `SmallRng`.

use rand::rngs::OsRng;
use rand::rngs::SmallRng;
use rand::Rng;
use rand::SeedableRng;
use vstd::prelude::*;

verus! {

/// `8`: the base of every penis.
pub const BASE: u8 = 0x38;
/// `#`: the balls.
pub const BALLS: u8 = 0x23;
/// `=`: one unit of shaft.
pub const SHAFT: u8 = 0x3d;
/// `D`: the head.
pub const HEAD: u8 = 0x44;
/// `~`: one drop of jizz.
pub const JIZZ: u8 = 0x7e;
/// The space that ends every penis.
pub const SPACE: u8 = 0x20;

/// `balls_chance` is a probability in units of `1 / BALLS_SCALE` (2^24ths).
pub const BALLS_SCALE: u32 = 16777216;

/// Declares rand's `SmallRng` to Verus. Its state is opaque: the library
/// only hands it to the drawing wrappers below.
#[verifier::external_type_specification]
#[verifier::external_body]
pub struct ExSmallRng(SmallRng);

/// The canonical penis alphabet.
pub open spec fn spec_is_dick_byte(b: u8) -> bool {
    b == BASE || b == SHAFT || b == BALLS || b == HEAD || b == JIZZ || b == SPACE
}

/// Is this byte part of the canonical penis alphabet (`8`, `=`, `#`, `D`,
/// `~`, space)? The doorman for `--verify`: any other byte means a
/// non-dick snuck through.
pub fn is_dick_byte(b: u8) -> (r: bool)
    ensures
        r == spec_is_dick_byte(b),
{
    b == BASE || b == SHAFT || b == BALLS || b == HEAD || b == JIZZ || b == SPACE
}

/// The anatomical knobs for our generated dicks.
///
/// `balls_chance` is the probability that a penis gets its `#`, written as
/// a whole number of 2^24ths: `0` never, `BALLS_SCALE` (or more) always.
#[derive(Clone, Copy, Debug)]
pub struct DickConfig {
    pub shaft_min: usize,
    pub shaft_max: usize,
    pub jizz_min: usize,
    pub jizz_max: usize,
    pub balls_chance: u32,
}

impl DickConfig {
    /// The length ranges are not crossed.
    pub open spec fn well_formed(&self) -> bool {
        &&& self.shaft_min <= self.shaft_max
        &&& self.jizz_min <= self.jizz_max
    }

    /// Worst-case length of one penis: `8`, `#`, shaft, `D`, drip, space.
    pub open spec fn spec_max_dick_len(&self) -> int {
        4 + self.shaft_max + self.jizz_max
    }

    /// Worst-case length of a single dick in bytes. Used to pre-size the
    /// buffer so we never realloc mid-stroke.
    pub fn max_dick_len(&self) -> (r: usize)
        requires
            self.spec_max_dick_len() <= usize::MAX,
        ensures
            r == self.spec_max_dick_len(),
    {
        1 + 1 + self.shaft_max + 1 + self.jizz_max + 1
    }
}

/// One penis: balls or not, `shaft` units of shaft, `jizz` drops.
pub open spec fn dick(shape: (bool, nat, nat)) -> Seq<u8> {
    seq![BASE] + (if shape.0 { seq![BALLS] } else { Seq::empty() }) + Seq::new(
        shape.1,
        |i: int| SHAFT,
    ) + seq![HEAD] + Seq::new(shape.2, |i: int| JIZZ) + seq![SPACE]
}

/// A shape that the configuration allows: lengths inside their ranges, no
/// balls at chance zero, balls always at a chance of one or more.
pub open spec fn shape_ok(cfg: DickConfig, shape: (bool, nat, nat)) -> bool {
    &&& cfg.shaft_min <= shape.1 <= cfg.shaft_max
    &&& cfg.jizz_min <= shape.2 <= cfg.jizz_max
    &&& cfg.balls_chance == 0 ==> !shape.0
    &&& cfg.balls_chance >= BALLS_SCALE ==> shape.0
}

/// The penises of `shapes`, one after the other.
pub open spec fn dicks(shapes: Seq<(bool, nat, nat)>) -> Seq<u8>
    decreases shapes.len(),
{
    if shapes.len() == 0 {
        Seq::empty()
    } else {
        dicks(shapes.drop_last()) + dick(shapes.last())
    }
}

/// `bytes` is the start of a run of penises that the configuration allows
/// (the last one may be cut short).
pub open spec fn is_dick_stream(cfg: DickConfig, bytes: Seq<u8>) -> bool {
    exists|shapes: Seq<(bool, nat, nat)>|
        #![trigger dicks(shapes)]
        (forall|i: int| 0 <= i < shapes.len() ==> shape_ok(cfg, #[trigger] shapes[i]))
            && bytes.len() <= dicks(shapes).len() && bytes == dicks(shapes).take(
            bytes.len() as int,
        )
}

/// Calls `SmallRng::from_rng(OsRng)` (rand's `SeedableRng`): a generator
/// seeded from the operating system's randomness, or `None` when the
/// operating system yields none. Which of the two comes back, and the
/// generator's state, rest on the machine: nothing is stated of them.
#[verifier::external_body]
pub fn new_rng() -> Option<SmallRng> {
    SmallRng::from_rng(OsRng).ok()
}

/// Calls `Rng::gen_range(low..=high)` of rand, which panics on an empty
/// range and otherwise returns a number of the closed range. Which number
/// is chance; only the range is stated.
#[verifier::external_body]
pub(crate) fn random_in(rng: &mut SmallRng, low: usize, high: usize) -> (r: usize)
    requires
        low <= high,
    ensures
        low <= r <= high,
{
    rng.gen_range(low..=high)
}

/// Calls `Rng::gen_ratio(numerator, denominator)` of rand: true with
/// chance `numerator / denominator`; it panics when the denominator is
/// zero or below the numerator, is never true for a zero numerator and
/// always true when the two are equal. Between those, the outcome is
/// chance and nothing more is stated.
#[verifier::external_body]
fn random_ratio(rng: &mut SmallRng, numerator: u32, denominator: u32) -> (r: bool)
    requires
        0 < denominator,
        numerator <= denominator,
    ensures
        numerator == 0 ==> !r,
        numerator == denominator ==> r,
{
    rng.gen_ratio(numerator, denominator)
}

/// Calls `wide::u8x32::splat(ch).to_array()`: 32 copies of `ch`.
#[verifier::external_body]
fn splat32(ch: u8) -> (r: [u8; 32])
    ensures
        forall|i: int| 0 <= i < 32 ==> r@[i] == ch,
{
    wide::u8x32::splat(ch).to_array()
}

/// Splat `n` copies of `ch` onto `out`, 32 bytes at a time: the SIMD shaft
/// extender, then the leftovers one by one.
pub fn fill_run(out: &mut Vec<u8>, ch: u8, n: usize)
    ensures
        final(out)@ == old(out)@ + Seq::new(n as nat, |i: int| ch),
{
    if n == 0 {
        assert(old(out)@ + Seq::new(0, |i: int| ch) =~= old(out)@);
        return;
    }
    let chunk = splat32(ch);
    let mut i: usize = 0;
    while n - i >= 32
        invariant
            i <= n,
            forall|k: int| 0 <= k < 32 ==> chunk@[k] == ch,
            out@ == old(out)@ + Seq::new(i as nat, |k: int| ch),
        decreases n - i,
    {
        let mut k: usize = 0;
        while k < 32
            invariant
                k <= 32,
                i + 32 <= n,
                forall|m: int| 0 <= m < 32 ==> chunk@[m] == ch,
                out@ == old(out)@ + Seq::new((i + k) as nat, |m: int| ch),
            decreases 32 - k,
        {
            out.push(chunk[k]);
            k += 1;
            assert(out@ =~= old(out)@ + Seq::new((i + k) as nat, |m: int| ch));
        }
        i += 32;
    }
    while i < n
        invariant
            i <= n,
            out@ == old(out)@ + Seq::new(i as nat, |k: int| ch),
        decreases n - i,
    {
        out.push(ch);
        i += 1;
        assert(out@ =~= old(out)@ + Seq::new(i as nat, |k: int| ch));
    }
}


/// Append the penis of the drawn shape to `out`: `8`, `#` if `balls`,
/// `shaft` units of `=`, `D`, `jizz` drops of `~`, a space.
pub fn push_dick(out: &mut Vec<u8>, balls: bool, shaft: usize, jizz: usize)
    ensures
        final(out)@ == old(out)@ + dick((balls, shaft as nat, jizz as nat)),
{
    out.push(BASE);
    if balls {
        out.push(BALLS);
    }
    fill_run(out, SHAFT, shaft);
    out.push(HEAD);
    fill_run(out, JIZZ, jizz);
    out.push(SPACE);
    assert(out@ =~= old(out)@ + dick((balls, shaft as nat, jizz as nat)));
}

/// What the draws of one penis are handed: the chance of the balls (in
/// 2^24ths, at most `BALLS_SCALE`), then the shaft range and the drip
/// range.
pub open spec fn spec_draw_args(cfg: DickConfig) -> (u32, usize, usize, usize, usize) {
    (
        if cfg.balls_chance < BALLS_SCALE {
            cfg.balls_chance
        } else {
            BALLS_SCALE
        },
        cfg.shaft_min,
        cfg.shaft_max,
        cfg.jizz_min,
        cfg.jizz_max,
    )
}

/// The arguments of the three draws of one penis: the configured chance
/// (a chance of one or more counts as one) and the configured ranges.
pub fn draw_args(cfg: &DickConfig) -> (r: (u32, usize, usize, usize, usize))
    ensures
        r == spec_draw_args(*cfg),
{
    let chance = if cfg.balls_chance < BALLS_SCALE {
        cfg.balls_chance
    } else {
        BALLS_SCALE
    };
    (chance, cfg.shaft_min, cfg.shaft_max, cfg.jizz_min, cfg.jizz_max)
}

/// Jerk out one random penis and append it to `out`. The balls come from
/// `gen_ratio(chance, BALLS_SCALE)`, the shaft from `gen_range(min..=max)`
/// of the shaft range and the drip likewise, with exactly the arguments
/// `draw_args` gives (a range of one value is taken without a draw); the
/// drawn shape is assembled by `push_dick`.
pub fn push_one(rng: &mut SmallRng, cfg: &DickConfig, out: &mut Vec<u8>)
    requires
        cfg.well_formed(),
    ensures
        exists|shape: (bool, nat, nat)|
            #![trigger dick(shape)]
            shape_ok(*cfg, shape) && final(out)@ == old(out)@ + dick(shape),
{
    let (chance, shaft_min, shaft_max, jizz_min, jizz_max) = draw_args(cfg);
    let balls = random_ratio(rng, chance, BALLS_SCALE);
    let shaft = if shaft_min == shaft_max {
        shaft_min
    } else {
        random_in(rng, shaft_min, shaft_max)
    };
    let jizz = if jizz_min == jizz_max {
        jizz_min
    } else {
        random_in(rng, jizz_min, jizz_max)
    };
    push_dick(out, balls, shaft, jizz);
    assert(shape_ok(*cfg, (balls, shaft as nat, jizz as nat)));
}

/// The length of one penis.
pub open spec fn dick_len(shape: (bool, nat, nat)) -> int {
    3 + (if shape.0 { 1int } else { 0int }) + shape.1 + shape.2
}

/// The bytes of a penis, its length, and its first byte.
pub proof fn lemma_dick_facts(shape: (bool, nat, nat))
    ensures
        dick(shape).len() == dick_len(shape),
        dick(shape)[0] == BASE,
        forall|i: int| 0 <= i < dick(shape).len() ==> spec_is_dick_byte(#[trigger] dick(shape)[i]),
{
    let d = dick(shape);
    assert forall|i: int| 0 <= i < d.len() implies spec_is_dick_byte(#[trigger] d[i]) by {
        let b: Seq<u8> = if shape.0 { seq![BALLS] } else { Seq::empty() };
        let p1 = seq![BASE] + b;
        let p2 = p1 + Seq::new(shape.1, |k: int| SHAFT);
        let p3 = p2 + seq![HEAD];
        let p4 = p3 + Seq::new(shape.2, |k: int| JIZZ);
        assert(d == p4 + seq![SPACE]);
        if i < p1.len() {
        } else if i < p2.len() {
        } else if i < p3.len() {
        } else if i < p4.len() {
        }
    }
}

/// A penis that the configuration allows is never longer than
/// `max_dick_len`, and never shorter than `8D `.
pub proof fn lemma_dick_fits(cfg: DickConfig, shape: (bool, nat, nat))
    requires
        shape_ok(cfg, shape),
    ensures
        3 <= dick(shape).len() <= cfg.spec_max_dick_len(),
{
    lemma_dick_facts(shape);
}

proof fn lemma_dicks_push(shapes: Seq<(bool, nat, nat)>, shape: (bool, nat, nat))
    ensures
        dicks(shapes.push(shape)) == dicks(shapes) + dick(shape),
{
    assert(shapes.push(shape).drop_last() =~= shapes);
}

/// Every byte of a run of penises is in the alphabet, and a nonempty run
/// starts with `8`.
pub proof fn lemma_dicks_facts(shapes: Seq<(bool, nat, nat)>)
    ensures
        forall|i: int| 0 <= i < dicks(shapes).len() ==> spec_is_dick_byte(#[trigger] dicks(shapes)[i]),
        shapes.len() > 0 ==> dicks(shapes).len() > 0 && dicks(shapes)[0] == BASE,
    decreases shapes.len(),
{
    if shapes.len() > 0 {
        let init = shapes.drop_last();
        lemma_dicks_facts(init);
        lemma_dick_facts(shapes.last());
        let a = dicks(init);
        let b = dick(shapes.last());
        assert(dicks(shapes) == a + b);
        assert forall|i: int| 0 <= i < (a + b).len() implies spec_is_dick_byte(#[trigger] (a + b)[i]) by {
            if i < a.len() {
                assert((a + b)[i] == a[i]);
            } else {
                assert((a + b)[i] == b[i - a.len()]);
            }
        }
    }
}

/// Law: whatever the generator writes passes `--verify`. Every byte of a
/// penis stream is in the alphabet, and a nonempty stream starts with `8`.
pub proof fn lemma_stream_is_all_dick_bytes(cfg: DickConfig, bytes: Seq<u8>)
    requires
        is_dick_stream(cfg, bytes),
    ensures
        forall|i: int| 0 <= i < bytes.len() ==> spec_is_dick_byte(#[trigger] bytes[i]),
        bytes.len() > 0 ==> bytes[0] == BASE,
{
    let shapes = choose|shapes: Seq<(bool, nat, nat)>|
        #![trigger dicks(shapes)]
        (forall|i: int| 0 <= i < shapes.len() ==> shape_ok(cfg, #[trigger] shapes[i]))
            && bytes.len() <= dicks(shapes).len() && bytes == dicks(shapes).take(
            bytes.len() as int,
        );
    lemma_dicks_facts(shapes);
    assert forall|i: int| 0 <= i < bytes.len() implies spec_is_dick_byte(#[trigger] bytes[i]) by {
        assert(bytes[i] == dicks(shapes)[i]);
    }
    if bytes.len() > 0 {
        assert(bytes[0] == dicks(shapes)[0]);
    }
}

/// Append penises to `out` (empty on entry) until it holds at least `n`
/// bytes, then cut it to exactly `n`.
fn fill_exact(rng: &mut SmallRng, cfg: &DickConfig, out: &mut Vec<u8>, n: usize)
    requires
        cfg.well_formed(),
        n + cfg.spec_max_dick_len() <= usize::MAX,
        old(out)@.len() == 0,
    ensures
        final(out)@.len() == n,
        is_dick_stream(*cfg, final(out)@),
{
    let ghost mut shapes: Seq<(bool, nat, nat)> = Seq::empty();
    assert(out@ =~= dicks(shapes));
    while out.len() < n
        invariant
            cfg.well_formed(),
            n + cfg.spec_max_dick_len() <= usize::MAX,
            out@ == dicks(shapes),
            out@.len() < n + cfg.spec_max_dick_len(),
            forall|i: int| 0 <= i < shapes.len() ==> shape_ok(*cfg, #[trigger] shapes[i]),
        decreases n + cfg.spec_max_dick_len() - out@.len(),
    {
        let ghost before = out@;
        push_one(rng, cfg, out);
        proof {
            let shape = choose|shape: (bool, nat, nat)|
                #![trigger dick(shape)]
                shape_ok(*cfg, shape) && out@ == before + dick(shape);
            lemma_dick_fits(*cfg, shape);
            lemma_dicks_push(shapes, shape);
            let old_shapes = shapes;
            shapes = shapes.push(shape);
            assert forall|i: int| 0 <= i < shapes.len() implies shape_ok(*cfg, #[trigger] shapes[i]) by {
                if i < old_shapes.len() {
                    assert(shapes[i] == old_shapes[i]);
                }
            }
        }
    }
    out.truncate(n);
    assert(out@ == dicks(shapes).take(n as int));
}

/// One buffer of `n` bytes of penises, cut at exactly `n`. Used to preview
/// a configuration (`--dry-run`).
pub fn generate(rng: &mut SmallRng, cfg: &DickConfig, n: usize) -> (out: Vec<u8>)
    requires
        cfg.well_formed(),
        n + cfg.spec_max_dick_len() <= usize::MAX,
    ensures
        out@.len() == n,
        is_dick_stream(*cfg, out@),
{
    let mut out: Vec<u8> = Vec::with_capacity(n);
    fill_exact(rng, cfg, &mut out, n);
    out
}

/// Per-thread reusable cock-buffer. One thread owns one. Call `fill()` to
/// load it up, then `as_bytes()` for the goods.
pub struct DickBuf {
    cfg: DickConfig,
    buf: Vec<u8>,
    rng: SmallRng,
    capacity: usize,
}

impl DickBuf {
    /// The configuration is well formed and a full buffer plus one penis
    /// fits in memory.
    pub closed spec fn well_formed(&self) -> bool {
        &&& self.cfg.well_formed()
        &&& self.capacity + self.cfg.spec_max_dick_len() <= usize::MAX
    }

    /// The configuration the buffer was made with.
    pub closed spec fn config(&self) -> DickConfig {
        self.cfg
    }

    /// How many bytes `fill` loads.
    pub closed spec fn spec_capacity(&self) -> usize {
        self.capacity
    }

    /// What the buffer holds.
    pub closed spec fn bytes(&self) -> Seq<u8> {
        self.buf@
    }

    /// An empty buffer that `fill` loads with exactly `capacity` bytes,
    /// drawing from `rng`.
    pub fn with_rng(cfg: DickConfig, capacity: usize, rng: SmallRng) -> (r: Self)
        requires
            cfg.well_formed(),
            capacity + cfg.spec_max_dick_len() <= usize::MAX,
        ensures
            r.config() == cfg,
            r.spec_capacity() == capacity,
            r.bytes() == Seq::<u8>::empty(),
            r.well_formed(),
    {
        let slack = cfg.max_dick_len();
        DickBuf { cfg, buf: Vec::with_capacity(capacity + slack), rng, capacity }
    }

    /// An empty buffer with a freshly seeded generator, or `None` when the
    /// operating system yields no randomness to seed it.
    pub fn new(cfg: DickConfig, capacity: usize) -> (r: Option<Self>)
        requires
            cfg.well_formed(),
            capacity + cfg.spec_max_dick_len() <= usize::MAX,
        ensures
            r matches Some(b) ==> b.config() == cfg && b.spec_capacity() == capacity && b.bytes()
                == Seq::<u8>::empty() && b.well_formed(),
    {
        match new_rng() {
            Some(rng) => Some(DickBuf::with_rng(cfg, capacity, rng)),
            None => None,
        }
    }

    /// Pump the buffer full of fresh dicks. Exactly `capacity` bytes when
    /// done.
    pub fn fill(&mut self)
        requires
            old(self).well_formed(),
        ensures
            final(self).well_formed(),
            final(self).config() == old(self).config(),
            final(self).spec_capacity() == old(self).spec_capacity(),
            final(self).bytes().len() == old(self).spec_capacity(),
            is_dick_stream(old(self).config(), final(self).bytes()),
    {
        self.buf.clear();
        fill_exact(&mut self.rng, &self.cfg, &mut self.buf, self.capacity);
    }

    /// The goods.
    pub fn as_bytes(&self) -> (r: &[u8])
        ensures
            r@ == self.bytes(),
    {
        self.buf.as_slice()
    }
}

} // verus!
