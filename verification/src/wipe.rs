//! The bookkeeping of the plowing floor: which inputs become targets, how
//! long the progress bar is, how much of a round each write covers, and
//! what a read-back check finds. The program does the reading, writing,
//! syncing and unlinking.

use vstd::prelude::*;
use crate::dicks::{is_dick_byte, is_dick_stream, lemma_stream_is_all_dick_bytes, spec_is_dick_byte, DickConfig};
use crate::pathname::{components, components_exec, vec_views, DOT, SLASH};

verus! {

/// What to do with one user-given input.
#[derive(Clone, Copy, Debug, PartialEq, Eq, Structural)]
pub enum InputAction {
    /// Wipe it (a block device, or an existing non-directory).
    Take,
    /// Walk it and wipe every file inside (a directory with `--recursive`).
    Walk,
    /// Warn that it is a directory and `--recursive` is off, and skip it.
    SkipDirectory,
    /// Warn that it does not exist, and skip it.
    SkipMissing,
}

/// Block devices come through untouched; directories get walked iff
/// `--recursive`; anything else that exists is a target.
pub open spec fn spec_input_action(is_block: bool, is_dir: bool, exists: bool, recursive: bool) -> InputAction {
    if is_block {
        InputAction::Take
    } else if is_dir {
        if recursive {
            InputAction::Walk
        } else {
            InputAction::SkipDirectory
        }
    } else if exists {
        InputAction::Take
    } else {
        InputAction::SkipMissing
    }
}

/// Law: an input is taken exactly when it is a block device or an
/// existing non-directory, whatever `--recursive` says; directories are
/// walked exactly with `--recursive` and skipped (with a warning)
/// without it; only an input that does not exist is reported missing.
pub proof fn lemma_inputs_are_triaged(is_block: bool, is_dir: bool, exists: bool, recursive: bool)
    ensures
        (spec_input_action(is_block, is_dir, exists, recursive) == InputAction::Take) <==> (is_block
            || (!is_dir && exists)),
        (spec_input_action(is_block, is_dir, exists, recursive) == InputAction::Walk) <==> (!is_block
            && is_dir && recursive),
        (spec_input_action(is_block, is_dir, exists, recursive) == InputAction::SkipDirectory) <==> (
        !is_block && is_dir && !recursive),
        (spec_input_action(is_block, is_dir, exists, recursive) == InputAction::SkipMissing) <==> (
        !is_block && !is_dir && !exists),
        !is_dir ==> spec_input_action(is_block, is_dir, exists, true) == spec_input_action(
            is_block,
            is_dir,
            exists,
            false,
        ),
{
}

/// Expand one input of the file list.
pub fn input_action(is_block: bool, is_dir: bool, exists: bool, recursive: bool) -> (r: InputAction)
    ensures
        r == spec_input_action(is_block, is_dir, exists, recursive),
{
    if is_block {
        InputAction::Take
    } else if is_dir {
        if recursive {
            InputAction::Walk
        } else {
            InputAction::SkipDirectory
        }
    } else if exists {
        InputAction::Take
    } else {
        InputAction::SkipMissing
    }
}

/// `min(x * y, u64::MAX)`
pub open spec fn saturating_product(x: int, y: int) -> int {
    if x * y > u64::MAX {
        u64::MAX as int
    } else {
        x * y
    }
}

/// The length of a target's progress bar: each round writes `size` bytes
/// and, with `--verify`, reads them back; everything saturates at
/// `u64::MAX`.
pub open spec fn spec_progress_total(size: u64, rounds: u64, verify: bool) -> int {
    let per_round = if verify {
        saturating_product(size as int, 2)
    } else {
        size as int
    };
    saturating_product(per_round, rounds as int)
}

fn saturating_mul(x: u64, y: u64) -> (r: u64)
    ensures
        r == saturating_product(x as int, y as int),
{
    assert((x as int) * (y as int) <= (u64::MAX as int) * (u64::MAX as int)) by (nonlinear_arith)
        requires
            x <= u64::MAX,
            y <= u64::MAX,
    ;
    let wide: u128 = x as u128 * y as u128;
    if wide > u64::MAX as u128 {
        u64::MAX
    } else {
        wide as u64
    }
}

/// How many bytes the progress bar of one target counts.
pub fn progress_total(size: u64, rounds: u64, verify: bool) -> (r: u64)
    ensures
        r == spec_progress_total(size, rounds, verify),
{
    let per_round = if verify {
        saturating_mul(size, 2)
    } else {
        size
    };
    saturating_mul(per_round, rounds)
}

/// How one target is handled around its overwrite rounds.
#[derive(Clone, Copy, Debug, PartialEq, Eq, Structural)]
pub struct TargetPlan {
    /// The bytes its progress bar counts.
    pub progress_total: u64,
    /// Whether it is registered for Ctrl-C cleanup and unlinked after the
    /// wipe: files are, block devices keep their inode.
    pub unlink: bool,
}

/// The plan of a target: files are unlinked (and registered for cleanup
/// until they are), block devices are not; the bar counts every round's
/// writes and, with `--verify`, its read-back.
pub open spec fn spec_plan_target(is_block: bool, size: u64, rounds: u64, verify: bool) -> TargetPlan {
    TargetPlan {
        progress_total: spec_progress_total(size, rounds, verify) as u64,
        unlink: !is_block,
    }
}

/// Law: every regular-file target is unlinked and every block device is
/// kept, whatever its size, the number of rounds or `--verify`; the bar
/// counts `size` bytes per round, twice that with `--verify`, as long as
/// that fits in a `u64`.
pub proof fn lemma_plan_target(is_block: bool, size: u64, rounds: u64, verify: bool)
    ensures
        spec_plan_target(is_block, size, rounds, verify).unlink == !is_block,
        spec_plan_target(is_block, size, rounds, verify).unlink == spec_plan_target(
            is_block,
            0,
            0,
            false,
        ).unlink,
        size * rounds * (if verify {
            2int
        } else {
            1int
        }) <= u64::MAX ==> spec_plan_target(is_block, size, rounds, verify).progress_total
            == size * rounds * (if verify {
            2int
        } else {
            1int
        }),
{
    let k: int = if verify {
        2
    } else {
        1
    };
    let sz = size as int;
    let rd = rounds as int;
    if sz * rd * k <= u64::MAX {
        assert(sz * k * rd == sz * rd * k) by (nonlinear_arith);
        if rd > 0 {
            assert(sz * k <= sz * k * rd) by (nonlinear_arith)
                requires
                    sz >= 0,
                    k >= 1,
                    rd >= 1,
            ;
        } else {
            assert(sz * rd * k == 0) by (nonlinear_arith)
                requires
                    rd == 0,
            ;
        }
        assert(sz * rd * k >= 0) by (nonlinear_arith)
            requires
                sz >= 0,
                rd >= 0,
                k >= 1,
        ;
    }
}

/// Plan one target.
pub fn plan_target(is_block: bool, size: u64, rounds: u64, verify: bool) -> (r: TargetPlan)
    ensures
        r == spec_plan_target(is_block, size, rounds, verify),
{
    TargetPlan { progress_total: progress_total(size, rounds, verify), unlink: !is_block }
}

/// The part of a buffer of `avail` bytes that the next write (or read
/// request) at `done` of `size` takes: all of it, or the rest if less.
pub open spec fn spec_chunk(size: int, done: int, avail: int) -> int {
    if avail < size - done {
        avail
    } else {
        size - done
    }
}

/// How far a round over `size` bytes has got from `done` after chunks
/// taken from buffers of the lengths in `avails`, one after another.
pub open spec fn covered_after(size: int, done: int, avails: Seq<int>) -> int
    decreases avails.len(),
{
    if avails.len() == 0 {
        done
    } else {
        covered_after(size, done + spec_chunk(size, done, avails[0]), avails.drop_first())
    }
}

/// Law: a round never runs past the end of its target, and with
/// nonempty buffers it covers the target exactly once enough chunks have
/// gone out (one per remaining byte at the most).
pub proof fn lemma_round_covers_target(size: int, done: int, avails: Seq<int>)
    requires
        0 <= done <= size,
        forall|i: int| 0 <= i < avails.len() ==> avails[i] >= 0,
    ensures
        done <= covered_after(size, done, avails) <= size,
        (forall|i: int| 0 <= i < avails.len() ==> avails[i] >= 1) && avails.len() >= size - done
            ==> covered_after(size, done, avails) == size,
    decreases avails.len(),
{
    if avails.len() > 0 {
        let rest = avails.drop_first();
        assert forall|i: int| 0 <= i < rest.len() implies rest[i] >= 0 by {
            assert(rest[i] == avails[i + 1]);
        }
        let next = done + spec_chunk(size, done, avails[0]);
        lemma_round_covers_target(size, next, rest);
        if (forall|i: int| 0 <= i < avails.len() ==> avails[i] >= 1) && avails.len() >= size - done {
            assert forall|i: int| 0 <= i < rest.len() implies rest[i] >= 1 by {
                assert(rest[i] == avails[i + 1]);
            }
            assert(avails[0] >= 1);
        }
    }
}

/// How far one overwrite round has got.
pub struct RoundProgress {
    size: u64,
    written: u64,
}

impl RoundProgress {
    /// The bytes the round must cover.
    pub closed spec fn spec_size(&self) -> u64 {
        self.size
    }

    /// The bytes covered so far.
    pub closed spec fn spec_written(&self) -> u64 {
        self.written
    }

    /// Never past the end.
    pub closed spec fn well_formed(&self) -> bool {
        self.written <= self.size
    }

    /// A round over `size` bytes, nothing written yet.
    pub fn new(size: u64) -> (r: Self)
        ensures
            r.spec_size() == size,
            r.spec_written() == 0,
            r.well_formed(),
    {
        RoundProgress { size, written: 0 }
    }

    /// The bytes covered so far.
    pub fn written(&self) -> (r: u64)
        ensures
            r == self.spec_written(),
    {
        self.written
    }

    /// Has the round covered the whole target?
    pub fn is_done(&self) -> (r: bool)
        requires
            self.well_formed(),
        ensures
            r == (self.spec_written() == self.spec_size()),
    {
        self.written >= self.size
    }

    /// How much of a buffer of `avail` bytes the next write takes: all of
    /// it, or what is left of the target if that is less.
    pub fn next_chunk(&self, avail: usize) -> (r: usize)
        requires
            self.well_formed(),
        ensures
            r <= avail,
            r <= self.spec_size() - self.spec_written(),
            r == avail || r == self.spec_size() - self.spec_written(),
            r == spec_chunk(self.spec_size() as int, self.spec_written() as int, avail as int),
    {
        let remaining = self.size - self.written;
        if (avail as u64) < remaining {
            avail
        } else {
            remaining as usize
        }
    }

    /// Count `n` more bytes as written.
    pub fn advance(&mut self, n: usize)
        requires
            old(self).well_formed(),
            n <= old(self).spec_size() - old(self).spec_written(),
        ensures
            final(self).well_formed(),
            final(self).spec_size() == old(self).spec_size(),
            final(self).spec_written() == old(self).spec_written() + n,
    {
        self.written = self.written + n as u64;
    }
}

/// The first byte that is not in the penis alphabet, if any.
pub open spec fn first_bad_from(data: Seq<u8>, i: int) -> Option<int>
    decreases data.len() - i,
{
    if i < 0 || i >= data.len() {
        None
    } else if !spec_is_dick_byte(data[i]) {
        Some(i)
    } else {
        first_bad_from(data, i + 1)
    }
}

/// Where the first non-dick byte of `data` is.
pub fn first_non_dick(data: &[u8]) -> (r: Option<usize>)
    ensures
        match r {
            Some(i) => first_bad_from(data@, 0) == Some(i as int),
            None => first_bad_from(data@, 0) is None,
        },
        r matches Some(i) ==> i < data@.len() && !spec_is_dick_byte(data@[i as int]) && forall|
            k: int,
        | 0 <= k < i ==> spec_is_dick_byte(#[trigger] data@[k]),
        r is None ==> forall|k: int| 0 <= k < data@.len() ==> spec_is_dick_byte(#[trigger] data@[k]),
{
    let mut i: usize = 0;
    while i < data.len()
        invariant
            i <= data@.len(),
            first_bad_from(data@, i as int) == first_bad_from(data@, 0),
            forall|k: int| 0 <= k < i ==> spec_is_dick_byte(#[trigger] data@[k]),
        decreases data@.len() - i,
    {
        if !is_dick_byte(data[i]) {
            return Some(i);
        }
        i += 1;
    }
    None
}

proof fn lemma_first_bad_none(data: Seq<u8>, i: int)
    requires
        0 <= i,
        forall|k: int| 0 <= k < data.len() ==> spec_is_dick_byte(#[trigger] data[k]),
    ensures
        first_bad_from(data, i) is None,
    decreases data.len() - i,
{
    if i < data.len() {
        assert(spec_is_dick_byte(data[i]));
        lemma_first_bad_none(data, i + 1);
    }
}

/// What reading a wiped target back found wrong.
#[derive(Clone, Copy, Debug, PartialEq, Eq, Structural)]
pub enum VerifyError {
    /// The target ended before its size, at this offset.
    ShortRead { offset: u64 },
    /// A byte outside the alphabet, at this offset: the drive cheated.
    NotADick { byte: u8, offset: u64 },
}

/// The verdict on `n` bytes read back at `offset`.
pub open spec fn spec_check_chunk(data: Seq<u8>, offset: u64) -> Result<(), VerifyError> {
    if data.len() == 0 {
        Err(VerifyError::ShortRead { offset })
    } else {
        match first_bad_from(data, 0) {
            Some(i) => Err(VerifyError::NotADick { byte: data[i], offset: (offset + i) as u64 }),
            None => Ok(()),
        }
    }
}

/// Check one chunk read back from a target at `offset`: an empty read
/// means the target is shorter than expected; any byte outside the
/// alphabet is reported with its offset.
pub fn check_chunk(data: &[u8], offset: u64) -> (r: Result<(), VerifyError>)
    requires
        offset + data@.len() <= u64::MAX,
    ensures
        r == spec_check_chunk(data@, offset),
{
    if data.len() == 0 {
        return Err(VerifyError::ShortRead { offset });
    }
    match first_non_dick(data) {
        Some(i) => Err(VerifyError::NotADick { byte: data[i], offset: offset + i as u64 }),
        None => Ok(()),
    }
}

/// How much the next read-back asks for: the rest of the target, at most
/// a buffer's worth.
pub fn read_want(size: u64, offset: u64, buf_len: usize) -> (r: usize)
    requires
        offset <= size,
    ensures
        r <= buf_len,
        r <= size - offset,
        r == buf_len || r == size - offset,
        r == spec_chunk(size as int, offset as int, buf_len as int),
{
    let rest = size - offset;
    if rest < buf_len as u64 {
        rest as usize
    } else {
        buf_len
    }
}


/// Law: what the generator wrote passes `--verify`: a nonempty read-back
/// of penis stream bytes at any offset is accepted.
pub proof fn lemma_generated_passes_verify(cfg: DickConfig, data: Seq<u8>, offset: u64)
    requires
        is_dick_stream(cfg, data),
        data.len() > 0,
    ensures
        spec_check_chunk(data, offset) == Ok::<(), VerifyError>(()),
{
    lemma_stream_is_all_dick_bytes(cfg, data);
    lemma_first_bad_none(data, 0);
}


/// The components of a path written out again: the root as a leading
/// `/`, the other components joined by single separators.
pub open spec fn join_names(c: Seq<Seq<u8>>) -> Seq<u8>
    decreases c.len(),
{
    if c.len() == 0 {
        Seq::empty()
    } else if c.len() == 1 {
        c[0]
    } else {
        join_names(c.drop_last()) + seq![SLASH] + c.last()
    }
}

/// A path spelled from its components.
pub open spec fn render_components(c: Seq<Seq<u8>>) -> Seq<u8> {
    if c.len() > 0 && c[0] == seq![SLASH] {
        seq![SLASH] + join_names(c.drop_first())
    } else {
        join_names(c)
    }
}

/// The parent directory, as `std::path::Path::parent` gives it: the path
/// without its last component, when that component is a name, `.` or
/// `..`; nothing for the root or an empty path. It is spelled from its
/// components, so it names the same directory as std's answer.
pub open spec fn spec_parent(p: Seq<u8>) -> Option<Seq<u8>> {
    let c = components(p);
    if c.len() > 0 && c.last() != seq![SLASH] {
        Some(render_components(c.drop_last()))
    } else {
        None
    }
}

/// Where the free-space fill puts its temp file: the hint itself when it
/// is a directory, else its parent, else the current directory.
pub open spec fn spec_freespace_dir(hint: Seq<u8>, hint_is_dir: bool) -> Seq<u8> {
    if hint_is_dir {
        hint
    } else {
        match spec_parent(hint) {
            Some(d) => d,
            None => seq![DOT],
        }
    }
}

/// `wipedicks-freespace.tmp`
pub open spec fn freespace_name() -> Seq<u8> {
    seq![
        0x77u8, 0x69, 0x70, 0x65, 0x64, 0x69, 0x63, 0x6b, 0x73, 0x2d, 0x66, 0x72, 0x65, 0x65,
        0x73, 0x70, 0x61, 0x63, 0x65, 0x2e, 0x74, 0x6d, 0x70,
    ]
}

/// `dir` joined with a relative `name`, as `Path::join` does it: a
/// separator goes between unless `dir` is empty or already ends in one.
pub open spec fn spec_join(dir: Seq<u8>, name: Seq<u8>) -> Seq<u8> {
    if dir.len() == 0 {
        name
    } else if dir.last() == SLASH {
        dir + name
    } else {
        dir + seq![SLASH] + name
    }
}

/// The temp file of the free-space fill.
pub open spec fn spec_freespace_temp(hint: Seq<u8>, hint_is_dir: bool) -> Seq<u8> {
    spec_join(spec_freespace_dir(hint, hint_is_dir), freespace_name())
}

fn append(out: &mut Vec<u8>, s: &[u8])
    ensures
        final(out)@ == old(out)@ + s@,
{
    let mut i: usize = 0;
    while i < s.len()
        invariant
            i <= s@.len(),
            out@ == old(out)@ + s@.subrange(0, i as int),
        decreases s@.len() - i,
    {
        out.push(s[i]);
        i += 1;
        assert(s@.subrange(0, i as int) =~= s@.subrange(0, i - 1) + seq![s@[i - 1]]);
    }
    assert(s@.subrange(0, s@.len() as int) =~= s@);
}

fn is_root(c: &Vec<u8>) -> (r: bool)
    ensures
        r == (c@ == seq![SLASH]),
{
    let r = c.len() == 1 && c[0] == SLASH;
    proof {
        if c@.len() == 1 {
            assert(c@ =~= seq![c@[0]]);
        } else {
            assert(seq![SLASH].len() == 1);
        }
    }
    r
}

/// `c[start..end]` joined by single separators.
fn join_range(c: &Vec<Vec<u8>>, start: usize, end: usize) -> (r: Vec<u8>)
    requires
        start <= end <= c@.len(),
    ensures
        r@ == join_names(vec_views(c@).subrange(start as int, end as int)),
{
    let ghost cv = vec_views(c@);
    let mut out: Vec<u8> = Vec::new();
    let mut i = start;
    assert(cv.subrange(start as int, start as int) =~= Seq::<Seq<u8>>::empty());
    while i < end
        invariant
            start <= i <= end <= c@.len(),
            cv == vec_views(c@),
            out@ == join_names(cv.subrange(start as int, i as int)),
        decreases end - i,
    {
        let ghost before = cv.subrange(start as int, i as int);
        let ghost after = cv.subrange(start as int, i + 1);
        assert(after.drop_last() =~= before);
        assert(after.last() == c@[i as int]@);
        if i > start {
            out.push(SLASH);
        } else {
            assert(after.len() == 1);
        }
        append(&mut out, c[i].as_slice());
        i += 1;
    }
    out
}

/// The parent of `p`, as `spec_parent` says.
pub fn parent(p: &[u8]) -> (r: Option<Vec<u8>>)
    ensures
        match spec_parent(p@) {
            Some(d) => r matches Some(v) && v@ == d,
            None => r is None,
        },
{
    let c = components_exec(p);
    let ghost cv = vec_views(c@);
    let n = c.len();
    if n == 0 || is_root(&c[n - 1]) {
        return None;
    }
    let m = n - 1;
    let ghost pc = cv.drop_last();
    assert(pc =~= cv.subrange(0, m as int));
    if m > 0 && is_root(&c[0]) {
        let mut out: Vec<u8> = Vec::new();
        out.push(SLASH);
        let rest = join_range(&c, 1, m);
        assert(pc.drop_first() =~= cv.subrange(1, m as int));
        append(&mut out, rest.as_slice());
        Some(out)
    } else {
        Some(join_range(&c, 0, m))
    }
}

/// The temp file that `-w` fills: `wipedicks-freespace.tmp` in the
/// hinted directory, in the parent of a hinted file, or in the current
/// directory when the hint has no parent.
pub fn freespace_temp(hint: &[u8], hint_is_dir: bool) -> (r: Vec<u8>)
    ensures
        r@ == spec_freespace_temp(hint@, hint_is_dir),
{
    let mut dir: Vec<u8> = if hint_is_dir {
        let mut d: Vec<u8> = Vec::new();
        append(&mut d, hint);
        d
    } else {
        match parent(hint) {
            Some(d) => d,
            None => {
                let mut d: Vec<u8> = Vec::new();
                d.push(DOT);
                assert(d@ =~= seq![DOT]);
                d
            },
        }
    };
    assert(dir@ == spec_freespace_dir(hint@, hint_is_dir));
    let name: Vec<u8> = vec![
        0x77u8, 0x69, 0x70, 0x65, 0x64, 0x69, 0x63, 0x6b, 0x73, 0x2d, 0x66, 0x72, 0x65, 0x65,
        0x73, 0x70, 0x61, 0x63, 0x65, 0x2e, 0x74, 0x6d, 0x70,
    ];
    assert(name@ =~= freespace_name());
    let n = dir.len();
    if n > 0 && dir[n - 1] != SLASH {
        dir.push(SLASH);
    }
    append(&mut dir, name.as_slice());
    assert(dir@ =~= spec_freespace_temp(hint@, hint_is_dir));
    dir
}

/// How one write of the free-space fill went.
#[derive(Clone, Copy, Debug, PartialEq, Eq, Structural)]
pub enum WriteOutcome {
    /// The whole buffer went out.
    Written,
    /// The filesystem is full (`ENOSPC`, or the disk-full error elsewhere).
    StorageFull,
    /// Any other error.
    Other,
}

/// What the free-space fill does next.
#[derive(Clone, Copy, Debug, PartialEq, Eq, Structural)]
pub enum FreespaceStep {
    /// Write the buffer again.
    Continue,
    /// The filesystem is full: the fill is done.
    Done,
    /// Give up with the write error.
    Fail,
}

/// Keep writing until the filesystem taps out; a full disk is success,
/// any other error is a failure.
pub open spec fn spec_freespace_step(o: WriteOutcome) -> FreespaceStep {
    match o {
        WriteOutcome::Written => FreespaceStep::Continue,
        WriteOutcome::StorageFull => FreespaceStep::Done,
        WriteOutcome::Other => FreespaceStep::Fail,
    }
}

/// The free-space fill's decision after one write.
pub fn freespace_step(o: WriteOutcome) -> (r: FreespaceStep)
    ensures
        r == spec_freespace_step(o),
{
    match o {
        WriteOutcome::Written => FreespaceStep::Continue,
        WriteOutcome::StorageFull => FreespaceStep::Done,
        WriteOutcome::Other => FreespaceStep::Fail,
    }
}

} // verus!
