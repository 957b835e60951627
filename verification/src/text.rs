//! Byte-level text scanning for the kernel tables the wiper reads
//! (`/proc/swaps`, `/proc/self/mountinfo`, sysfs flags, tool output):
//! lines, whitespace-separated fields, and substring search, with the
//! meaning that Rust's `str::lines`, `str::split_whitespace` and
//! `str::split` give them on UTF-8 text.

use vstd::prelude::*;

verus! {

/// The view of an optional byte string.
pub open spec fn opt_view(o: Option<&[u8]>) -> Option<Seq<u8>> {
    match o {
        Some(t) => Some(t@),
        None => None,
    }
}

/// `\n`
pub const NEWLINE: u8 = 0x0a;
/// `\r`
pub const CARRIAGE_RETURN: u8 = 0x0d;

/// The length of the UTF-8 encoded White_Space character that starts at
/// `i`, or 0 when none does.
pub open spec fn ws_len(s: Seq<u8>, i: int) -> int {
    if i < 0 || i >= s.len() {
        0
    } else {
        let b0 = s[i];
        if (0x09 <= b0 && b0 <= 0x0d) || b0 == 0x20 {
            1
        } else if b0 == 0xc2 && i + 1 < s.len() && (s[i + 1] == 0x85 || s[i + 1] == 0xa0) {
            2
        } else if i + 2 < s.len() && ((b0 == 0xe1 && s[i + 1] == 0x9a && s[i + 2] == 0x80) || (
        b0 == 0xe2 && s[i + 1] == 0x80 && ((0x80 <= s[i + 2] && s[i + 2] <= 0x8a) || s[i + 2]
            == 0xa8 || s[i + 2] == 0xa9 || s[i + 2] == 0xaf)) || (b0 == 0xe2 && s[i + 1] == 0x81
            && s[i + 2] == 0x9f) || (b0 == 0xe3 && s[i + 1] == 0x80 && s[i + 2] == 0x80)) {
            3
        } else {
            0
        }
    }
}

/// The length of the whitespace character at `i` (0 when there is none).
pub fn ws_len_at(s: &[u8], i: usize) -> (r: usize)
    ensures
        r == ws_len(s@, i as int),
        r <= 3,
        r > 0 ==> i + r <= s@.len(),
{
    let n = s.len();
    if i >= n {
        return 0;
    }
    let b0 = s[i];
    if (0x09 <= b0 && b0 <= 0x0d) || b0 == 0x20 {
        return 1;
    }
    if b0 == 0xc2 && n - i > 1 && (s[i + 1] == 0x85 || s[i + 1] == 0xa0) {
        return 2;
    }
    if n - i > 2 {
        let b1 = s[i + 1];
        let b2 = s[i + 2];
        if (b0 == 0xe1 && b1 == 0x9a && b2 == 0x80) || (b0 == 0xe2 && b1 == 0x80 && ((0x80 <= b2
            && b2 <= 0x8a) || b2 == 0xa8 || b2 == 0xa9 || b2 == 0xaf)) || (b0 == 0xe2 && b1
            == 0x81 && b2 == 0x9f) || (b0 == 0xe3 && b1 == 0x80 && b2 == 0x80) {
            return 3;
        }
    }
    0
}

/// The first position at or after `i` where no whitespace starts.
pub open spec fn skip_ws(s: Seq<u8>, i: int) -> int
    decreases s.len() - i,
{
    if i < 0 || i >= s.len() || ws_len(s, i) == 0 {
        i
    } else {
        skip_ws(s, i + ws_len(s, i))
    }
}

/// The first position at or after `i` where whitespace starts, or the end.
pub open spec fn token_end(s: Seq<u8>, i: int) -> int
    decreases s.len() - i,
{
    if i < 0 || i >= s.len() || ws_len(s, i) > 0 {
        i
    } else {
        token_end(s, i + 1)
    }
}

/// The bounds of the `n`-th whitespace-separated field at or after `i`
/// (counting from 0), as `split_whitespace().nth(n)` finds it.
pub open spec fn nth_field_from(s: Seq<u8>, i: int, n: nat) -> Option<(int, int)>
    decreases s.len() - i, n,
{
    let start = skip_ws(s, i);
    if i < 0 || i > s.len() || start >= s.len() {
        None
    } else if n == 0 {
        Some((start, token_end(s, start)))
    } else {
        proof {
            lemma_skip_ws_bounds(s, i);
            lemma_token_end_bounds(s, start);
        }
        nth_field_from(s, token_end(s, start), (n - 1) as nat)
    }
}

/// The `n`-th whitespace-separated field of `s`, if there is one.
pub open spec fn nth_field(s: Seq<u8>, n: nat) -> Option<Seq<u8>> {
    match nth_field_from(s, 0, n) {
        Some((a, b)) => Some(s.subrange(a, b)),
        None => None,
    }
}

pub proof fn lemma_skip_ws_bounds(s: Seq<u8>, i: int)
    requires
        0 <= i <= s.len(),
    ensures
        i <= skip_ws(s, i) <= s.len(),
        skip_ws(s, i) < s.len() ==> ws_len(s, skip_ws(s, i)) == 0,
    decreases s.len() - i,
{
    if i < s.len() && ws_len(s, i) > 0 {
        lemma_skip_ws_bounds(s, i + ws_len(s, i));
    }
}

pub proof fn lemma_token_end_bounds(s: Seq<u8>, i: int)
    requires
        0 <= i <= s.len(),
    ensures
        i <= token_end(s, i) <= s.len(),
        i < s.len() && ws_len(s, i) == 0 ==> i < token_end(s, i),
    decreases s.len() - i,
{
    if i < s.len() && ws_len(s, i) == 0 {
        lemma_token_end_bounds(s, i + 1);
    }
}

/// The field bounds lie inside the text and the field is not empty.
pub proof fn lemma_nth_field_bounds(s: Seq<u8>, i: int, n: nat)
    requires
        0 <= i <= s.len(),
    ensures
        nth_field_from(s, i, n) matches Some((a, b)) ==> i <= a < b <= s.len(),
    decreases s.len() - i, n,
{
    lemma_skip_ws_bounds(s, i);
    let start = skip_ws(s, i);
    if start < s.len() {
        lemma_token_end_bounds(s, start);
        if n > 0 {
            lemma_nth_field_bounds(s, token_end(s, start), (n - 1) as nat);
        }
    }
}

pub fn skip_ws_exec(s: &[u8], i: usize) -> (r: usize)
    requires
        i <= s@.len(),
    ensures
        r == skip_ws(s@, i as int),
        i <= r <= s@.len(),
{
    let mut j = i;
    proof {
        lemma_skip_ws_bounds(s@, i as int);
    }
    loop
        invariant
            i <= j <= s@.len(),
            skip_ws(s@, j as int) == skip_ws(s@, i as int),
        decreases s@.len() - j,
    {
        let w = ws_len_at(s, j);
        assert(s@.len() == s.len());
        if w == 0 {
            return j;
        }
        j = j + w;
    }
}

pub fn token_end_exec(s: &[u8], i: usize) -> (r: usize)
    requires
        i <= s@.len(),
    ensures
        r == token_end(s@, i as int),
        i <= r <= s@.len(),
{
    let mut j = i;
    loop
        invariant
            i <= j <= s@.len(),
            token_end(s@, j as int) == token_end(s@, i as int),
        decreases s@.len() - j,
    {
        if j >= s.len() || ws_len_at(s, j) > 0 {
            return j;
        }
        j = j + 1;
    }
}

/// The bounds of the `n`-th whitespace-separated field of `s`.
pub fn nth_field_bounds(s: &[u8], n: usize) -> (r: Option<(usize, usize)>)
    ensures
        match nth_field_from(s@, 0, n as nat) {
            Some((a, b)) => r matches Some((x, y)) && x == a && y == b,
            None => r is None,
        },
        r matches Some((a, b)) ==> a < b <= s@.len(),
{
    let mut i: usize = 0;
    let mut k: usize = n;
    loop
        invariant
            i <= s@.len(),
            k <= n,
            nth_field_from(s@, i as int, k as nat) == nth_field_from(s@, 0, n as nat),
        decreases s@.len() - i, k,
    {
        proof {
            lemma_nth_field_bounds(s@, i as int, k as nat);
        }
        let start = skip_ws_exec(s, i);
        if start >= s.len() {
            return None;
        }
        let end = token_end_exec(s, start);
        if k == 0 {
            return Some((start, end));
        }
        proof {
            lemma_skip_ws_bounds(s@, i as int);
            lemma_token_end_bounds(s@, start as int);
        }
        i = end;
        k = k - 1;
    }
}

/// Copy `s[a..b]` into a vector of its own.
pub fn copy_range(s: &[u8], a: usize, b: usize) -> (r: Vec<u8>)
    requires
        a <= b <= s@.len(),
    ensures
        r@ == s@.subrange(a as int, b as int),
{
    let mut r: Vec<u8> = Vec::with_capacity(b - a);
    let mut i = a;
    while i < b
        invariant
            a <= i <= b <= s@.len(),
            r@ == s@.subrange(a as int, i as int),
        decreases b - i,
    {
        r.push(s[i]);
        i += 1;
        assert(r@ =~= s@.subrange(a as int, i as int));
    }
    r
}

/// The `n`-th whitespace-separated field of `s`, copied out.
pub fn nth_field_exec(s: &[u8], n: usize) -> (r: Option<Vec<u8>>)
    ensures
        match nth_field(s@, n as nat) {
            Some(f) => r matches Some(v) && v@ == f,
            None => r is None,
        },
{
    match nth_field_bounds(s, n) {
        Some((a, b)) => Some(copy_range(s, a, b)),
        None => None,
    }
}

/// Do the two byte strings hold the same bytes?
pub fn bytes_eq(a: &[u8], b: &[u8]) -> (r: bool)
    ensures
        r == (a@ == b@),
{
    if a.len() != b.len() {
        return false;
    }
    let mut i: usize = 0;
    while i < a.len()
        invariant
            a@.len() == b@.len(),
            i <= a@.len(),
            a@.subrange(0, i as int) == b@.subrange(0, i as int),
        decreases a@.len() - i,
    {
        if a[i] != b[i] {
            assert(a@[i as int] != b@[i as int]);
            return false;
        }
        i += 1;
        assert(a@.subrange(0, i as int) =~= b@.subrange(0, i as int)) by {
            assert forall|k: int| 0 <= k < i implies a@.subrange(0, i as int)[k] == b@.subrange(0, i as int)[k] by {
                if k < i - 1 {
                    assert(a@.subrange(0, i - 1)[k] == b@.subrange(0, i - 1)[k]);
                }
            }
        }
    }
    assert(a@ =~= a@.subrange(0, a@.len() as int));
    assert(b@ =~= b@.subrange(0, b@.len() as int));
    true
}


/// The first `\n` at or after `i`, or the end.
pub open spec fn line_end(s: Seq<u8>, i: int) -> int
    decreases s.len() - i,
{
    if i < 0 || i >= s.len() || s[i] == NEWLINE {
        i
    } else {
        line_end(s, i + 1)
    }
}

pub proof fn lemma_line_end_bounds(s: Seq<u8>, i: int)
    requires
        0 <= i <= s.len(),
    ensures
        i <= line_end(s, i) <= s.len(),
    decreases s.len() - i,
{
    if i < s.len() && s[i] != NEWLINE {
        lemma_line_end_bounds(s, i + 1);
    }
}

/// The line that starts at `i`: up to the next `\n`, without it, and
/// without one `\r` before it.
pub open spec fn line_at(s: Seq<u8>, i: int) -> Seq<u8> {
    let e = line_end(s, i);
    let raw = s.subrange(i, e);
    if e < s.len() && raw.len() > 0 && raw.last() == CARRIAGE_RETURN {
        raw.drop_last()
    } else {
        raw
    }
}

/// The lines from position `i` on.
pub open spec fn lines_from(s: Seq<u8>, i: int) -> Seq<Seq<u8>>
    decreases s.len() - i,
{
    if i < 0 || i >= s.len() {
        Seq::empty()
    } else {
        proof {
            lemma_line_end_bounds(s, i);
        }
        if line_end(s, i) >= s.len() {
            seq![line_at(s, i)]
        } else {
            seq![line_at(s, i)] + lines_from(s, line_end(s, i) + 1)
        }
    }
}

/// The lines of `s`, as `str::lines` yields them: split at `\n`, one
/// `\r` before it dropped, no empty line after a final `\n`.
pub open spec fn lines(s: Seq<u8>) -> Seq<Seq<u8>> {
    lines_from(s, 0)
}

/// Where the line at `i` ends (its text ends at `.0`) and where the next
/// one starts (`.1`).
pub fn next_line(s: &[u8], i: usize) -> (r: (usize, usize))
    requires
        i < s@.len(),
    ensures
        i <= r.0 <= s@.len(),
        s@.subrange(i as int, r.0 as int) == line_at(s@, i as int),
        r.1 == if line_end(s@, i as int) < s@.len() {
            line_end(s@, i as int) + 1
        } else {
            s@.len() as int
        },
        i < r.1,
        lines_from(s@, i as int) == seq![line_at(s@, i as int)] + lines_from(s@, r.1 as int),
{
    let mut j = i;
    while j < s.len() && s[j] != NEWLINE
        invariant
            i <= j <= s@.len(),
            line_end(s@, j as int) == line_end(s@, i as int),
        decreases s@.len() - j,
    {
        j += 1;
    }
    let mut end = j;
    if j < s.len() && j > i && s[j - 1] == CARRIAGE_RETURN {
        end = j - 1;
    }
    assert(s@.subrange(i as int, end as int) =~= line_at(s@, i as int));
    if j < s.len() {
        (end, j + 1)
    } else {
        assert(lines_from(s@, i as int) =~= seq![line_at(s@, i as int)] + lines_from(s@, j as int));
        (end, j)
    }
}

/// The first place at or after `from` where `pat` occurs.
pub open spec fn find_from(s: Seq<u8>, pat: Seq<u8>, from: int) -> Option<int>
    decreases s.len() + 1 - from,
{
    if from < 0 || from + pat.len() > s.len() {
        None
    } else if s.subrange(from, from + pat.len()) == pat {
        Some(from)
    } else {
        find_from(s, pat, from + 1)
    }
}

pub proof fn lemma_find_from_bounds(s: Seq<u8>, pat: Seq<u8>, from: int)
    ensures
        find_from(s, pat, from) matches Some(p) ==> from <= p && p + pat.len() <= s.len()
            && s.subrange(p, p + pat.len()) == pat,
    decreases s.len() + 1 - from,
{
    if from >= 0 && from + pat.len() <= s.len() && s.subrange(from, from + pat.len()) != pat {
        lemma_find_from_bounds(s, pat, from + 1);
    }
}

fn matches_at(s: &[u8], pat: &[u8], at: usize) -> (r: bool)
    requires
        at + pat@.len() <= s@.len(),
    ensures
        r == (s@.subrange(at as int, at + pat@.len()) == pat@),
{
    let mut k: usize = 0;
    while k < pat.len()
        invariant
            at + pat@.len() <= s@.len(),
            k <= pat@.len(),
            forall|m: int| 0 <= m < k ==> #[trigger] s@[at + m] == pat@[m],
        decreases pat@.len() - k,
    {
        assert(s@.len() == s.len());
        if s[at + k] != pat[k] {
            assert(s@.subrange(at as int, at + pat@.len())[k as int] != pat@[k as int]);
            return false;
        }
        k += 1;
    }
    assert forall|m: int| 0 <= m < pat@.len() implies s@.subrange(at as int, at + pat@.len())[m]
        == pat@[m] by {
        assert(s@[at + m] == pat@[m]);
    }
    assert(s@.subrange(at as int, at + pat@.len()) =~= pat@);
    true
}

/// Where `pat` first occurs at or after `from`.
pub fn find(s: &[u8], pat: &[u8], from: usize) -> (r: Option<usize>)
    ensures
        match r {
            Some(p) => find_from(s@, pat@, from as int) == Some(p as int),
            None => find_from(s@, pat@, from as int) is None,
        },
        r matches Some(p) ==> from <= p && p + pat@.len() <= s@.len() && s@.subrange(
            p as int,
            p + pat@.len(),
        ) == pat@,
{
    proof {
        lemma_find_from_bounds(s@, pat@, from as int);
    }
    if pat.len() > s.len() {
        return None;
    }
    if pat.len() == 0 {
        if from <= s.len() {
            assert(s@.subrange(from as int, from as int) =~= pat@);
            return Some(from);
        }
        return None;
    }
    let last = s.len() - pat.len();
    let mut i = from;
    while i <= last
        invariant
            last + pat@.len() == s@.len(),
            pat@.len() >= 1,
            s@.len() == s.len(),
            from <= i,
            find_from(s@, pat@, i as int) == find_from(s@, pat@, from as int),
        decreases last + 1 - i,
    {
        if matches_at(s, pat, i) {
            return Some(i);
        }
        i += 1;
    }
    None
}

/// One step of a walk over the lines: the line at `pos` is line `k`.
pub proof fn lemma_lines_step(s: Seq<u8>, pos: int, k: int, next: int)
    requires
        0 <= k <= lines(s).len(),
        lines_from(s, pos) == lines(s).skip(k),
        lines_from(s, pos) == seq![line_at(s, pos)] + lines_from(s, next),
    ensures
        k < lines(s).len(),
        lines(s)[k] == line_at(s, pos),
        lines_from(s, next) == lines(s).skip(k + 1),
{
    assert(lines(s).skip(k).len() > 0);
    assert(lines(s).skip(k)[0] == lines(s)[k]);
    assert(lines(s).skip(k + 1) =~= lines(s).skip(k).skip(1));
    assert(lines_from(s, next) =~= (seq![line_at(s, pos)] + lines_from(s, next)).skip(1));
}

} // verus!
