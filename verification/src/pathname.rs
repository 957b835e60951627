//! Unix paths as bytes, compared the way `std::path::Path` compares them:
//! by components. Repeated separators and `.` in the middle vanish, a
//! trailing separator does not count, and `/etc-backup` is not inside
//! `/etc`.

use vstd::prelude::*;
use crate::text::bytes_eq;
use crate::text::copy_range;

verus! {

/// `/`
pub const SLASH: u8 = 0x2f;
/// `.`
pub const DOT: u8 = 0x2e;

/// The first separator at or after `i`, or the end of the path.
pub open spec fn piece_end(p: Seq<u8>, i: int) -> int
    decreases p.len() - i,
{
    if i < 0 || i >= p.len() || p[i] == SLASH {
        i
    } else {
        piece_end(p, i + 1)
    }
}

pub proof fn lemma_piece_end_bounds(p: Seq<u8>, i: int)
    requires
        0 <= i <= p.len(),
    ensures
        i <= piece_end(p, i) <= p.len(),
        piece_end(p, i) < p.len() ==> p[piece_end(p, i)] == SLASH,
        forall|k: int| i <= k < piece_end(p, i) ==> p[k] != SLASH,
    decreases p.len() - i,
{
    if i < p.len() && p[i] != SLASH {
        lemma_piece_end_bounds(p, i + 1);
    }
}

/// A piece between separators is a component unless it is empty or a
/// `.` that does not start a relative path.
pub open spec fn keep_piece(piece: Seq<u8>, first_relative: bool) -> bool {
    piece.len() > 0 && (piece != seq![DOT] || first_relative)
}

/// The components of `p` from the piece that starts at `i`.
pub open spec fn comps_from(p: Seq<u8>, i: int, first_relative: bool) -> Seq<Seq<u8>>
    decreases p.len() - i,
{
    if i < 0 || i > p.len() {
        Seq::empty()
    } else {
        let e = piece_end(p, i);
        let piece = p.subrange(i, e);
        let rest = if e < p.len() {
            proof {
                lemma_piece_end_bounds(p, i);
            }
            comps_from(p, e + 1, false)
        } else {
            Seq::empty()
        };
        if keep_piece(piece, first_relative) {
            seq![piece] + rest
        } else {
            rest
        }
    }
}

/// The components of a path: `/` for the root, `.` for a leading current
/// directory, then the names (`..` among them) in order.
pub open spec fn components(p: Seq<u8>) -> Seq<Seq<u8>> {
    if p.len() > 0 && p[0] == SLASH {
        seq![seq![SLASH]] + comps_from(p, 1, false)
    } else {
        comps_from(p, 0, true)
    }
}

/// The byte strings held by a sequence of vectors.
pub open spec fn vec_views(v: Seq<Vec<u8>>) -> Seq<Seq<u8>> {
    v.map_values(|x: Vec<u8>| x@)
}

/// Two paths are equal when their components are.
pub open spec fn spec_path_eq(a: Seq<u8>, b: Seq<u8>) -> bool {
    components(a) == components(b)
}

/// `p` starts with `base` when the components of `base` begin those of `p`.
pub open spec fn spec_path_starts_with(p: Seq<u8>, base: Seq<u8>) -> bool {
    let cp = components(p);
    let cb = components(base);
    cb.len() <= cp.len() && cp.take(cb.len() as int) == cb
}

/// A component that names a file or directory (not the root, `.` or `..`).
pub open spec fn is_normal(c: Seq<u8>) -> bool {
    c != seq![SLASH] && c != seq![DOT] && c != seq![DOT, DOT]
}

/// The last component, when it is a name.
pub open spec fn spec_file_name(p: Seq<u8>) -> Option<Seq<u8>> {
    let c = components(p);
    if c.len() > 0 && is_normal(c.last()) {
        Some(c.last())
    } else {
        None
    }
}

/// A path that starts at the root.
pub open spec fn spec_is_absolute(p: Seq<u8>) -> bool {
    p.len() > 0 && p[0] == SLASH
}

fn piece_end_exec(p: &[u8], i: usize) -> (r: usize)
    requires
        i <= p@.len(),
    ensures
        r == piece_end(p@, i as int),
{
    let mut j = i;
    while j < p.len() && p[j] != SLASH
        invariant
            i <= j <= p@.len(),
            piece_end(p@, j as int) == piece_end(p@, i as int),
        decreases p@.len() - j,
    {
        j += 1;
    }
    j
}

fn is_single_dot(p: &[u8], a: usize, b: usize) -> (r: bool)
    requires
        a <= b <= p@.len(),
    ensures
        r == (p@.subrange(a as int, b as int) == seq![DOT]),
{
    let r = b - a == 1 && p[a] == DOT;
    proof {
        let sub = p@.subrange(a as int, b as int);
        if b - a == 1 {
            assert(sub[0] == p@[a as int]);
            if p@[a as int] == DOT {
                assert(sub =~= seq![DOT]);
            } else {
                assert(seq![DOT][0] == DOT);
            }
        } else {
            assert(seq![DOT].len() == 1);
        }
    }
    r
}

/// The components of `p`.
pub fn components_exec(p: &[u8]) -> (r: Vec<Vec<u8>>)
    ensures
        vec_views(r@) == components(p@),
{
    let mut r: Vec<Vec<u8>> = Vec::new();
    let n = p.len();
    let mut i: usize;
    let mut first: bool;
    if n > 0 && p[0] == SLASH {
        let mut root: Vec<u8> = Vec::new();
        root.push(SLASH);
        r.push(root);
        i = 1;
        first = false;
        assert(vec_views(r@) =~= seq![seq![SLASH]]);
    } else {
        i = 0;
        first = true;
        assert(vec_views(r@) =~= Seq::<Seq<u8>>::empty());
    }
    loop
        invariant
            n == p@.len(),
            i <= n,
            components(p@) == vec_views(r@) + comps_from(p@, i as int, first),
        decreases n - i,
    {
        let e = piece_end_exec(p, i);
        proof {
            lemma_piece_end_bounds(p@, i as int);
        }
        let keep = e > i && (!is_single_dot(p, i, e) || first);
        let ghost before = vec_views(r@);
        if keep {
            let piece = copy_range(p, i, e);
            r.push(piece);
            assert(vec_views(r@) =~= before.push(p@.subrange(i as int, e as int)));
        }
        if e >= n {
            assert(comps_from(p@, e as int, false) =~= Seq::<Seq<u8>>::empty()) by {
                lemma_piece_end_bounds(p@, e as int);
            }
            assert(components(p@) =~= vec_views(r@));
            return r;
        }
        assert(components(p@) =~= vec_views(r@) + comps_from(p@, e + 1, false));
        i = e + 1;
        first = false;
    }
}

fn comps_eq(a: &Vec<Vec<u8>>, b: &Vec<Vec<u8>>, n: usize) -> (r: bool)
    requires
        n <= a@.len(),
        n <= b@.len(),
    ensures
        r == (vec_views(a@).take(n as int) == vec_views(b@).take(n as int)),
{
    let mut i: usize = 0;
    while i < n
        invariant
            n <= a@.len(),
            n <= b@.len(),
            i <= n,
            forall|k: int| 0 <= k < i ==> #[trigger] vec_views(a@)[k] == vec_views(b@)[k],
        decreases n - i,
    {
        if !bytes_eq(a[i].as_slice(), b[i].as_slice()) {
            assert(vec_views(a@).take(n as int)[i as int] != vec_views(b@).take(n as int)[i as int]);
            return false;
        }
        i += 1;
    }
    assert(vec_views(a@).take(n as int) =~= vec_views(b@).take(n as int));
    true
}

/// Are the two paths the same path (component by component)?
pub fn path_eq(a: &[u8], b: &[u8]) -> (r: bool)
    ensures
        r == spec_path_eq(a@, b@),
{
    let ca = components_exec(a);
    let cb = components_exec(b);
    if ca.len() != cb.len() {
        assert(vec_views(ca@).len() != vec_views(cb@).len());
        return false;
    }
    let r = comps_eq(&ca, &cb, ca.len());
    assert(vec_views(ca@).take(ca@.len() as int) =~= vec_views(ca@));
    assert(vec_views(cb@).take(cb@.len() as int) =~= vec_views(cb@));
    r
}

/// Does `p` start with the components of `base`?
pub fn path_starts_with(p: &[u8], base: &[u8]) -> (r: bool)
    ensures
        r == spec_path_starts_with(p@, base@),
{
    let cp = components_exec(p);
    let cb = components_exec(base);
    if cb.len() > cp.len() {
        return false;
    }
    let r = comps_eq(&cp, &cb, cb.len());
    assert(vec_views(cb@).take(cb@.len() as int) =~= vec_views(cb@));
    r
}

/// The last component of `p`, when it names something.
pub fn file_name(p: &[u8]) -> (r: Option<Vec<u8>>)
    ensures
        match spec_file_name(p@) {
            Some(f) => r matches Some(v) && v@ == f,
            None => r is None,
        },
{
    let mut c = components_exec(p);
    let ghost all = vec_views(c@);
    match c.pop() {
        None => None,
        Some(last) => {
            assert(last@ == all.last());
            let n = last.len();
            let is_root = n == 1 && last[0] == SLASH;
            let is_dot = n == 1 && last[0] == DOT;
            let is_dotdot = n == 2 && last[0] == DOT && last[1] == DOT;
            if n == 1 {
                assert(last@ =~= seq![last@[0]]);
            }
            if n == 2 {
                assert(last@ =~= seq![last@[0], last@[1]]);
            }
            if is_root || is_dot || is_dotdot {
                None
            } else {
                Some(last)
            }
        }
    }
}

/// Does `p` start at the root?
pub fn is_absolute(p: &[u8]) -> (r: bool)
    ensures
        r == spec_is_absolute(p@),
{
    p.len() > 0 && p[0] == SLASH
}

} // verus!
