//! Pull-out registry for graceful interrupts.
//!
//! Every wipe target and every free-space temp file checks in here before
//! it is opened, and checks out when it has been dealt with. If the user
//! hits Ctrl-C, the handler drains the registry and unlinks every entry.
//! The program keeps one registry behind a lock.

use vstd::prelude::*;
use crate::pathname::{path_eq, spec_path_eq, vec_views};

verus! {

/// The paths that are being wiped right now.
pub struct Registry {
    paths: Vec<Vec<u8>>,
}

/// The first entry at or after `i` that is the same path as `p`.
pub open spec fn position_from(entries: Seq<Seq<u8>>, p: Seq<u8>, i: int) -> Option<int>
    decreases entries.len() - i,
{
    if i < 0 || i >= entries.len() {
        None
    } else if spec_path_eq(entries[i], p) {
        Some(i)
    } else {
        position_from(entries, p, i + 1)
    }
}

pub proof fn lemma_position_from(entries: Seq<Seq<u8>>, p: Seq<u8>, i: int)
    requires
        0 <= i,
    ensures
        position_from(entries, p, i) matches Some(k) ==> i <= k < entries.len() && spec_path_eq(
            entries[k],
            p,
        ),
        position_from(entries, p, i) is None ==> forall|k: int|
            i <= k < entries.len() ==> !spec_path_eq(#[trigger] entries[k], p),
    decreases entries.len() - i,
{
    if i < entries.len() && !spec_path_eq(entries[i], p) {
        lemma_position_from(entries, p, i + 1);
    }
}

/// The entries after taking out the first one that is the same path as
/// `p`: the last entry moves into its slot.
pub open spec fn removed(entries: Seq<Seq<u8>>, p: Seq<u8>) -> Seq<Seq<u8>> {
    match position_from(entries, p, 0) {
        Some(k) => entries.update(k, entries.last()).drop_last(),
        None => entries,
    }
}

impl Registry {
    /// The registered paths, in slot order.
    pub closed spec fn entries(&self) -> Seq<Seq<u8>> {
        vec_views(self.paths@)
    }

    /// An empty registry.
    pub fn new() -> (r: Self)
        ensures
            r.entries() == Seq::<Seq<u8>>::empty(),
    {
        let r = Registry { paths: Vec::new() };
        assert(r.entries() =~= Seq::<Seq<u8>>::empty());
        r
    }

    /// Empty the registry and hand over everything it held.
    pub fn take_all(&mut self) -> (r: Vec<Vec<u8>>)
        ensures
            vec_views(r@) == old(self).entries(),
            final(self).entries() == Seq::<Seq<u8>>::empty(),
    {
        let mut r: Vec<Vec<u8>> = Vec::new();
        std::mem::swap(&mut r, &mut self.paths);
        assert(self.entries() =~= Seq::<Seq<u8>>::empty());
        r
    }
}

/// Check a path in before it is opened.
pub fn register(registry: &mut Registry, path: &[u8])
    ensures
        final(registry).entries() == old(registry).entries().push(path@),
{
    let mut v: Vec<u8> = Vec::with_capacity(path.len());
    let mut i: usize = 0;
    while i < path.len()
        invariant
            i <= path@.len(),
            v@ == path@.take(i as int),
        decreases path@.len() - i,
    {
        v.push(path[i]);
        i += 1;
        assert(v@ =~= path@.take(i as int));
    }
    assert(v@ =~= path@);
    let ghost before = registry.entries();
    registry.paths.push(v);
    assert(registry.entries() =~= before.push(path@));
}

/// Check a path out: the first entry that is the same path goes (the last
/// entry takes its slot); a path that is not registered changes nothing.
pub fn unregister(registry: &mut Registry, path: &[u8])
    ensures
        final(registry).entries() == removed(old(registry).entries(), path@),
{
    let ghost entries = registry.entries();
    let n = registry.paths.len();
    let mut i: usize = 0;
    while i < n
        invariant
            n == registry.paths@.len(),
            entries == registry.entries(),
            entries == old(registry).entries(),
            i <= n,
            position_from(entries, path@, i as int) == position_from(entries, path@, 0),
        decreases n - i,
    {
        if path_eq(registry.paths[i].as_slice(), path) {
            assert(position_from(entries, path@, 0) == Some(i as int));
            registry.paths.swap_remove(i);
            assert(registry.entries() =~= removed(entries, path@));
            return;
        }
        i += 1;
    }
}

/// Law: checking in a path that is not registered and checking it out
/// again leaves the registry as it was.
pub proof fn lemma_register_unregister(entries: Seq<Seq<u8>>, p: Seq<u8>)
    requires
        forall|k: int| 0 <= k < entries.len() ==> !spec_path_eq(#[trigger] entries[k], p),
    ensures
        removed(entries.push(p), p) == entries,
{
    let pushed = entries.push(p);
    lemma_position_from(pushed, p, 0);
    match position_from(pushed, p, 0) {
        Some(k) => {
            if k < entries.len() {
                assert(pushed[k] == entries[k]);
            }
            assert(k == entries.len());
            assert(pushed.update(k, pushed.last()).drop_last() =~= entries);
        },
        None => {
            assert(pushed[entries.len() as int] == p);
        },
    }
}

/// Law: checking a path in and then out again leaves every registry as it
/// was, up to path equality: the same number of entries, slot by slot the
/// same paths. (When the path was already registered under another
/// spelling, that earlier entry goes and the new spelling takes its slot.)
pub proof fn lemma_register_unregister_any(entries: Seq<Seq<u8>>, p: Seq<u8>)
    ensures
        removed(entries.push(p), p).len() == entries.len(),
        forall|k: int|
            0 <= k < entries.len() ==> spec_path_eq(
                #[trigger] removed(entries.push(p), p)[k],
                entries[k],
            ),
{
    let pushed = entries.push(p);
    lemma_position_from(pushed, p, 0);
    match position_from(pushed, p, 0) {
        Some(k) => {
            if k < entries.len() {
                assert(pushed[k] == entries[k]);
                assert(pushed.update(k, pushed.last()).drop_last() =~= entries.update(k, p));
            } else {
                assert(pushed.update(k, pushed.last()).drop_last() =~= entries);
            }
        },
        None => {
            assert(pushed[entries.len() as int] == p);
        },
    }
}

/// Law: checking out a path that is not registered changes nothing.
pub proof fn lemma_unregister_absent(entries: Seq<Seq<u8>>, p: Seq<u8>)
    requires
        forall|k: int| 0 <= k < entries.len() ==> !spec_path_eq(#[trigger] entries[k], p),
    ensures
        removed(entries, p) == entries,
{
    lemma_position_from(entries, p, 0);
}

} // verus!
