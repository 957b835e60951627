//! Fields of a `/proc/self/mountinfo` line:
//! `id parent maj:min root mountpoint opts ... - fstype source super_opts`.

use vstd::prelude::*;
use crate::text::{copy_range, find, find_from, nth_field, nth_field_exec};

verus! {

/// The separator between the optional fields and the filesystem type.
pub open spec fn dash() -> Seq<u8> {
    seq![0x20u8, 0x2du8, 0x20u8]
}

/// The text between the first ` - ` and the next one (or the end), as
/// `line.split(" - ").nth(1)` gives it.
pub open spec fn spec_after_dash(line: Seq<u8>) -> Option<Seq<u8>> {
    match find_from(line, dash(), 0) {
        None => None,
        Some(p) => {
            let start = p + 3;
            let end = match find_from(line, dash(), start) {
                Some(q) => q,
                None => line.len() as int,
            };
            Some(line.subrange(start, end))
        },
    }
}

/// The text after the first ` - `, up to the next one.
pub fn after_dash(line: &[u8]) -> (r: Option<Vec<u8>>)
    ensures
        match spec_after_dash(line@) {
            Some(t) => r matches Some(v) && v@ == t,
            None => r is None,
        },
{
    let pat = vec![0x20u8, 0x2du8, 0x20u8];
    assert(pat@ =~= dash());
    match find(line, pat.as_slice(), 0) {
        None => None,
        Some(p) => {
            assert(line@.len() == line.len());
            let start = p + 3;
            let end = match find(line, pat.as_slice(), start) {
                Some(q) => q,
                None => line.len(),
            };
            Some(copy_range(line, start, end))
        },
    }
}

/// The mount source: the second field after the dash (the first is the
/// filesystem type).
pub open spec fn spec_mount_source(line: Seq<u8>) -> Option<Seq<u8>> {
    match spec_after_dash(line) {
        Some(t) => nth_field(t, 1),
        None => None,
    }
}

/// The mount source field of a line, still escaped.
pub fn mount_source(line: &[u8]) -> (r: Option<Vec<u8>>)
    ensures
        match spec_mount_source(line@) {
            Some(t) => r matches Some(v) && v@ == t,
            None => r is None,
        },
{
    match after_dash(line) {
        Some(t) => nth_field_exec(t.as_slice(), 1),
        None => None,
    }
}

/// The mount point: the fifth field of the line.
pub open spec fn spec_mount_point(line: Seq<u8>) -> Option<Seq<u8>> {
    nth_field(line, 4)
}

/// The mount point field of a line, still escaped.
pub fn mount_point(line: &[u8]) -> (r: Option<Vec<u8>>)
    ensures
        match spec_mount_point(line@) {
            Some(t) => r matches Some(v) && v@ == t,
            None => r is None,
        },
{
    nth_field_exec(line, 4)
}

} // verus!
