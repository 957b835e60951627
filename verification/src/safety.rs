//! Cock-block department. Stops you from wiping `/etc` when your hand
//! slipped, `/boot` when you meant `/tmp`, the swap file your kernel is
//! using, or a block device that is mounted somewhere.
//!
//! The program reads `/proc/swaps` and `/proc/self/mountinfo` and resolves
//! paths; the decisions on what it read are made here.

use vstd::prelude::*;
use crate::pathname::{
    components, path_eq, path_starts_with, spec_path_eq, spec_path_starts_with, vec_views, SLASH,
};
use crate::lines::{line1, line3, push_line, string_views};
use crate::mountinfo::{mount_source, spec_mount_source};
use crate::text::{opt_view, lemma_lines_step, lines, lines_from, next_line, nth_field, nth_field_exec};

verus! {

/// What makes a target too hot to touch.
#[derive(Debug, Clone, Copy, PartialEq, Eq, Structural)]
pub enum Hazard {
    /// Path is, or is inside, a system directory we shouldn't touch.
    SystemPath,
    /// Path is currently registered as a swap file/device.
    SwapFile,
    /// Path is a block device that's currently mounted somewhere.
    MountedDevice,
}

impl Hazard {
    /// The lines that explain a refusal of `path` (`path` as displayed,
    /// `path_debug` as debug-printed): the target, the reason, and what
    /// to do about it.
    pub fn explain(&self, path: &str, path_debug: &str) -> (r: Vec<String>)
        ensures
            string_views(r@) == spec_explain(*self, path@, path_debug@),
    {
        let mut r: Vec<String> = Vec::new();
        push_line(&mut r, line1(""));
        push_line(&mut r, line3("8==X  Refusing to wipe ", path_debug, ""));
        let reason = self.reason();
        push_line(&mut r, line3("      Reason: ", reason.as_str(), ""));
        push_line(&mut r, line1(""));
        match self {
            Hazard::SystemPath => {
                push_line(
                    &mut r,
                    line1("      Wiping OS files breaks your machine. If you really mean to,"),
                );
                push_line(&mut r, line1("      pass --rape."));
            },
            Hazard::SwapFile => {
                push_line(&mut r, line3("      Disable swap first:  sudo swapoff ", path, ""));
                push_line(&mut r, line1("      Then re-run, or pass --rape to wipe anyway."));
            },
            Hazard::MountedDevice => {
                push_line(&mut r, line3("      Unmount first:  sudo umount ", path, ""));
                push_line(&mut r, line1("      Then re-run, or pass --rape to wipe anyway."));
            },
        }
        push_line(&mut r, line1(""));
        assert(string_views(r@) =~= spec_explain(*self, path@, path_debug@));
        r
    }

    /// The user-facing reason.
    pub fn reason(&self) -> (r: String)
        ensures
            r@ == spec_reason(*self),
    {
        match self {
            Hazard::SystemPath => "system path (refusing to wipe OS files)".to_owned(),
            Hazard::SwapFile => "active swap (listed in /proc/swaps)".to_owned(),
            Hazard::MountedDevice => "block device currently mounted".to_owned(),
        }
    }
}

/// The reason of a hazard, as text.
pub open spec fn spec_reason(h: Hazard) -> Seq<char> {
    match h {
        Hazard::SystemPath => "system path (refusing to wipe OS files)"@,
        Hazard::SwapFile => "active swap (listed in /proc/swaps)"@,
        Hazard::MountedDevice => "block device currently mounted"@,
    }
}

/// What the user can do about a hazard on `path`.
pub open spec fn spec_advice(h: Hazard, path: Seq<char>) -> Seq<Seq<char>> {
    match h {
        Hazard::SystemPath => seq![
            "      Wiping OS files breaks your machine. If you really mean to,"@,
            "      pass --rape."@,
        ],
        Hazard::SwapFile => seq![
            "      Disable swap first:  sudo swapoff "@ + path + ""@,
            "      Then re-run, or pass --rape to wipe anyway."@,
        ],
        Hazard::MountedDevice => seq![
            "      Unmount first:  sudo umount "@ + path + ""@,
            "      Then re-run, or pass --rape to wipe anyway."@,
        ],
    }
}

/// The whole explanation of a refused target.
pub open spec fn spec_explain(h: Hazard, path: Seq<char>, path_debug: Seq<char>) -> Seq<Seq<char>> {
    seq![
        ""@,
        "8==X  Refusing to wipe "@ + path_debug + ""@,
        "      Reason: "@ + spec_reason(h) + ""@,
        ""@,
    ] + spec_advice(h, path) + seq![""@]
}

/// The directories refused by default: `/boot`, `/etc`, `/usr`, `/var`,
/// `/lib`, `/lib64`, `/lib32`, `/bin`, `/sbin`, `/sys`, `/proc`, `/dev`,
/// `/root`, `/srv`, `/opt`. The working directory and `/home` are
/// deliberately not on the list.
pub open spec fn system_prefixes() -> Seq<Seq<u8>> {
    seq![
        seq![SLASH, 0x62, 0x6f, 0x6f, 0x74],
        seq![SLASH, 0x65, 0x74, 0x63],
        seq![SLASH, 0x75, 0x73, 0x72],
        seq![SLASH, 0x76, 0x61, 0x72],
        seq![SLASH, 0x6c, 0x69, 0x62],
        seq![SLASH, 0x6c, 0x69, 0x62, 0x36, 0x34],
        seq![SLASH, 0x6c, 0x69, 0x62, 0x33, 0x32],
        seq![SLASH, 0x62, 0x69, 0x6e],
        seq![SLASH, 0x73, 0x62, 0x69, 0x6e],
        seq![SLASH, 0x73, 0x79, 0x73],
        seq![SLASH, 0x70, 0x72, 0x6f, 0x63],
        seq![SLASH, 0x64, 0x65, 0x76],
        seq![SLASH, 0x72, 0x6f, 0x6f, 0x74],
        seq![SLASH, 0x73, 0x72, 0x76],
        seq![SLASH, 0x6f, 0x70, 0x74],
    ]
}

fn system_prefix_list() -> (r: Vec<Vec<u8>>)
    ensures
        vec_views(r@) == system_prefixes(),
{
    let r = vec![
        vec![SLASH, 0x62, 0x6f, 0x6f, 0x74],
        vec![SLASH, 0x65, 0x74, 0x63],
        vec![SLASH, 0x75, 0x73, 0x72],
        vec![SLASH, 0x76, 0x61, 0x72],
        vec![SLASH, 0x6c, 0x69, 0x62],
        vec![SLASH, 0x6c, 0x69, 0x62, 0x36, 0x34],
        vec![SLASH, 0x6c, 0x69, 0x62, 0x33, 0x32],
        vec![SLASH, 0x62, 0x69, 0x6e],
        vec![SLASH, 0x73, 0x62, 0x69, 0x6e],
        vec![SLASH, 0x73, 0x79, 0x73],
        vec![SLASH, 0x70, 0x72, 0x6f, 0x63],
        vec![SLASH, 0x64, 0x65, 0x76],
        vec![SLASH, 0x72, 0x6f, 0x6f, 0x74],
        vec![SLASH, 0x73, 0x72, 0x76],
        vec![SLASH, 0x6f, 0x70, 0x74],
    ];
    assert(vec_views(r@) =~= system_prefixes());
    r
}

/// The (resolved) path is the root or lies in a system directory.
pub open spec fn spec_is_dangerous(canonical: Seq<u8>) -> bool {
    ||| spec_path_eq(canonical, seq![SLASH])
    ||| exists|i: int|
        0 <= i < system_prefixes().len() && (spec_path_eq(canonical, system_prefixes()[i])
            || spec_path_starts_with(canonical, #[trigger] system_prefixes()[i]))
}

/// Is the (resolved) path the root, or at or under a system directory?
/// Compared by components: `/home/etc-backup` is not `/etc`.
pub fn is_dangerous_prefix(canonical: &[u8]) -> (r: bool)
    ensures
        r == spec_is_dangerous(canonical@),
{
    let root = vec![SLASH];
    assert(root@ =~= seq![SLASH]);
    if path_eq(canonical, root.as_slice()) {
        return true;
    }
    let prefixes = system_prefix_list();
    let mut i: usize = 0;
    while i < prefixes.len()
        invariant
            i <= prefixes@.len(),
            vec_views(prefixes@) == system_prefixes(),
            forall|k: int|
                0 <= k < i ==> !(spec_path_eq(canonical@, system_prefixes()[k])
                    || spec_path_starts_with(canonical@, #[trigger] system_prefixes()[k])),
        decreases prefixes@.len() - i,
    {
        let p = prefixes[i].as_slice();
        assert(p@ == system_prefixes()[i as int]);
        if path_eq(canonical, p) || path_starts_with(canonical, p) {
            return true;
        }
        i += 1;
    }
    false
}

proof fn lemma_starts_with_trans(a: Seq<u8>, b: Seq<u8>, c: Seq<u8>)
    requires
        spec_path_starts_with(a, b),
        spec_path_starts_with(b, c),
    ensures
        spec_path_starts_with(a, c),
{
    let ca = components(a);
    let cb = components(b);
    let cc = components(c);
    assert(ca.take(cc.len() as int) =~= cb.take(cc.len() as int));
}

/// Law: everything under a refused system directory is refused too, and
/// the verdict depends on a path's components only.
pub proof fn lemma_danger_is_inherited(dir: Seq<u8>, path: Seq<u8>)
    requires
        spec_is_dangerous(dir),
        !spec_path_eq(dir, seq![SLASH]),
        spec_path_starts_with(path, dir),
    ensures
        spec_is_dangerous(path),
{
    let i = choose|i: int|
        0 <= i < system_prefixes().len() && (spec_path_eq(dir, system_prefixes()[i])
            || spec_path_starts_with(dir, #[trigger] system_prefixes()[i]));
    if spec_path_eq(dir, system_prefixes()[i]) {
        assert(components(path).take(components(dir).len() as int) == components(dir));
    } else {
        lemma_starts_with_trans(path, dir, system_prefixes()[i]);
    }
    assert(spec_path_starts_with(path, system_prefixes()[i]));
}

/// Law: two spellings of the same path get the same verdict.
pub proof fn lemma_danger_by_components(a: Seq<u8>, b: Seq<u8>)
    requires
        spec_path_eq(a, b),
    ensures
        spec_is_dangerous(a) == spec_is_dangerous(b),
{
}

/// `/proc/swaps` lists the path: after the header line, some line's first
/// field is the same path.
pub open spec fn spec_swap_listed(swaps: Seq<u8>, canonical: Seq<u8>) -> bool {
    exists|k: int|
        1 <= k < lines(swaps).len() && (nth_field(#[trigger] lines(swaps)[k], 0) matches Some(
            f,
        ) && spec_path_eq(f, canonical))
}

/// Is the path listed as active swap in this `/proc/swaps` text?
pub fn is_swap(swaps: &[u8], canonical: &[u8]) -> (r: bool)
    ensures
        r == spec_swap_listed(swaps@, canonical@),
{
    let mut pos: usize = 0;
    let mut header = true;
    let ghost mut k: int = 0;
    assert(lines(swaps@).skip(0) =~= lines(swaps@));
    while pos < swaps.len()
        invariant
            pos <= swaps@.len(),
            0 <= k <= lines(swaps@).len(),
            header == (k == 0),
            lines_from(swaps@, pos as int) == lines(swaps@).skip(k),
            forall|j: int|
                1 <= j < k ==> !(nth_field(#[trigger] lines(swaps@)[j], 0) matches Some(f)
                    && spec_path_eq(f, canonical@)),
        decreases swaps@.len() - pos,
    {
        let (end, next) = next_line(swaps, pos);
        proof {
            lemma_lines_step(swaps@, pos as int, k, next as int);
        }
        if !header {
            let line = &swaps[pos..end];
            assert(line@ == lines(swaps@)[k]);
            match nth_field_exec(line, 0) {
                Some(f) => {
                    if path_eq(f.as_slice(), canonical) {
                        return true;
                    }
                },
                None => {},
            }
        }
        pos = next;
        header = false;
        proof {
            k = k + 1;
        }
    }
    assert(lines(swaps@).skip(k).len() == 0);
    false
}


/// The mount sources named by mountinfo lines, in order (lines without a
/// source are passed over).
pub open spec fn sources_of(ls: Seq<Seq<u8>>) -> Seq<Seq<u8>>
    decreases ls.len(),
{
    if ls.len() == 0 {
        Seq::empty()
    } else {
        let init = sources_of(ls.drop_last());
        match spec_mount_source(ls.last()) {
            Some(src) => init.push(src),
            None => init,
        }
    }
}

/// The mount sources of a `/proc/self/mountinfo` text.
pub open spec fn spec_mount_sources(mountinfo: Seq<u8>) -> Seq<Seq<u8>> {
    sources_of(lines(mountinfo))
}

/// The mount source of every line of `mountinfo`, in order, as written
/// (escapes and all).
pub fn mount_sources(mountinfo: &[u8]) -> (r: Vec<Vec<u8>>)
    ensures
        vec_views(r@) == spec_mount_sources(mountinfo@),
{
    let mut r: Vec<Vec<u8>> = Vec::new();
    let mut pos: usize = 0;
    let ghost mut k: int = 0;
    assert(lines(mountinfo@).skip(0) =~= lines(mountinfo@));
    assert(vec_views(r@) =~= sources_of(lines(mountinfo@).take(0)));
    while pos < mountinfo.len()
        invariant
            pos <= mountinfo@.len(),
            0 <= k <= lines(mountinfo@).len(),
            lines_from(mountinfo@, pos as int) == lines(mountinfo@).skip(k),
            vec_views(r@) == sources_of(lines(mountinfo@).take(k)),
        decreases mountinfo@.len() - pos,
    {
        let (end, next) = next_line(mountinfo, pos);
        proof {
            lemma_lines_step(mountinfo@, pos as int, k, next as int);
            assert(lines(mountinfo@).take(k + 1).drop_last() =~= lines(mountinfo@).take(k));
            assert(lines(mountinfo@).take(k + 1).last() == lines(mountinfo@)[k]);
        }
        let line = &mountinfo[pos..end];
        let ghost before = vec_views(r@);
        match mount_source(line) {
            Some(src) => {
                r.push(src);
                assert(vec_views(r@) =~= before.push(spec_mount_source(line@).unwrap()));
            },
            None => {},
        }
        pos = next;
        proof {
            k = k + 1;
        }
    }
    assert(lines(mountinfo@).take(k) =~= lines(mountinfo@));
    r
}

/// A mount source as written in mountinfo, and where it resolves to on
/// disk, when it resolves.
pub struct MountSource {
    pub source: Vec<u8>,
    pub resolved: Option<Vec<u8>>,
}

/// The mount source is the device, as written or once resolved.
pub open spec fn source_is(m: MountSource, canonical: Seq<u8>) -> bool {
    spec_path_eq(m.source@, canonical) || (m.resolved matches Some(r) && spec_path_eq(
        r@,
        canonical,
    ))
}

/// Some mount is of this device.
pub open spec fn spec_mounted(canonical: Seq<u8>, mounts: Seq<MountSource>) -> bool {
    exists|i: int| 0 <= i < mounts.len() && source_is(#[trigger] mounts[i], canonical)
}

/// Is the (resolved) device the source of one of the mounts?
pub fn is_mounted_block_device(canonical: &[u8], mounts: &Vec<MountSource>) -> (r: bool)
    ensures
        r == spec_mounted(canonical@, mounts@),
{
    let mut i: usize = 0;
    while i < mounts.len()
        invariant
            i <= mounts@.len(),
            forall|k: int| 0 <= k < i ==> !source_is(#[trigger] mounts@[k], canonical@),
        decreases mounts@.len() - i,
    {
        let m = &mounts[i];
        if path_eq(m.source.as_slice(), canonical) {
            assert(source_is(mounts@[i as int], canonical@));
            return true;
        }
        match &m.resolved {
            Some(r) => {
                if path_eq(r.as_slice(), canonical) {
                    assert(source_is(mounts@[i as int], canonical@));
                    return true;
                }
            },
            None => {},
        }
        i += 1;
    }
    false
}

/// The verdict on a target: a system path first (for anything but a block
/// device, which lives under `/dev` and goes on to the drive policy), then
/// active swap, then (for a block device) a mounted one.
pub open spec fn spec_check_path(
    canonical: Seq<u8>,
    is_block: bool,
    swaps: Option<Seq<u8>>,
    mounts: Seq<MountSource>,
) -> Result<(), Hazard> {
    if !is_block && spec_is_dangerous(canonical) {
        Err(Hazard::SystemPath)
    } else if swaps matches Some(t) && spec_swap_listed(t, canonical) {
        Err(Hazard::SwapFile)
    } else if is_block && spec_mounted(canonical, mounts) {
        Err(Hazard::MountedDevice)
    } else {
        Ok(())
    }
}

/// Check a target against every hazard. `canonical` is the target with
/// links resolved (or as given, when it cannot be resolved), `swaps` the
/// text of `/proc/swaps` when it could be read, `mounts` the sources of
/// the mounts (only consulted for a block device). A block device is not
/// held to the system directories: device nodes live under `/dev`, and
/// what may be done to them is the drive policy's call.
pub fn check_path(
    canonical: &[u8],
    is_block: bool,
    swaps: Option<&[u8]>,
    mounts: &Vec<MountSource>,
) -> (r: Result<(), Hazard>)
    ensures
        r == spec_check_path(canonical@, is_block, opt_view(swaps), mounts@),
{
    if !is_block && is_dangerous_prefix(canonical) {
        return Err(Hazard::SystemPath);
    }
    match swaps {
        Some(t) => {
            if is_swap(t, canonical) {
                return Err(Hazard::SwapFile);
            }
        },
        None => {},
    }
    if is_block && is_mounted_block_device(canonical, mounts) {
        return Err(Hazard::MountedDevice);
    }
    Ok(())
}


/// Law: a target passes exactly when no hazard applies to it, and each
/// refusal names a hazard that does apply: a system path only for a
/// target that is not a block device, a mounted device only for a block
/// device.
pub proof fn lemma_check_path_hazards(
    canonical: Seq<u8>,
    is_block: bool,
    swaps: Option<Seq<u8>>,
    mounts: Seq<MountSource>,
)
    ensures
        (spec_check_path(canonical, is_block, swaps, mounts) is Ok) <==> (!(!is_block
            && spec_is_dangerous(canonical)) && !(swaps matches Some(t) && spec_swap_listed(
            t,
            canonical,
        )) && !(is_block && spec_mounted(canonical, mounts))),
        spec_check_path(canonical, is_block, swaps, mounts) == Err::<(), Hazard>(Hazard::SystemPath)
            ==> !is_block && spec_is_dangerous(canonical),
        spec_check_path(canonical, is_block, swaps, mounts) == Err::<(), Hazard>(Hazard::SwapFile)
            ==> (swaps matches Some(t) && spec_swap_listed(t, canonical)),
        spec_check_path(canonical, is_block, swaps, mounts) == Err::<(), Hazard>(
            Hazard::MountedDevice,
        ) ==> is_block && spec_mounted(canonical, mounts),
{
}

/// Law: a block device that is neither active swap nor mounted passes the
/// guard, wherever its node lives, so the drive policy decides its fate;
/// a regular file in a system directory never passes.
pub proof fn lemma_block_devices_reach_drive_policy(
    canonical: Seq<u8>,
    swaps: Option<Seq<u8>>,
    mounts: Seq<MountSource>,
)
    ensures
        !(swaps matches Some(t) && spec_swap_listed(t, canonical)) && !spec_mounted(
            canonical,
            mounts,
        ) ==> spec_check_path(canonical, true, swaps, mounts) == Ok::<(), Hazard>(()),
        spec_is_dangerous(canonical) ==> spec_check_path(canonical, false, swaps, mounts) == Err::<
            (),
            Hazard,
        >(Hazard::SystemPath),
{
}

} // verus!
