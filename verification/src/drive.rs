//! Tells you whether the thing you're about to plow is a spinning disk
//! (go nuts) or flash (easy, tiger), finds the device under a mounted
//! path, and decides what to do with a block-device target.
//!
//! Multi-pass overwrites on flash are ineffective (the FTL remaps writes)
//! and harmful (every pass eats program/erase cycles), so flash is refused
//! by default and the drive's native secure-erase is offered instead.

use vstd::prelude::*;
use crate::lines::{line1, line3, push_line, string_views};
use crate::mountinfo::{mount_point, mount_source, spec_mount_point, spec_mount_source};
use crate::pathname::{is_absolute, path_starts_with, spec_is_absolute, spec_path_starts_with};
use crate::text::{
    find, find_from, lemma_lines_step, lines, lines_from, next_line,
    nth_field, nth_field_exec, opt_view, skip_ws, skip_ws_exec,
};

verus! {

/// What flavor of storage we're dealing with.
#[derive(Clone, Copy, Debug, PartialEq, Eq, Structural)]
pub enum DriveKind {
    Nvme,
    /// SSD on a SATA bus (not rotational).
    Sata,
    /// Spinning rust, fair game for overwriting.
    Rotational,
    /// Could not tell; treated as safe to overwrite.
    Unknown,
}

impl DriveKind {
    /// NVMe and SATA SSDs are flash.
    pub open spec fn spec_is_flash(self) -> bool {
        self == DriveKind::Nvme || self == DriveKind::Sata
    }

    /// Is this flash storage?
    pub fn is_flash(self) -> (r: bool)
        ensures
            r == self.spec_is_flash(),
    {
        match self {
            DriveKind::Nvme => true,
            DriveKind::Sata => true,
            _ => false,
        }
    }
}

/// `\`
pub const BACKSLASH: u8 = 0x5c;

/// An octal digit `0`..`7`.
pub open spec fn is_octal_digit(b: u8) -> bool {
    0x30 <= b <= 0x37
}

/// The byte written as the octal escape `\abc`: three octal digits whose
/// value fits in a byte.
pub open spec fn octal3(a: u8, b: u8, c: u8) -> Option<u8> {
    if is_octal_digit(a) && is_octal_digit(b) && is_octal_digit(c) {
        let v = (a - 0x30) * 64 + (b - 0x30) * 8 + (c - 0x30);
        if v <= 255 {
            Some(v as u8)
        } else {
            None
        }
    } else {
        None
    }
}

/// The decoding of `s` from position `i`: `\` and three octal digits
/// give the byte of that value; every other byte is kept as it is.
pub open spec fn decoded_from(s: Seq<u8>, i: int) -> Seq<u8>
    decreases s.len() - i,
{
    if i < 0 || i >= s.len() {
        Seq::empty()
    } else if s[i] == BACKSLASH && i + 3 < s.len() && octal3(s[i + 1], s[i + 2], s[i + 3]) is Some {
        seq![octal3(s[i + 1], s[i + 2], s[i + 3]).unwrap()] + decoded_from(s, i + 4)
    } else {
        seq![s[i]] + decoded_from(s, i + 1)
    }
}

/// The decoding of a mountinfo field.
pub open spec fn spec_decode_mountinfo(s: Seq<u8>) -> Seq<u8> {
    decoded_from(s, 0)
}

fn octal3_exec(a: u8, b: u8, c: u8) -> (r: Option<u8>)
    ensures
        r == octal3(a, b, c),
{
    if 0x30 <= a && a <= 0x37 && 0x30 <= b && b <= 0x37 && 0x30 <= c && c <= 0x37 {
        let v: u32 = (a - 0x30) as u32 * 64 + (b - 0x30) as u32 * 8 + (c - 0x30) as u32;
        if v <= 255 {
            Some(v as u8)
        } else {
            None
        }
    } else {
        None
    }
}

/// mountinfo writes spaces, tabs, newlines and backslashes in a field as
/// octal escapes (`\040`, `\011`, `\012`, `\134`). Decode them: each
/// `\` followed by three octal digits of a byte's value becomes that
/// byte, and every other byte is copied through unchanged.
pub fn decode_mountinfo(s: &[u8]) -> (r: Vec<u8>)
    ensures
        r@ == spec_decode_mountinfo(s@),
{
    let n = s.len();
    let mut out: Vec<u8> = Vec::with_capacity(n);
    let mut i: usize = 0;
    while i < n
        invariant
            n == s@.len(),
            i <= n,
            spec_decode_mountinfo(s@) == out@ + decoded_from(s@, i as int),
        decreases n - i,
    {
        let escaped = if s[i] == BACKSLASH && n - i > 3 {
            octal3_exec(s[i + 1], s[i + 2], s[i + 3])
        } else {
            None
        };
        match escaped {
            Some(v) => {
                out.push(v);
                i = i + 4;
            },
            None => {
                out.push(s[i]);
                i = i + 1;
            },
        }
        assert(spec_decode_mountinfo(s@) =~= out@ + decoded_from(s@, i as int));
    }
    assert(decoded_from(s@, n as int) =~= Seq::<u8>::empty());
    assert(out@ + Seq::<u8>::empty() =~= out@);
    out
}

proof fn lemma_decode_plain_from(s: Seq<u8>, i: int)
    requires
        0 <= i <= s.len(),
        forall|k: int| 0 <= k < s.len() ==> #[trigger] s[k] != BACKSLASH,
    ensures
        decoded_from(s, i) == s.subrange(i, s.len() as int),
    decreases s.len() - i,
{
    if i < s.len() {
        lemma_decode_plain_from(s, i + 1);
        assert(s[i] != BACKSLASH);
        assert(s.subrange(i, s.len() as int) =~= seq![s[i]] + s.subrange(i + 1, s.len() as int));
    } else {
        assert(s.subrange(i, s.len() as int) =~= Seq::<u8>::empty());
    }
}

/// Law: a field without backslashes decodes to itself, byte for byte
/// (raw UTF-8 names such as `café` included).
pub proof fn lemma_decode_plain(s: Seq<u8>)
    requires
        forall|k: int| 0 <= k < s.len() ==> #[trigger] s[k] != BACKSLASH,
    ensures
        spec_decode_mountinfo(s) == s,
{
    lemma_decode_plain_from(s, 0);
    assert(s.subrange(0, s.len() as int) =~= s);
}

/// A mount of a mountinfo line, decoded: (mount point, source).
pub open spec fn mount_entry(line: Seq<u8>) -> Option<(Seq<u8>, Seq<u8>)> {
    match (spec_mount_point(line), spec_mount_source(line)) {
        (Some(mp), Some(src)) => Some((spec_decode_mountinfo(mp), spec_decode_mountinfo(src))),
        _ => None,
    }
}

/// The mount with the longest mount point (in bytes) that contains
/// `canonical`, as (length, source); of equally long ones the last, which
/// is mounted on top and visible at that point.
pub open spec fn best_mount(ls: Seq<Seq<u8>>, canonical: Seq<u8>) -> Option<(nat, Seq<u8>)>
    decreases ls.len(),
{
    if ls.len() == 0 {
        None
    } else {
        let best = best_mount(ls.drop_last(), canonical);
        match mount_entry(ls.last()) {
            Some((mp, src)) => if spec_path_starts_with(canonical, mp) && (best is None
                || mp.len() >= best.unwrap().0) {
                Some((mp.len(), src))
            } else {
                best
            },
            None => best,
        }
    }
}

/// The device under a path: the source of the mount that holds it (the
/// topmost of mounts stacked on one point), when
/// that source is an absolute path (pseudo filesystems such as `tmpfs`
/// have none).
pub open spec fn spec_resolve_block_device(canonical: Seq<u8>, mountinfo: Seq<u8>) -> Option<
    Seq<u8>,
> {
    match best_mount(lines(mountinfo), canonical) {
        Some((_, src)) => if spec_is_absolute(src) {
            Some(src)
        } else {
            None
        },
        None => None,
    }
}

/// For a resolved path on a mounted filesystem, find the underlying block
/// device in the text of `/proc/self/mountinfo`: the source of the mount
/// with the longest mount point that contains the path. Resolving through
/// mountinfo rather than `st_dev` copes with btrfs subvolumes, bind mounts
/// and overlays, whose anonymous devices are not under `/sys/dev/block/`.
pub fn resolve_block_device(canonical: &[u8], mountinfo: &[u8]) -> (r: Option<Vec<u8>>)
    ensures
        match spec_resolve_block_device(canonical@, mountinfo@) {
            Some(d) => r matches Some(v) && v@ == d,
            None => r is None,
        },
{
    let mut best: Option<(usize, Vec<u8>)> = None;
    let mut pos: usize = 0;
    let ghost mut k: int = 0;
    assert(lines(mountinfo@).skip(0) =~= lines(mountinfo@));
    while pos < mountinfo.len()
        invariant
            pos <= mountinfo@.len(),
            0 <= k <= lines(mountinfo@).len(),
            lines_from(mountinfo@, pos as int) == lines(mountinfo@).skip(k),
            match best_mount(lines(mountinfo@).take(k), canonical@) {
                Some((l, src)) => best matches Some((bl, bs)) && bl == l && bs@ == src,
                None => best is None,
            },
        decreases mountinfo@.len() - pos,
    {
        let (end, next) = next_line(mountinfo, pos);
        proof {
            lemma_lines_step(mountinfo@, pos as int, k, next as int);
            assert(lines(mountinfo@).take(k + 1).drop_last() =~= lines(mountinfo@).take(k));
            assert(lines(mountinfo@).take(k + 1).last() == lines(mountinfo@)[k]);
        }
        let line = &mountinfo[pos..end];
        match mount_point(line) {
            Some(mp_raw) => match mount_source(line) {
                Some(src_raw) => {
                    let mp = decode_mountinfo(mp_raw.as_slice());
                    if path_starts_with(canonical, mp.as_slice()) {
                        let len = mp.len();
                        let better = match &best {
                            None => true,
                            Some((l, _)) => len >= *l,
                        };
                        if better {
                            best = Some((len, decode_mountinfo(src_raw.as_slice())));
                        }
                    }
                },
                None => {},
            },
            None => {},
        }
        pos = next;
        proof {
            k = k + 1;
        }
    }
    assert(lines(mountinfo@).take(k) =~= lines(mountinfo@));
    match best {
        None => None,
        Some((_, src)) => {
            if !is_absolute(src.as_slice()) {
                None
            } else {
                Some(src)
            }
        },
    }
}

/// `text` holds the one-character flag `digit`, whitespace around it
/// allowed (what `read_to_string(..).trim() == "digit"` accepts).
pub open spec fn is_flag(text: Seq<u8>, digit: u8) -> bool {
    let a = skip_ws(text, 0);
    a < text.len() && text[a] == digit && skip_ws(text, a + 1) == text.len()
}

fn is_flag_exec(text: &[u8], digit: u8) -> (r: bool)
    ensures
        r == is_flag(text@, digit),
{
    let a = skip_ws_exec(text, 0);
    if a >= text.len() || text[a] != digit {
        return false;
    }
    let b = skip_ws_exec(text, a + 1);
    b == text.len()
}

/// The drive kind told by a sysfs `queue/rotational` flag: `0` is a SATA
/// SSD, `1` a spinning disk, anything else (or no flag) unknown.
pub open spec fn spec_rotational_kind(text: Option<Seq<u8>>) -> DriveKind {
    match text {
        Some(t) => if is_flag(t, 0x30) {
            DriveKind::Sata
        } else if is_flag(t, 0x31) {
            DriveKind::Rotational
        } else {
            DriveKind::Unknown
        },
        None => DriveKind::Unknown,
    }
}

/// `nvme`
pub open spec fn nvme_prefix() -> Seq<u8> {
    seq![0x6eu8, 0x76u8, 0x6du8, 0x65u8]
}

/// A device name that starts with `nvme`.
pub open spec fn spec_is_nvme_name(name: Seq<u8>) -> bool {
    name.len() >= 4 && name.take(4) == nvme_prefix()
}

/// Does the device name start with `nvme`?
pub fn is_nvme_name(name: &[u8]) -> (r: bool)
    ensures
        r == spec_is_nvme_name(name@),
{
    let r = name.len() >= 4 && name[0] == 0x6e && name[1] == 0x76 && name[2] == 0x6d && name[3]
        == 0x65;
    if name.len() >= 4 {
        assert(name@.take(4) =~= seq![name@[0], name@[1], name@[2], name@[3]]);
    }
    r
}

/// The kind of a block device (e.g. `nvme0n1`, `sda`, `sda1`): no usable
/// name is unknown, an `nvme` name is NVMe, anything else goes by the
/// sysfs rotational flag of the device (or of its parent for a
/// partition).
pub open spec fn spec_classify(name: Option<Seq<u8>>, rotational: Option<Seq<u8>>) -> DriveKind {
    match name {
        None => DriveKind::Unknown,
        Some(n) => if spec_is_nvme_name(n) {
            DriveKind::Nvme
        } else {
            spec_rotational_kind(rotational)
        },
    }
}

/// Law: a device whose name starts with `nvme` is NVMe, whatever its
/// sysfs rotational flag says and whether or not one was read; a device
/// without a usable name is unknown.
pub proof fn lemma_nvme_names_are_nvme(name: Seq<u8>, rotational: Option<Seq<u8>>)
    ensures
        name.len() >= 4 && name[0] == 0x6e && name[1] == 0x76 && name[2] == 0x6d && name[3] == 0x65
            ==> spec_classify(Some(name), rotational) == DriveKind::Nvme,
        spec_classify(None, rotational) == DriveKind::Unknown,
{
    if name.len() >= 4 && name[0] == 0x6e && name[1] == 0x76 && name[2] == 0x6d && name[3] == 0x65 {
        assert(name.take(4) =~= nvme_prefix());
    }
}

/// Law: any other named device goes by its rotational flag: `0` is a
/// SATA SSD, `1` a spinning disk, and no flag leaves it unknown.
pub proof fn lemma_other_names_go_by_flag(name: Seq<u8>)
    requires
        !(name.len() >= 4 && name[0] == 0x6e && name[1] == 0x76 && name[2] == 0x6d && name[3]
            == 0x65),
    ensures
        spec_classify(Some(name), Some(seq![0x30u8])) == DriveKind::Sata,
        spec_classify(Some(name), Some(seq![0x31u8, 0x0a])) == DriveKind::Rotational,
        spec_classify(Some(name), None) == DriveKind::Unknown,
{
    if name.len() >= 4 && name.take(4) == nvme_prefix() {
        assert(name[0] == name.take(4)[0]);
        assert(name[1] == name.take(4)[1]);
        assert(name[2] == name.take(4)[2]);
        assert(name[3] == name.take(4)[3]);
    }
    let z: Seq<u8> = seq![0x30u8];
    let o: Seq<u8> = seq![0x31u8, 0x0a];
    assert(skip_ws(z, 0) == 0) by {
        reveal_with_fuel(skip_ws, 2);
    }
    assert(skip_ws(z, 1) == 1) by {
        reveal_with_fuel(skip_ws, 2);
    }
    assert(skip_ws(o, 0) == 0) by {
        reveal_with_fuel(skip_ws, 2);
    }
    assert(skip_ws(o, 1) == 2) by {
        reveal_with_fuel(skip_ws, 3);
    }
}

/// Classify a block device. `name` is its file name when that is UTF-8;
/// `rotational` the text of its sysfs `queue/rotational` flag when it
/// could be found and read (it is not consulted for an `nvme` name).
pub fn classify(name: Option<&[u8]>, rotational: Option<&[u8]>) -> (r: DriveKind)
    ensures
        r == spec_classify(opt_view(name), opt_view(rotational)),
{
    match name {
        None => DriveKind::Unknown,
        Some(n) => {
            if is_nvme_name(n) {
                DriveKind::Nvme
            } else {
                match rotational {
                    None => DriveKind::Unknown,
                    Some(t) => {
                        if is_flag_exec(t, 0x30) {
                            DriveKind::Sata
                        } else if is_flag_exec(t, 0x31) {
                            DriveKind::Rotational
                        } else {
                            DriveKind::Unknown
                        }
                    },
                }
            }
        },
    }
}

/// The native tool that erases a drive.
#[derive(Clone, Copy, Debug, PartialEq, Eq, Structural)]
pub enum EraseTool {
    /// `nvme format <dev> -s 1` (user-data erase).
    NvmeFormat,
    /// `hdparm --security-set-pass`, then `hdparm --security-erase`.
    Hdparm,
}

/// What to do with a block-device target.
#[derive(Clone, Copy, Debug, PartialEq, Eq, Structural)]
pub enum BlockPlan {
    /// Run the drive's own secure-erase and skip the overwrite.
    SecureErase(EraseTool),
    /// Secure-erase was asked for, but the drive could not be classified:
    /// refuse to guess.
    CannotErase,
    /// Flash without the override: refuse, and point at the native tools.
    Refuse,
    /// Go ahead and overwrite.
    Overwrite,
}

/// The bouncer for block-device targets: with `--secure-erase`, the tool
/// for the drive's kind; flash without `--rape` is refused; anything else
/// is overwritten.
pub open spec fn spec_handle_block_device(kind: DriveKind, rape: bool, secure_erase: bool) -> BlockPlan {
    if secure_erase {
        match kind {
            DriveKind::Nvme => BlockPlan::SecureErase(EraseTool::NvmeFormat),
            DriveKind::Sata => BlockPlan::SecureErase(EraseTool::Hdparm),
            DriveKind::Rotational => BlockPlan::SecureErase(EraseTool::Hdparm),
            DriveKind::Unknown => BlockPlan::CannotErase,
        }
    } else if kind.spec_is_flash() && !rape {
        BlockPlan::Refuse
    } else {
        BlockPlan::Overwrite
    }
}

/// Law: flash is never overwritten unless `--rape` was given (and
/// `--secure-erase` was not); with `--secure-erase` nothing is overwritten.
pub proof fn lemma_flash_needs_override(kind: DriveKind, rape: bool, secure_erase: bool)
    ensures
        spec_handle_block_device(kind, rape, secure_erase) == BlockPlan::Overwrite ==> !secure_erase
            && (kind.spec_is_flash() ==> rape),
        kind.spec_is_flash() && !rape && !secure_erase ==> spec_handle_block_device(
            kind,
            rape,
            secure_erase,
        ) == BlockPlan::Refuse,
{
}

/// Law: `--secure-erase` always hands the drive to its native tool,
/// whether or not `--rape` is given: `nvme format` for NVMe, hdparm's
/// security erase for SATA SSDs and spinning disks. Only a drive of
/// unknown kind is not erased (the program refuses to guess), and a
/// secure-erased drive is never overwritten or refused.
pub proof fn lemma_secure_erase_runs_native_tool(kind: DriveKind, rape: bool)
    ensures
        kind == DriveKind::Nvme ==> spec_handle_block_device(kind, rape, true)
            == BlockPlan::SecureErase(EraseTool::NvmeFormat),
        kind == DriveKind::Sata ==> spec_handle_block_device(kind, rape, true)
            == BlockPlan::SecureErase(EraseTool::Hdparm),
        kind == DriveKind::Rotational ==> spec_handle_block_device(kind, rape, true)
            == BlockPlan::SecureErase(EraseTool::Hdparm),
        (spec_handle_block_device(kind, rape, true) == BlockPlan::CannotErase) <==> (kind
            == DriveKind::Unknown),
        spec_handle_block_device(kind, rape, true) != BlockPlan::Refuse,
        spec_handle_block_device(kind, rape, true) != BlockPlan::Overwrite,
        spec_handle_block_device(kind, true, true) == spec_handle_block_device(kind, false, true),
{
}

/// Law: without `--secure-erase`, a block device is overwritten exactly
/// when it is not flash or `--rape` is given, and refused otherwise.
pub proof fn lemma_overwrite_or_refuse(kind: DriveKind, rape: bool)
    ensures
        (spec_handle_block_device(kind, rape, false) == BlockPlan::Overwrite) <==> (!(kind
            == DriveKind::Nvme || kind == DriveKind::Sata) || rape),
        (spec_handle_block_device(kind, rape, false) == BlockPlan::Refuse) <==> ((kind
            == DriveKind::Nvme || kind == DriveKind::Sata) && !rape),
{
}

/// Decide what happens to a block device of the given kind.
pub fn handle_block_device(kind: DriveKind, rape: bool, secure_erase: bool) -> (r: BlockPlan)
    ensures
        r == spec_handle_block_device(kind, rape, secure_erase),
{
    if secure_erase {
        return match kind {
            DriveKind::Nvme => BlockPlan::SecureErase(EraseTool::NvmeFormat),
            DriveKind::Sata => BlockPlan::SecureErase(EraseTool::Hdparm),
            DriveKind::Rotational => BlockPlan::SecureErase(EraseTool::Hdparm),
            DriveKind::Unknown => BlockPlan::CannotErase,
        };
    }
    if kind.is_flash() && !rape {
        return BlockPlan::Refuse;
    }
    BlockPlan::Overwrite
}


/// `<key>SolidState</key>`
pub open spec fn solid_state_key() -> Seq<u8> {
    seq![0x3cu8, 0x6bu8, 0x65u8, 0x79u8, 0x3eu8, 0x53u8, 0x6fu8, 0x6cu8, 0x69u8, 0x64u8, 0x53u8, 0x74u8, 0x61u8, 0x74u8, 0x65u8, 0x3cu8, 0x2fu8, 0x6bu8, 0x65u8, 0x79u8, 0x3eu8]
}

/// `<true/>`
pub open spec fn plist_true() -> Seq<u8> {
    seq![0x3cu8, 0x74u8, 0x72u8, 0x75u8, 0x65u8, 0x2fu8, 0x3eu8]
}

/// `<false/>`
pub open spec fn plist_false() -> Seq<u8> {
    seq![0x3cu8, 0x66u8, 0x61u8, 0x6cu8, 0x73u8, 0x65u8, 0x2fu8, 0x3eu8]
}

/// `<key>`
pub open spec fn plist_key() -> Seq<u8> {
    seq![0x3cu8, 0x6bu8, 0x65u8, 0x79u8, 0x3eu8]
}

/// The drive kind told by `diskutil info -plist <dev>`: the
/// `<key>SolidState</key>` entry followed by `<true/>` (before any other
/// key) is flash, which is reported as `Sata` (NVMe and SATA are not told
/// apart; the native secure-erase advice fits both); a `<false/>` after
/// the entry is a spinning disk; anything else is unknown.
pub open spec fn spec_diskutil_kind(plist: Seq<u8>) -> DriveKind {
    match find_from(plist, solid_state_key(), 0) {
        None => DriveKind::Unknown,
        Some(pos) => {
            let after = pos + solid_state_key().len();
            let t = find_from(plist, plist_true(), after);
            let k = find_from(plist, plist_key(), after);
            if t is Some && (k is None || t.unwrap() < k.unwrap()) {
                DriveKind::Sata
            } else if find_from(plist, plist_false(), pos) is Some {
                DriveKind::Rotational
            } else {
                DriveKind::Unknown
            }
        },
    }
}

/// Classify a drive from the plist that `diskutil info -plist` printed.
pub fn diskutil_kind(plist: &[u8]) -> (r: DriveKind)
    ensures
        r == spec_diskutil_kind(plist@),
{
    let key = vec![0x3cu8, 0x6bu8, 0x65u8, 0x79u8, 0x3eu8, 0x53u8, 0x6fu8, 0x6cu8, 0x69u8, 0x64u8, 0x53u8, 0x74u8, 0x61u8, 0x74u8, 0x65u8, 0x3cu8, 0x2fu8, 0x6bu8, 0x65u8, 0x79u8, 0x3eu8];
    let yes = vec![0x3cu8, 0x74u8, 0x72u8, 0x75u8, 0x65u8, 0x2fu8, 0x3eu8];
    let no = vec![0x3cu8, 0x66u8, 0x61u8, 0x6cu8, 0x73u8, 0x65u8, 0x2fu8, 0x3eu8];
    let tag = vec![0x3cu8, 0x6bu8, 0x65u8, 0x79u8, 0x3eu8];
    assert(key@ =~= solid_state_key());
    assert(yes@ =~= plist_true());
    assert(no@ =~= plist_false());
    assert(tag@ =~= plist_key());
    match find(plist, key.as_slice(), 0) {
        None => DriveKind::Unknown,
        Some(pos) => {
            assert(plist@.len() == plist.len());
            let after = pos + key.len();
            let t = find(plist, yes.as_slice(), after);
            let k = find(plist, tag.as_slice(), after);
            let true_first = match (t, k) {
                (Some(a), Some(b)) => a < b,
                (Some(_), None) => true,
                _ => false,
            };
            if true_first {
                DriveKind::Sata
            } else if find(plist, no.as_slice(), pos).is_some() {
                DriveKind::Rotational
            } else {
                DriveKind::Unknown
            }
        },
    }
}

/// The device in `df -P <path>` output: the first field of the second
/// line (the first is the header).
pub open spec fn spec_df_device(out: Seq<u8>) -> Option<Seq<u8>> {
    if lines(out).len() >= 2 {
        nth_field(lines(out)[1], 0)
    } else {
        None
    }
}

/// Find the device of a path in the output of `df -P <path>`.
pub fn df_device(out: &[u8]) -> (r: Option<Vec<u8>>)
    ensures
        match spec_df_device(out@) {
            Some(d) => r matches Some(v) && v@ == d,
            None => r is None,
        },
{
    assert(lines(out@).skip(0) =~= lines(out@));
    if out.len() == 0 {
        return None;
    }
    let (_, next) = next_line(out, 0);
    proof {
        lemma_lines_step(out@, 0, 0, next as int);
    }
    if next >= out.len() {
        assert(lines(out@).skip(1).len() == 0);
        return None;
    }
    let (end, next2) = next_line(out, next);
    proof {
        lemma_lines_step(out@, next as int, 1, next2 as int);
    }
    nth_field_exec(&out[next..end], 0)
}


/// The warning about a file that sits on a flash device (`path_debug`
/// and `dev_debug` debug-printed).
pub open spec fn spec_flash_warning(path_debug: Seq<char>, dev_debug: Seq<char>) -> Seq<Seq<char>> {
    seq![
        "WARNING: "@ + path_debug + " sits on flash device "@ + dev_debug + "."@,
        "         File-level overwrite is theatrical on SSD/NVMe: the FTL won't"@,
        "         necessarily clobber the physical NAND page that held this file."@,
        "         The file will still be deleted, but treat the wipe as advisory."@,
    ]
}

/// The lines that warn that overwriting a file on flash is advisory.
pub fn flash_warning(path_debug: &str, dev_debug: &str) -> (r: Vec<String>)
    ensures
        string_views(r@) == spec_flash_warning(path_debug@, dev_debug@),
{
    let mut r: Vec<String> = Vec::new();
    let mut first = line3("WARNING: ", path_debug, " sits on flash device ");
    first.append(dev_debug);
    first.append(".");
    push_line(&mut r, first);
    push_line(&mut r, line1("         File-level overwrite is theatrical on SSD/NVMe: the FTL won't"));
    push_line(
        &mut r,
        line1("         necessarily clobber the physical NAND page that held this file."),
    );
    push_line(
        &mut r,
        line1("         The file will still be deleted, but treat the wipe as advisory."),
    );
    assert(string_views(r@) =~= spec_flash_warning(path_debug@, dev_debug@));
    r
}

/// The name a drive kind is printed with.
pub open spec fn spec_kind_name(kind: DriveKind) -> Seq<char> {
    match kind {
        DriveKind::Nvme => "Nvme"@,
        DriveKind::Sata => "Sata"@,
        DriveKind::Rotational => "Rotational"@,
        DriveKind::Unknown => "Unknown"@,
    }
}

fn kind_name(kind: DriveKind) -> (r: &'static str)
    ensures
        r@ == spec_kind_name(kind),
{
    match kind {
        DriveKind::Nvme => "Nvme",
        DriveKind::Sata => "Sata",
        DriveKind::Rotational => "Rotational",
        DriveKind::Unknown => "Unknown",
    }
}

/// The opening of the refusal: who is refused and why flash hates
/// multi-pass overwrites.
pub open spec fn refusal_head(dev_debug: Seq<char>, kind: DriveKind) -> Seq<Seq<char>> {
    seq![
        ""@,
        "8==X  Refusing to overwrite "@ + dev_debug + ""@,
        ""@,
        "This is flash storage ("@ + spec_kind_name(kind) + "). Multi-pass overwrite is:"@,
        "  - INEFFECTIVE: the FTL remaps writes, leaving stale copies in over-provisioned NAND"@,
        "  - HARMFUL:     each pass consumes finite program/erase cycles"@,
        ""@,
        "Use the drive's native secure-erase instead:"@,
    ]
}

/// The native commands for the drive's kind, with the device spliced in.
pub open spec fn refusal_commands(dev: Seq<char>, kind: DriveKind) -> Seq<Seq<char>> {
    match kind {
        DriveKind::Nvme => seq![
            "    sudo nvme format "@ + dev + " -s 1        # user-data erase"@,
            "    sudo nvme format "@ + dev + " -s 2        # cryptographic erase (SED only)"@,
            "    sudo nvme sanitize "@ + dev + " --sanact=2 # block erase (if supported)"@,
        ],
        DriveKind::Sata => seq![
            "    sudo hdparm --user-master u --security-set-pass p "@ + dev + ""@,
            "    sudo hdparm --user-master u --security-erase p "@ + dev + ""@,
            ""@,
            "Or, for a fast non-cryptographic discard:"@,
            "    sudo blkdiscard "@ + dev + ""@,
        ],
        _ => Seq::empty(),
    }
}

/// The close of the refusal: the self-encrypting-drive hint and the two
/// ways out.
pub open spec fn refusal_tail() -> Seq<Seq<char>> {
    seq![
        ""@,
        "For self-encrypting drives (TCG Opal), use `sedutil-cli --revertNoErase`."@,
        ""@,
        "To run those for you: pass --secure-erase."@,
        "To bypass this check anyway: pass --rape."@,
        ""@,
    ]
}

/// The whole refusal of a flash device.
pub open spec fn spec_refusal_advice(dev: Seq<char>, dev_debug: Seq<char>, kind: DriveKind) -> Seq<
    Seq<char>,
> {
    refusal_head(dev_debug, kind) + refusal_commands(dev, kind) + refusal_tail()
}

/// The lines printed when a flash device is refused: why, the drive's
/// native erase commands for its kind (`dev` is the device as displayed,
/// `dev_debug` as debug-printed), and the ways out.
pub fn refusal_advice(dev: &str, dev_debug: &str, kind: DriveKind) -> (r: Vec<String>)
    ensures
        string_views(r@) == spec_refusal_advice(dev@, dev_debug@, kind),
{
    let mut r: Vec<String> = Vec::new();
    push_line(&mut r, line1(""));
    push_line(&mut r, line3("8==X  Refusing to overwrite ", dev_debug, ""));
    push_line(&mut r, line1(""));
    push_line(&mut r, line3("This is flash storage (", kind_name(kind), "). Multi-pass overwrite is:"));
    push_line(
        &mut r,
        line1("  - INEFFECTIVE: the FTL remaps writes, leaving stale copies in over-provisioned NAND"),
    );
    push_line(&mut r, line1("  - HARMFUL:     each pass consumes finite program/erase cycles"));
    push_line(&mut r, line1(""));
    push_line(&mut r, line1("Use the drive's native secure-erase instead:"));
    assert(string_views(r@) =~= refusal_head(dev_debug@, kind));
    let ghost head = string_views(r@);
    match kind {
        DriveKind::Nvme => {
            push_line(&mut r, line3("    sudo nvme format ", dev, " -s 1        # user-data erase"));
            push_line(
                &mut r,
                line3("    sudo nvme format ", dev, " -s 2        # cryptographic erase (SED only)"),
            );
            push_line(
                &mut r,
                line3("    sudo nvme sanitize ", dev, " --sanact=2 # block erase (if supported)"),
            );
        },
        DriveKind::Sata => {
            push_line(&mut r, line3("    sudo hdparm --user-master u --security-set-pass p ", dev, ""));
            push_line(&mut r, line3("    sudo hdparm --user-master u --security-erase p ", dev, ""));
            push_line(&mut r, line1(""));
            push_line(&mut r, line1("Or, for a fast non-cryptographic discard:"));
            push_line(&mut r, line3("    sudo blkdiscard ", dev, ""));
        },
        _ => {},
    }
    assert(string_views(r@) =~= head + refusal_commands(dev@, kind));
    let ghost mid = string_views(r@);
    push_line(&mut r, line1(""));
    push_line(
        &mut r,
        line1("For self-encrypting drives (TCG Opal), use `sedutil-cli --revertNoErase`."),
    );
    push_line(&mut r, line1(""));
    push_line(&mut r, line1("To run those for you: pass --secure-erase."));
    push_line(&mut r, line1("To bypass this check anyway: pass --rape."));
    push_line(&mut r, line1(""));
    assert(string_views(r@) =~= mid + refusal_tail());
    r
}

/// One argument of a native erase command: a fixed word, or the device.
pub enum Arg {
    Word(String),
    Device,
}

/// An argument as a plain value (`None` for the device).
pub open spec fn arg_view(a: Arg) -> Option<Seq<char>> {
    match a {
        Arg::Word(w) => Some(w@),
        Arg::Device => None,
    }
}

/// One native erase command: its argument vector (program first), the
/// name its failure is reported under, and the context of a failure to
/// start it.
pub struct EraseCommand {
    pub argv: Vec<Arg>,
    pub label: String,
    pub spawn_context: String,
}

/// A command as plain values.
pub open spec fn command_view(c: EraseCommand) -> (Seq<Option<Seq<char>>>, Seq<char>, Seq<char>) {
    (c.argv@.map_values(|a: Arg| arg_view(a)), c.label@, c.spawn_context@)
}

/// The commands `--secure-erase` runs, in order: `nvme format <dev> -s 1`
/// for NVMe; for SATA (and spinning disks) first setting a dummy user
/// password `p`, which unlocks SECURITY ERASE UNIT, then erasing with it.
pub open spec fn spec_erase_commands(tool: EraseTool) -> Seq<
    (Seq<Option<Seq<char>>>, Seq<char>, Seq<char>),
> {
    match tool {
        EraseTool::NvmeFormat => seq![
            (
                seq![Some("nvme"@), Some("format"@), None, Some("-s"@), Some("1"@)],
                "nvme format"@,
                "failed to spawn `nvme` (install nvme-cli)"@,
            ),
        ],
        EraseTool::Hdparm => seq![
            (
                seq![
                    Some("hdparm"@),
                    Some("--user-master"@),
                    Some("u"@),
                    Some("--security-set-pass"@),
                    Some("p"@),
                    None,
                ],
                "hdparm --security-set-pass"@,
                "failed to spawn `hdparm`"@,
            ),
            (
                seq![
                    Some("hdparm"@),
                    Some("--user-master"@),
                    Some("u"@),
                    Some("--security-erase"@),
                    Some("p"@),
                    None,
                ],
                "hdparm --security-erase"@,
                "failed to spawn `hdparm`"@,
            ),
        ],
    }
}

fn word(w: &str) -> (r: Arg)
    ensures
        arg_view(r) == Some(w@),
{
    Arg::Word(String::from_str(w))
}

fn push_arg(v: &mut Vec<Arg>, a: Arg)
    ensures
        final(v)@.map_values(|x: Arg| arg_view(x)) == old(v)@.map_values(|x: Arg| arg_view(x)).push(
            arg_view(a),
        ),
{
    let ghost t = arg_view(a);
    v.push(a);
    assert(v@.map_values(|x: Arg| arg_view(x)) =~= old(v)@.map_values(|x: Arg| arg_view(x)).push(t));
}

fn hdparm_command(step: &str) -> (r: EraseCommand)
    ensures
        command_view(r) == (
            seq![
                Some("hdparm"@),
                Some("--user-master"@),
                Some("u"@),
                Some(step@),
                Some("p"@),
                None,
            ],
            "hdparm "@ + step@ + ""@,
            "failed to spawn `hdparm`"@,
        ),
{
    let mut argv: Vec<Arg> = Vec::new();
    push_arg(&mut argv, word("hdparm"));
    push_arg(&mut argv, word("--user-master"));
    push_arg(&mut argv, word("u"));
    push_arg(&mut argv, word(step));
    push_arg(&mut argv, word("p"));
    push_arg(&mut argv, Arg::Device);
    let r = EraseCommand {
        argv,
        label: line3("hdparm ", step, ""),
        spawn_context: line1("failed to spawn `hdparm`"),
    };
    assert(command_view(r).0 =~= seq![
        Some("hdparm"@),
        Some("--user-master"@),
        Some("u"@),
        Some(step@),
        Some("p"@),
        None,
    ]);
    r
}

/// The native erase commands for a tool, in the order they run.
pub fn erase_commands(tool: EraseTool) -> (r: Vec<EraseCommand>)
    ensures
        r@.map_values(|c: EraseCommand| command_view(c)) == spec_erase_commands(tool),
{
    let mut r: Vec<EraseCommand> = Vec::new();
    match tool {
        EraseTool::NvmeFormat => {
            let mut argv: Vec<Arg> = Vec::new();
            push_arg(&mut argv, word("nvme"));
            push_arg(&mut argv, word("format"));
            push_arg(&mut argv, Arg::Device);
            push_arg(&mut argv, word("-s"));
            push_arg(&mut argv, word("1"));
            let c = EraseCommand {
                argv,
                label: line1("nvme format"),
                spawn_context: line1("failed to spawn `nvme` (install nvme-cli)"),
            };
            assert(command_view(c).0 =~= seq![
                Some("nvme"@),
                Some("format"@),
                None,
                Some("-s"@),
                Some("1"@),
            ]);
            r.push(c);
        },
        EraseTool::Hdparm => {
            let set = hdparm_command("--security-set-pass");
            let erase = hdparm_command("--security-erase");
            proof {
                reveal_strlit("hdparm ");
                reveal_strlit("--security-set-pass");
                reveal_strlit("--security-erase");
                reveal_strlit("hdparm --security-set-pass");
                reveal_strlit("hdparm --security-erase");
                reveal_strlit("");
                assert("hdparm "@ + "--security-set-pass"@ + ""@ =~= "hdparm --security-set-pass"@);
                assert("hdparm "@ + "--security-erase"@ + ""@ =~= "hdparm --security-erase"@);
            }
            r.push(set);
            r.push(erase);
        },
    }
    assert(r@.map_values(|c: EraseCommand| command_view(c)) =~= spec_erase_commands(tool));
    r
}

/// What to do after a native erase command has run.
#[derive(Clone, Copy, Debug, PartialEq, Eq, Structural)]
pub enum EraseStep {
    /// Run the command with this index next.
    Run(usize),
    /// Every command succeeded: the drive is erased.
    Finished,
    /// The command with this index failed: stop and report it.
    Failed(usize),
}

/// After command `done` of `total` ran (successfully or not): a failure
/// stops the erase, else the next command runs, until all have.
pub open spec fn spec_erase_step(done: usize, ok: bool, total: usize) -> EraseStep {
    if !ok {
        EraseStep::Failed(done)
    } else if done + 1 >= total {
        EraseStep::Finished
    } else {
        EraseStep::Run((done + 1) as usize)
    }
}

/// Law: a failed command stops the erase and is the one reported; a
/// successful one leads to the command right after it while one is left,
/// and to the end after the last.
pub proof fn lemma_erase_steps(done: usize, ok: bool, total: usize)
    requires
        done < total,
    ensures
        (spec_erase_step(done, ok, total) is Failed) <==> !ok,
        spec_erase_step(done, ok, total) matches EraseStep::Failed(i) ==> i == done,
        spec_erase_step(done, ok, total) matches EraseStep::Run(j) ==> ok && j == done + 1 && j
            < total,
        (spec_erase_step(done, ok, total) == EraseStep::Finished) <==> (ok && done + 1 == total),
{
}

/// The next step of a native erase.
pub fn erase_step(done: usize, ok: bool, total: usize) -> (r: EraseStep)
    requires
        done < total,
    ensures
        r == spec_erase_step(done, ok, total),
{
    if !ok {
        EraseStep::Failed(done)
    } else if done + 1 >= total {
        EraseStep::Finished
    } else {
        EraseStep::Run(done + 1)
    }
}

} // verus!
