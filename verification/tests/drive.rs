use wipedicks::drive::{
    classify, decode_mountinfo, df_device, diskutil_kind, handle_block_device, is_nvme_name,
    resolve_block_device, BlockPlan, DriveKind, EraseTool,
};

#[test]
fn flash_kinds() {
    assert!(DriveKind::Nvme.is_flash());
    assert!(DriveKind::Sata.is_flash());
    assert!(!DriveKind::Rotational.is_flash());
    assert!(!DriveKind::Unknown.is_flash());
}

#[test]
fn mountinfo_escapes_decode() {
    assert_eq!(decode_mountinfo(b"/mnt/my\\040disk"), b"/mnt/my disk".to_vec());
    assert_eq!(decode_mountinfo(b"a\\011b\\134c"), b"a\tb\\c".to_vec());
    // Only three octal digits make an escape.
    assert_eq!(decode_mountinfo(b"\\+12x"), b"\\+12x".to_vec());
    // 0o400 does not fit in a byte: the backslash stays.
    assert_eq!(decode_mountinfo(b"\\400"), b"\\400".to_vec());
    // Too short for an escape.
    assert_eq!(decode_mountinfo(b"x\\04"), b"x\\04".to_vec());
    assert_eq!(decode_mountinfo(b"\\377"), vec![0xffu8]);
    // Raw UTF-8 goes through untouched.
    assert_eq!(decode_mountinfo("/mnt/café".as_bytes()), "/mnt/café".as_bytes().to_vec());
    assert_eq!(decode_mountinfo("\\ab\u{e9}".as_bytes()), "\\ab\u{e9}".as_bytes().to_vec());
    assert_eq!(decode_mountinfo(b"plain/path"), b"plain/path".to_vec());
    assert_eq!(decode_mountinfo(b""), Vec::<u8>::new());
}

const MOUNTINFO: &[u8] = b"22 1 8:2 / / rw,relatime shared:1 - ext4 /dev/sda2 rw\n\
30 22 8:3 / /home rw - ext4 /dev/sda3 rw\n\
36 22 0:30 / /mnt/my\\040disk rw - vfat /dev/sdb1 rw\n\
37 22 8:5 / /home rw - ext4 /dev/sda5 rw\n\
40 22 0:31 / /tmp rw - tmpfs tmpfs rw\n";

#[test]
fn device_under_a_path_is_the_longest_mount() {
    // /home is mounted twice: the later mount sits on top and is the one seen.
    assert_eq!(resolve_block_device(b"/home/me/file", MOUNTINFO), Some(b"/dev/sda5".to_vec()));
    assert_eq!(resolve_block_device(b"/var/log", MOUNTINFO), Some(b"/dev/sda2".to_vec()));
    assert_eq!(resolve_block_device(b"/mnt/my disk/x", MOUNTINFO), Some(b"/dev/sdb1".to_vec()));
    assert_eq!(resolve_block_device(b"/tmp/x", MOUNTINFO), None);
    assert_eq!(resolve_block_device(b"/x", b""), None);
}

#[test]
fn classify_by_name_and_flag() {
    assert!(is_nvme_name(b"nvme0n1"));
    assert!(!is_nvme_name(b"nvm"));
    assert_eq!(classify(Some(b"nvme0n1"), Some(b"1")), DriveKind::Nvme);
    assert_eq!(classify(Some(b"sda"), Some(b"0\n")), DriveKind::Sata);
    assert_eq!(classify(Some(b"sda1"), Some(b" 1 \n")), DriveKind::Rotational);
    assert_eq!(classify(Some(b"sda"), Some(b"2\n")), DriveKind::Unknown);
    assert_eq!(classify(Some(b"sda"), Some(b"01")), DriveKind::Unknown);
    assert_eq!(classify(Some(b"sda"), None), DriveKind::Unknown);
    assert_eq!(classify(None, Some(b"0")), DriveKind::Unknown);
}

#[test]
fn block_device_policy() {
    assert_eq!(handle_block_device(DriveKind::Nvme, false, false), BlockPlan::Refuse);
    assert_eq!(handle_block_device(DriveKind::Sata, false, false), BlockPlan::Refuse);
    assert_eq!(handle_block_device(DriveKind::Nvme, true, false), BlockPlan::Overwrite);
    assert_eq!(handle_block_device(DriveKind::Rotational, false, false), BlockPlan::Overwrite);
    assert_eq!(handle_block_device(DriveKind::Unknown, false, false), BlockPlan::Overwrite);
    assert_eq!(handle_block_device(DriveKind::Nvme, false, true), BlockPlan::SecureErase(EraseTool::NvmeFormat));
    assert_eq!(handle_block_device(DriveKind::Sata, true, true), BlockPlan::SecureErase(EraseTool::Hdparm));
    assert_eq!(handle_block_device(DriveKind::Rotational, false, true), BlockPlan::SecureErase(EraseTool::Hdparm));
    assert_eq!(handle_block_device(DriveKind::Unknown, false, true), BlockPlan::CannotErase);
}

#[test]
fn diskutil_plists() {
    let ssd = b"<dict><key>SolidState</key>\n<true/>\n<key>Other</key><false/></dict>";
    let hdd = b"<dict><key>SolidState</key>\n<false/>\n<key>Other</key><true/></dict>";
    let none = b"<dict><key>Other</key><true/></dict>";
    assert_eq!(diskutil_kind(ssd), DriveKind::Sata);
    assert_eq!(diskutil_kind(hdd), DriveKind::Rotational);
    assert_eq!(diskutil_kind(none), DriveKind::Unknown);
}

#[test]
fn df_output() {
    let out = b"Filesystem 512-blocks Used Available Capacity Mounted on\n/dev/disk3s1 1 2 3 4% /\n";
    assert_eq!(df_device(out), Some(b"/dev/disk3s1".to_vec()));
    assert_eq!(df_device(b"header only\n"), None);
    assert_eq!(df_device(b""), None);
}
