use wipedicks::safety::{
    check_path, is_dangerous_prefix, is_mounted_block_device, is_swap, mount_sources, Hazard,
    MountSource,
};

#[test]
fn root_is_refused() {
    assert!(is_dangerous_prefix(b"/"));
}

#[test]
fn etc_passwd_is_refused() {
    assert!(is_dangerous_prefix(b"/etc/passwd"));
}

#[test]
fn etc_lookalike_is_allowed() {
    // /home/etc-backup is not /etc.
    assert!(!is_dangerous_prefix(b"/home/etc-backup"));
}

#[test]
fn tmp_is_allowed() {
    assert!(!is_dangerous_prefix(b"/tmp/anything"));
}

#[test]
fn every_system_dir_is_refused() {
    for d in [
        "/boot", "/etc", "/usr", "/var", "/lib", "/lib64", "/lib32", "/bin", "/sbin", "/sys",
        "/proc", "/dev", "/root", "/srv", "/opt",
    ] {
        assert!(is_dangerous_prefix(d.as_bytes()), "{d}");
        assert!(is_dangerous_prefix(format!("{d}/x/y").as_bytes()), "{d}");
        assert!(!is_dangerous_prefix(format!("{d}x").as_bytes()), "{d}");
    }
}

#[test]
fn spelling_of_a_path_does_not_matter() {
    assert!(is_dangerous_prefix(b"//etc//"));
    assert!(is_dangerous_prefix(b"/./usr/./lib"));
    assert!(is_dangerous_prefix(b"///"));
    assert!(!is_dangerous_prefix(b"etc/passwd"));
    assert!(!is_dangerous_prefix(b"/home"));
    assert!(!is_dangerous_prefix(b""));
}

const SWAPS: &[u8] = b"Filename\t\t\t\tType\t\tSize\t\tUsed\t\tPriority\n/swapfile                               file\t\t2097148\t\t0\t\t-2\n/dev/sda3                               partition\t8388604\t\t0\t\t-3\n";

#[test]
fn swap_listing_is_found() {
    assert!(is_swap(SWAPS, b"/swapfile"));
    assert!(is_swap(SWAPS, b"/dev/sda3"));
    assert!(is_swap(SWAPS, b"/dev//sda3/"));
    assert!(!is_swap(SWAPS, b"/dev/sda"));
    assert!(!is_swap(SWAPS, b"Filename"));
    assert!(!is_swap(b"", b"/swapfile"));
}

const MOUNTINFO: &[u8] = b"22 1 8:2 / / rw,relatime shared:1 - ext4 /dev/sda2 rw\n\
36 22 0:30 / /mnt/my\\040disk rw - vfat /dev/sdb1 rw\n\
40 22 0:31 / /tmp rw - tmpfs tmpfs rw\n\
41 22 0:32 / /broken rw\n";

#[test]
fn mount_sources_are_listed_in_order() {
    let s = mount_sources(MOUNTINFO);
    assert_eq!(s, vec![b"/dev/sda2".to_vec(), b"/dev/sdb1".to_vec(), b"tmpfs".to_vec()]);
}

#[test]
fn mounted_device_is_recognised() {
    let mounts = vec![
        MountSource { source: b"/dev/sda2".to_vec(), resolved: None },
        MountSource { source: b"/dev/disk/by-label/x".to_vec(), resolved: Some(b"/dev/sdc1".to_vec()) },
    ];
    assert!(is_mounted_block_device(b"/dev/sda2", &mounts));
    assert!(is_mounted_block_device(b"/dev/sdc1", &mounts));
    assert!(!is_mounted_block_device(b"/dev/sdd", &mounts));
}

#[test]
fn hazards_come_in_order() {
    let mounts = vec![MountSource { source: b"/dev/sda3".to_vec(), resolved: None }];
    assert_eq!(check_path(b"/etc", false, Some(SWAPS), &mounts), Err(Hazard::SystemPath));
    assert_eq!(check_path(b"/etc/x", false, None, &mounts), Err(Hazard::SystemPath));
    assert_eq!(check_path(b"/swapfile", false, Some(SWAPS), &mounts), Err(Hazard::SwapFile));
    assert_eq!(check_path(b"/swapfile", false, None, &mounts), Ok(()));
    assert_eq!(check_path(b"/mnt/sda3", true, Some(SWAPS), &vec![
        MountSource { source: b"/mnt/sda3".to_vec(), resolved: None },
    ]), Err(Hazard::MountedDevice));
    assert_eq!(check_path(b"/mnt/sda3", false, Some(SWAPS), &vec![
        MountSource { source: b"/mnt/sda3".to_vec(), resolved: None },
    ]), Ok(()));
    assert_eq!(check_path(b"/home/me/secret.txt", false, Some(SWAPS), &mounts), Ok(()));
}

#[test]
fn hazard_reasons() {
    assert_eq!(Hazard::SystemPath.reason(), "system path (refusing to wipe OS files)");
    assert_eq!(Hazard::SwapFile.reason(), "active swap (listed in /proc/swaps)");
    assert_eq!(Hazard::MountedDevice.reason(), "block device currently mounted");
}

#[test]
fn block_devices_under_dev_reach_the_drive_policy() {
    let mounts = vec![MountSource { source: b"/dev/sda2".to_vec(), resolved: None }];
    assert_eq!(check_path(b"/dev/nvme0n1", true, Some(SWAPS), &mounts), Ok(()));
    assert_eq!(check_path(b"/dev/sda2", true, Some(SWAPS), &mounts), Err(Hazard::MountedDevice));
    assert_eq!(check_path(b"/dev/sda3", true, Some(SWAPS), &mounts), Err(Hazard::SwapFile));
    assert_eq!(check_path(b"/dev/null", false, Some(SWAPS), &mounts), Err(Hazard::SystemPath));
}
