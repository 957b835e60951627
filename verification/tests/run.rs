use wipedicks::drive::{DriveKind, EraseTool};
use wipedicks::run::{
    exit_code, first_stop, freespace_hint, hazard_stop, nothing_to_wipe, target_action,
    worker_count, FlashWarnings, TargetAction,
};
use wipedicks::safety::Hazard;

#[test]
fn worker_pool_size() {
    assert_eq!(worker_count(Some(8), 3), 3);
    assert_eq!(worker_count(Some(2), 30), 2);
    assert_eq!(worker_count(None, 30), 4);
    assert_eq!(worker_count(Some(8), 0), 1);
}

#[test]
fn flash_devices_warned_once() {
    let mut w = FlashWarnings::new();
    assert!(w.note(b"/dev/nvme0n1"));
    assert!(!w.note(b"/dev/nvme0n1"));
    assert!(!w.note(b"/dev//nvme0n1/"));
    assert!(w.note(b"/dev/sda"));
}

#[test]
fn exit_codes() {
    assert_eq!(exit_code(0), 0);
    assert_eq!(exit_code(3), 1);
}

#[test]
fn targets_are_decided() {
    let ok = Ok(());
    let bad = Err(Hazard::SwapFile);
    assert_eq!(hazard_stop(false, bad), Some(Hazard::SwapFile));
    assert_eq!(hazard_stop(true, bad), None);
    assert_eq!(hazard_stop(false, ok), None);
    assert_eq!(target_action(false, false, bad, None), TargetAction::Refuse(Hazard::SwapFile));
    assert_eq!(target_action(true, false, bad, None), TargetAction::Wipe);
    assert_eq!(target_action(false, false, ok, None), TargetAction::Wipe);
    assert_eq!(target_action(false, false, ok, Some(DriveKind::Nvme)), TargetAction::RefuseFlash);
    assert_eq!(
        target_action(false, true, ok, Some(DriveKind::Nvme)),
        TargetAction::SecureErase(EraseTool::NvmeFormat)
    );
    assert_eq!(target_action(false, true, ok, Some(DriveKind::Unknown)), TargetAction::CannotErase);
    assert_eq!(target_action(true, false, ok, Some(DriveKind::Sata)), TargetAction::Wipe);
    assert_eq!(target_action(false, false, ok, Some(DriveKind::Rotational)), TargetAction::Wipe);
}

#[test]
fn flash_warning_rules() {
    let mut w = FlashWarnings::new();
    assert!(!w.warn_for(b"/dev/sda", DriveKind::Rotational, false));
    assert!(w.warn_for(b"/dev/sda", DriveKind::Sata, false));
    assert!(!w.warn_for(b"/dev/sda", DriveKind::Sata, false));
    // noted even under --rape, but no warning then
    assert!(!w.warn_for(b"/dev/nvme0n1", DriveKind::Nvme, true));
    assert!(!w.warn_for(b"/dev/nvme0n1", DriveKind::Nvme, false));
}

#[test]
fn the_first_hazardous_input_stops_the_run() {
    let verdicts = vec![Ok(()), Err(Hazard::SwapFile), Err(Hazard::SystemPath)];
    assert_eq!(first_stop(false, &verdicts), Some((1, Hazard::SwapFile)));
    assert_eq!(first_stop(true, &verdicts), None);
    assert_eq!(first_stop(false, &[Ok(()), Ok(())]), None);
    assert_eq!(first_stop(false, &[]), None);
}

#[test]
fn nothing_to_wipe_unless_free_space() {
    assert!(nothing_to_wipe(0, false));
    assert!(!nothing_to_wipe(0, true));
    assert!(!nothing_to_wipe(2, false));
}

#[test]
fn free_space_hint_is_the_first_input() {
    assert_eq!(freespace_hint(&vec![b"/mnt/x".to_vec(), b"/y".to_vec()]), b"/mnt/x".to_vec());
    assert_eq!(freespace_hint(&vec![]), b".".to_vec());
}
