use wipedicks::drive::{
    erase_commands, erase_step, refusal_advice, Arg, DriveKind, EraseStep, EraseTool,
};
use wipedicks::safety::Hazard;
use wipedicks::verbs::{pick_verb, send_off_plain, verb_at, VERB_COUNT};
use wipedicks::dicks::new_rng;

fn argv_text(tool: EraseTool, dev: &str) -> Vec<String> {
    erase_commands(tool)
        .iter()
        .map(|c| {
            c.argv
                .iter()
                .map(|a| match a {
                    Arg::Word(w) => w.clone(),
                    Arg::Device => dev.to_string(),
                })
                .collect::<Vec<String>>()
                .join(" ")
        })
        .collect()
}

#[test]
fn nvme_refusal_names_the_native_commands() {
    let lines = refusal_advice("/dev/nvme0n1", "\"/dev/nvme0n1\"", DriveKind::Nvme);
    assert_eq!(lines[1], "8==X  Refusing to overwrite \"/dev/nvme0n1\"");
    assert_eq!(lines[3], "This is flash storage (Nvme). Multi-pass overwrite is:");
    assert_eq!(lines[8], "    sudo nvme format /dev/nvme0n1 -s 1        # user-data erase");
    assert_eq!(lines[9], "    sudo nvme format /dev/nvme0n1 -s 2        # cryptographic erase (SED only)");
    assert_eq!(lines[10], "    sudo nvme sanitize /dev/nvme0n1 --sanact=2 # block erase (if supported)");
    assert_eq!(lines[12], "For self-encrypting drives (TCG Opal), use `sedutil-cli --revertNoErase`.");
    assert_eq!(lines[14], "To run those for you: pass --secure-erase.");
    assert_eq!(lines[15], "To bypass this check anyway: pass --rape.");
    assert_eq!(lines.len(), 17);
}

#[test]
fn sata_refusal_names_hdparm_and_blkdiscard() {
    let lines = refusal_advice("/dev/sda", "\"/dev/sda\"", DriveKind::Sata);
    assert_eq!(lines[3], "This is flash storage (Sata). Multi-pass overwrite is:");
    assert_eq!(lines[8], "    sudo hdparm --user-master u --security-set-pass p /dev/sda");
    assert_eq!(lines[9], "    sudo hdparm --user-master u --security-erase p /dev/sda");
    assert_eq!(lines[11], "Or, for a fast non-cryptographic discard:");
    assert_eq!(lines[12], "    sudo blkdiscard /dev/sda");
    assert_eq!(lines.len(), 19);
}

#[test]
fn other_kinds_get_no_commands() {
    let lines = refusal_advice("/dev/x", "\"/dev/x\"", DriveKind::Unknown);
    assert_eq!(lines.len(), 14);
    assert_eq!(lines[7], "Use the drive's native secure-erase instead:");
    assert_eq!(lines[8], "");
}

#[test]
fn secure_erase_runs_the_native_tools_in_order() {
    assert_eq!(argv_text(EraseTool::NvmeFormat, "/dev/nvme0n1"), vec!["nvme format /dev/nvme0n1 -s 1"]);
    assert_eq!(
        argv_text(EraseTool::Hdparm, "/dev/sda"),
        vec![
            "hdparm --user-master u --security-set-pass p /dev/sda",
            "hdparm --user-master u --security-erase p /dev/sda",
        ]
    );
    let cmds = erase_commands(EraseTool::Hdparm);
    assert_eq!(cmds[0].label, "hdparm --security-set-pass");
    assert_eq!(cmds[1].label, "hdparm --security-erase");
    assert_eq!(cmds[0].spawn_context, "failed to spawn `hdparm`");
    let nvme = erase_commands(EraseTool::NvmeFormat);
    assert_eq!(nvme[0].label, "nvme format");
    assert_eq!(nvme[0].spawn_context, "failed to spawn `nvme` (install nvme-cli)");
}

#[test]
fn a_failed_erase_step_stops_the_erase() {
    assert_eq!(erase_step(0, true, 2), EraseStep::Run(1));
    assert_eq!(erase_step(1, true, 2), EraseStep::Finished);
    assert_eq!(erase_step(0, false, 2), EraseStep::Failed(0));
    assert_eq!(erase_step(1, false, 2), EraseStep::Failed(1));
    assert_eq!(erase_step(0, true, 1), EraseStep::Finished);
}

#[test]
fn refusals_are_explained() {
    let swap = Hazard::SwapFile.explain("/swapfile", "\"/swapfile\"");
    assert_eq!(
        swap,
        vec![
            "",
            "8==X  Refusing to wipe \"/swapfile\"",
            "      Reason: active swap (listed in /proc/swaps)",
            "",
            "      Disable swap first:  sudo swapoff /swapfile",
            "      Then re-run, or pass --rape to wipe anyway.",
            "",
        ]
    );
    let mounted = Hazard::MountedDevice.explain("/dev/sda1", "\"/dev/sda1\"");
    assert_eq!(mounted[4], "      Unmount first:  sudo umount /dev/sda1");
    let system = Hazard::SystemPath.explain("/etc", "\"/etc\"");
    assert_eq!(system[2], "      Reason: system path (refusing to wipe OS files)");
    assert_eq!(system[4], "      Wiping OS files breaks your machine. If you really mean to,");
    assert_eq!(system[5], "      pass --rape.");
}

#[test]
fn the_hall_of_fame() {
    assert_eq!(VERB_COUNT, 23);
    let first = verb_at(0);
    assert_eq!(first.word, "fucked");
    assert_eq!(first.color, 196);
    assert!(first.bold && first.underline && !first.italic);
    assert_eq!(first.emoji, None);
    let last = verb_at(22);
    assert_eq!(last.word, "rawdogged");
    assert_eq!(verb_at(3).emoji.as_deref(), Some("💀"));
    assert_eq!(verb_at(9).word, "pissed on");
    assert!(verb_at(9).italic);
}

#[test]
fn send_offs_without_colors() {
    assert_eq!(send_off_plain("/tmp/a", 0), "/tmp/a fucked");
    assert_eq!(send_off_plain("/tmp/a", 3), "/tmp/a 💀 destroyed");
    assert_eq!(send_off_plain("free space", 21), "free space 🍑 creampied");
}

#[test]
fn verbs_are_drawn_from_the_whole_table() {
    let mut rng = new_rng().unwrap();
    let mut seen = [false; 23];
    for _ in 0..2000 {
        let i = pick_verb(&mut rng);
        assert!(i < VERB_COUNT);
        seen[i] = true;
    }
    assert!(seen.iter().all(|s| *s));
}

#[test]
fn files_on_flash_get_a_warning() {
    let lines = wipedicks::drive::flash_warning("\"/home/a.txt\"", "\"/dev/nvme0n1p2\"");
    assert_eq!(lines.len(), 4);
    assert_eq!(lines[0], "WARNING: \"/home/a.txt\" sits on flash device \"/dev/nvme0n1p2\".");
    assert_eq!(lines[3], "         The file will still be deleted, but treat the wipe as advisory.");
}
