use wipedicks::dicks::{generate, new_rng, DickConfig};
use wipedicks::wipe::{
    check_chunk, first_non_dick, freespace_step, freespace_temp, input_action, parent,
    plan_target, progress_total, read_want, FreespaceStep, InputAction, RoundProgress,
    TargetPlan, VerifyError, WriteOutcome,
};
use std::path::Path;

#[test]
fn inputs_are_triaged() {
    assert_eq!(input_action(true, false, true, false), InputAction::Take);
    assert_eq!(input_action(false, true, true, true), InputAction::Walk);
    assert_eq!(input_action(false, true, true, false), InputAction::SkipDirectory);
    assert_eq!(input_action(false, false, true, false), InputAction::Take);
    assert_eq!(input_action(false, false, false, true), InputAction::SkipMissing);
}

#[test]
fn progress_totals_saturate() {
    assert_eq!(progress_total(100, 3, false), 300);
    assert_eq!(progress_total(100, 3, true), 600);
    assert_eq!(progress_total(u64::MAX / 2 + 1, 1, true), u64::MAX);
    assert_eq!(progress_total(u64::MAX, 2, false), u64::MAX);
    assert_eq!(progress_total(7, 0, true), 0);
}

#[test]
fn a_round_covers_exactly_the_target() {
    let mut p = RoundProgress::new(10);
    let mut chunks = Vec::new();
    while !p.is_done() {
        let n = p.next_chunk(4);
        chunks.push(n);
        p.advance(n);
    }
    assert_eq!(chunks, vec![4, 4, 2]);
    assert_eq!(p.written(), 10);
    assert!(RoundProgress::new(0).is_done());
}

#[test]
fn read_back_checks() {
    assert_eq!(first_non_dick(b"8==D~ 8#D "), None);
    assert_eq!(first_non_dick(b"8==Dx~"), Some(4));
    assert_eq!(check_chunk(b"8=D ", 10), Ok(()));
    assert_eq!(check_chunk(b"", 10), Err(VerifyError::ShortRead { offset: 10 }));
    assert_eq!(check_chunk(b"8=\0D", 100), Err(VerifyError::NotADick { byte: 0, offset: 102 }));
    assert_eq!(read_want(100, 90, 64), 10);
    assert_eq!(read_want(1000, 0, 64), 64);
}

#[test]
fn generated_bytes_pass_read_back() {
    let cfg = DickConfig { shaft_min: 0, shaft_max: 40, jizz_min: 0, jizz_max: 40, balls_chance: 1 << 20 };
    let mut rng = new_rng().unwrap();
    let data = generate(&mut rng, &cfg, 5000);
    assert_eq!(check_chunk(&data, 123), Ok(()));
    assert_eq!(first_non_dick(&data), None);
}

#[test]
fn freespace_temp_goes_next_to_the_hint() {
    assert_eq!(freespace_temp(b"/mnt/data", true), b"/mnt/data/wipedicks-freespace.tmp".to_vec());
    assert_eq!(freespace_temp(b"/mnt/data/", true), b"/mnt/data/wipedicks-freespace.tmp".to_vec());
    assert_eq!(freespace_temp(b"/mnt/data/file.txt", false), b"/mnt/data/wipedicks-freespace.tmp".to_vec());
    assert_eq!(freespace_temp(b"/file.txt", false), b"/wipedicks-freespace.tmp".to_vec());
    assert_eq!(freespace_temp(b"file.txt", false), b"wipedicks-freespace.tmp".to_vec());
    assert_eq!(freespace_temp(b"./file.txt", false), b"./wipedicks-freespace.tmp".to_vec());
    assert_eq!(freespace_temp(b"/", false), b"./wipedicks-freespace.tmp".to_vec());
    assert_eq!(freespace_temp(b"", false), b"./wipedicks-freespace.tmp".to_vec());
    assert_eq!(freespace_temp(b".", true), b"./wipedicks-freespace.tmp".to_vec());
}

#[test]
fn parent_names_the_same_directory_as_std() {
    for p in ["/a/b/c", "a//b/./c/", "/a", "a", "./a", "../x/y", "/", "", ".", "a/..", "/a/b/"] {
        let ours = parent(p.as_bytes()).map(|v| String::from_utf8(v).unwrap());
        let std_parent = Path::new(p).parent().map(|q| q.to_str().unwrap().to_string());
        match (&ours, &std_parent) {
            (Some(a), Some(b)) => {
                let ca: Vec<_> = Path::new(a).components().collect();
                let cb: Vec<_> = Path::new(b).components().collect();
                assert_eq!(ca, cb, "parent of {:?}", p);
            }
            (None, None) => {}
            _ => panic!("parent of {:?}: {:?} vs {:?}", p, ours, std_parent),
        }
    }
}

#[test]
fn freespace_fill_stops_on_a_full_disk() {
    assert_eq!(freespace_step(WriteOutcome::Written), FreespaceStep::Continue);
    assert_eq!(freespace_step(WriteOutcome::StorageFull), FreespaceStep::Done);
    assert_eq!(freespace_step(WriteOutcome::Other), FreespaceStep::Fail);
}

#[test]
fn uneven_buffers_still_cover_the_round() {
    let mut p = RoundProgress::new(10);
    let mut total = 0;
    for avail in [3usize, 1, 5, 7, 9] {
        let n = p.next_chunk(avail);
        p.advance(n);
        total += n;
    }
    assert_eq!(total, 10);
    assert!(p.is_done());
    assert_eq!(p.next_chunk(64), 0);
}

#[test]
fn files_are_unlinked_and_devices_kept() {
    assert_eq!(plan_target(false, 100, 3, true), TargetPlan { progress_total: 600, unlink: true });
    assert_eq!(plan_target(true, 100, 1, false), TargetPlan { progress_total: 100, unlink: false });
}
