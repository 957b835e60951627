//! Decisions of the main fuckening: how many workers to start, which flash
//! devices have already been warned about, which input stops the run, and
//! the exit code.

use vstd::prelude::*;
use crate::pathname::{path_eq, spec_path_eq, vec_views, DOT};
use crate::text::copy_range;
use crate::drive::{handle_block_device, spec_handle_block_device, BlockPlan, DriveKind, EraseTool};
use crate::safety::Hazard;

verus! {

/// One worker per available core (four when that cannot be told), but no
/// more workers than targets, and at least one.
pub open spec fn spec_worker_count(parallelism: Option<usize>, n_files: usize) -> int {
    let cores: int = match parallelism {
        Some(p) => p as int,
        None => 4,
    };
    let wanted: int = if n_files == 0 {
        1
    } else {
        n_files as int
    };
    if cores < wanted {
        cores
    } else {
        wanted
    }
}

/// Law: the pool never has more workers than cores (four when unknown),
/// nor more than there are targets (one for an empty list), and it uses
/// all the cores it may: as many as one of the two bounds; with at least
/// one core there is at least one worker.
pub proof fn lemma_worker_count(parallelism: Option<usize>, n_files: usize)
    ensures
        (parallelism matches Some(p) ==> spec_worker_count(parallelism, n_files) <= p),
        parallelism is None ==> spec_worker_count(parallelism, n_files) <= 4,
        n_files > 0 ==> spec_worker_count(parallelism, n_files) <= n_files,
        n_files == 0 ==> spec_worker_count(parallelism, n_files) <= 1,
        (parallelism matches Some(p) && p >= 1) || parallelism is None ==> spec_worker_count(
            parallelism,
            n_files,
        ) >= 1,
        spec_worker_count(parallelism, n_files) == (if n_files == 0 {
            1
        } else {
            n_files as int
        }) || spec_worker_count(parallelism, n_files) == (match parallelism {
            Some(p) => p as int,
            None => 4,
        }),
{
}

/// The size of the worker pool.
pub fn worker_count(parallelism: Option<usize>, n_files: usize) -> (r: usize)
    ensures
        r == spec_worker_count(parallelism, n_files),
{
    let cores = match parallelism {
        Some(p) => p,
        None => 4,
    };
    let wanted = if n_files == 0 {
        1
    } else {
        n_files
    };
    if cores < wanted {
        cores
    } else {
        wanted
    }
}

/// The flash devices that a regular-file target has been found on, so
/// that each is warned about once.
pub struct FlashWarnings {
    devices: Vec<Vec<u8>>,
}

impl FlashWarnings {
    /// The devices seen so far.
    pub closed spec fn devices(&self) -> Seq<Seq<u8>> {
        vec_views(self.devices@)
    }

    /// No device seen yet.
    pub fn new() -> (r: Self)
        ensures
            r.devices() == Seq::<Seq<u8>>::empty(),
    {
        let r = FlashWarnings { devices: Vec::new() };
        assert(r.devices() =~= Seq::<Seq<u8>>::empty());
        r
    }

    /// Note a device; true when it had not been seen before (as a path,
    /// component by component).
    pub fn note(&mut self, device: &[u8]) -> (r: bool)
        ensures
            r == !(exists|i: int|
                0 <= i < old(self).devices().len() && spec_path_eq(
                    #[trigger] old(self).devices()[i],
                    device@,
                )),
            final(self).devices() == noted(old(self).devices(), device@),
    {
        let mut i: usize = 0;
        while i < self.devices.len()
            invariant
                i <= self.devices@.len(),
                self.devices@ == old(self).devices@,
                forall|k: int|
                    0 <= k < i ==> !spec_path_eq(#[trigger] old(self).devices()[k], device@),
            decreases self.devices@.len() - i,
        {
            if path_eq(self.devices[i].as_slice(), device) {
                assert(spec_path_eq(old(self).devices()[i as int], device@));
                return false;
            }
            i += 1;
        }
        let copy = copy_range(device, 0, device.len());
        assert(copy@ =~= device@);
        self.devices.push(copy);
        assert(self.devices() =~= old(self).devices().push(device@));
        true
    }

    /// A regular-file target sits on `device` of kind `kind`: note the
    /// device when it is flash, and warn (true) when it is flash, not seen
    /// before, and `--rape` was not given. The device is noted even under
    /// `--rape`.
    pub fn warn_for(&mut self, device: &[u8], kind: DriveKind, rape: bool) -> (r: bool)
        ensures
            final(self).devices() == if kind.spec_is_flash() {
                noted(old(self).devices(), device@)
            } else {
                old(self).devices()
            },
            r == (kind.spec_is_flash() && !(exists|i: int|
                0 <= i < old(self).devices().len() && spec_path_eq(
                    #[trigger] old(self).devices()[i],
                    device@,
                )) && !rape),
    {
        kind.is_flash() && self.note(device) && !rape
    }
}

/// The devices after noting `device`.
pub open spec fn noted(devices: Seq<Seq<u8>>, device: Seq<u8>) -> Seq<Seq<u8>> {
    if exists|i: int| 0 <= i < devices.len() && spec_path_eq(#[trigger] devices[i], device) {
        devices
    } else {
        devices.push(device)
    }
}

/// Law: a flash device is warned about at most once: once noted, the same
/// device (under any spelling of its path) is no longer new.
pub proof fn lemma_warn_once(devices: Seq<Seq<u8>>, device: Seq<u8>, again: Seq<u8>)
    requires
        spec_path_eq(device, again),
    ensures
        exists|i: int|
            0 <= i < noted(devices, device).len() && spec_path_eq(
                #[trigger] noted(devices, device)[i],
                again,
            ),
{
    if exists|i: int| 0 <= i < devices.len() && spec_path_eq(#[trigger] devices[i], device) {
        let i = choose|i: int| 0 <= i < devices.len() && spec_path_eq(#[trigger] devices[i], device);
        assert(spec_path_eq(noted(devices, device)[i], again));
    } else {
        let n = devices.len() as int;
        assert(noted(devices, device)[n] == device);
        assert(spec_path_eq(noted(devices, device)[n], again));
    }
}

/// What happens to one target in the run, once its checks are in.
#[derive(Clone, Copy, Debug, PartialEq, Eq, Structural)]
pub enum TargetAction {
    /// A hazard without `--rape`: explain it and stop the run (one failure).
    Refuse(Hazard),
    /// Run the drive's secure-erase instead of an overwrite; stop the run
    /// if it fails, skip the target if it succeeds.
    SecureErase(EraseTool),
    /// `--secure-erase` on a drive that cannot be classified: stop the run.
    CannotErase,
    /// Flash without `--rape`: print the native erase commands and stop
    /// the run.
    RefuseFlash,
    /// Queue the target for overwriting.
    Wipe,
}

/// The hazard that stops the run: a check that failed, when `--rape` was
/// not given.
pub open spec fn spec_hazard_stop(rape: bool, verdict: Result<(), Hazard>) -> Option<Hazard> {
    match verdict {
        Err(h) => if rape {
            None
        } else {
            Some(h)
        },
        Ok(()) => None,
    }
}

/// Does this safety verdict stop the run? `--rape` overrides every check.
pub fn hazard_stop(rape: bool, verdict: Result<(), Hazard>) -> (r: Option<Hazard>)
    ensures
        r == spec_hazard_stop(rape, verdict),
{
    match verdict {
        Err(h) => if rape {
            None
        } else {
            Some(h)
        },
        Ok(()) => None,
    }
}

/// The first of the user's inputs whose safety verdict stops the run,
/// with its hazard: the whole list is checked before anything is walked
/// or wiped, and `--rape` lets every input through.
pub fn first_stop(rape: bool, verdicts: &[Result<(), Hazard>]) -> (r: Option<(usize, Hazard)>)
    ensures
        match r {
            Some((i, h)) => {
                &&& !rape
                &&& i < verdicts@.len()
                &&& verdicts@[i as int] == Err::<(), Hazard>(h)
                &&& forall|k: int| 0 <= k < i ==> (#[trigger] verdicts@[k]) is Ok
            },
            None => rape || forall|k: int| 0 <= k < verdicts@.len() ==> (#[trigger] verdicts@[k]) is Ok,
        },
{
    if rape {
        return None;
    }
    let mut i: usize = 0;
    while i < verdicts.len()
        invariant
            !rape,
            i <= verdicts@.len(),
            forall|k: int| 0 <= k < i ==> (#[trigger] verdicts@[k]) is Ok,
        decreases verdicts@.len() - i,
    {
        match hazard_stop(rape, verdicts[i]) {
            Some(h) => {
                return Some((i, h));
            },
            None => {},
        }
        i += 1;
    }
    None
}

/// A run with no targets left after the file list was expanded stops
/// with "nothing to wipe", unless the free space is to be wiped.
pub fn nothing_to_wipe(n_targets: usize, wipe_free: bool) -> (r: bool)
    ensures
        r == (n_targets == 0 && !wipe_free),
{
    n_targets == 0 && !wipe_free
}

/// Where the free-space fill looks for its filesystem: the first input,
/// or the current directory when there is none.
pub fn freespace_hint(inputs: &Vec<Vec<u8>>) -> (r: Vec<u8>)
    ensures
        r@ == if inputs@.len() > 0 {
            inputs@[0]@
        } else {
            seq![DOT]
        },
{
    if inputs.len() > 0 {
        let first = &inputs[0];
        copy_range(first.as_slice(), 0, first.len())
    } else {
        let mut r: Vec<u8> = Vec::new();
        r.push(DOT);
        assert(r@ =~= seq![DOT]);
        r
    }
}

/// The action for one target: a hazard (without `--rape`) stops the run;
/// a block device of kind `k` goes by the drive policy; anything else is
/// wiped.
pub open spec fn spec_target_action(
    rape: bool,
    secure_erase: bool,
    verdict: Result<(), Hazard>,
    block: Option<DriveKind>,
) -> TargetAction {
    match spec_hazard_stop(rape, verdict) {
        Some(h) => TargetAction::Refuse(h),
        None => match block {
            None => TargetAction::Wipe,
            Some(k) => match spec_handle_block_device(k, rape, secure_erase) {
                BlockPlan::SecureErase(t) => TargetAction::SecureErase(t),
                BlockPlan::CannotErase => TargetAction::CannotErase,
                BlockPlan::Refuse => TargetAction::RefuseFlash,
                BlockPlan::Overwrite => TargetAction::Wipe,
            },
        },
    }
}

/// Decide one target. `verdict` is its safety verdict (only consulted
/// without `--rape`), `block` its drive kind when it is a block device.
pub fn target_action(
    rape: bool,
    secure_erase: bool,
    verdict: Result<(), Hazard>,
    block: Option<DriveKind>,
) -> (r: TargetAction)
    ensures
        r == spec_target_action(rape, secure_erase, verdict, block),
{
    match hazard_stop(rape, verdict) {
        Some(h) => TargetAction::Refuse(h),
        None => match block {
            None => TargetAction::Wipe,
            Some(k) => match handle_block_device(k, rape, secure_erase) {
                BlockPlan::SecureErase(t) => TargetAction::SecureErase(t),
                BlockPlan::CannotErase => TargetAction::CannotErase,
                BlockPlan::Refuse => TargetAction::RefuseFlash,
                BlockPlan::Overwrite => TargetAction::Wipe,
            },
        },
    }
}

/// Law: an unhazardous flash block device is refused with the native
/// advice unless `--secure-erase` (which erases it natively) or `--rape`
/// (which overwrites it) is given; nothing is overwritten past a hazard
/// without `--rape`.
pub proof fn lemma_flash_target(
    rape: bool,
    secure_erase: bool,
    verdict: Result<(), Hazard>,
    kind: DriveKind,
)
    ensures
        verdict is Ok && kind.spec_is_flash() && !rape && !secure_erase ==> spec_target_action(
            rape,
            secure_erase,
            verdict,
            Some(kind),
        ) == TargetAction::RefuseFlash,
        verdict is Ok && kind == DriveKind::Nvme && secure_erase ==> spec_target_action(
            rape,
            secure_erase,
            verdict,
            Some(kind),
        ) == TargetAction::SecureErase(EraseTool::NvmeFormat),
        verdict is Err && !rape ==> spec_target_action(rape, secure_erase, verdict, Some(kind))
            != TargetAction::Wipe,
{
}

/// Law: what each action of a target implies of its checks. A refusal
/// carries the target's own hazard and only comes without `--rape`; a
/// target is wiped only when its checks passed (or `--rape`), it is not a
/// secure-erased block device, and it is no flash device unless `--rape`;
/// secure-erase and its failure to classify only come with
/// `--secure-erase` on a block device; a refused flash device is flash.
pub proof fn lemma_target_actions(
    rape: bool,
    secure_erase: bool,
    verdict: Result<(), Hazard>,
    block: Option<DriveKind>,
)
    ensures
        (spec_target_action(rape, secure_erase, verdict, block) matches TargetAction::Refuse(h)
            ==> !rape && verdict == Err::<(), Hazard>(h)),
        (verdict matches Err(h) ==> (!rape ==> spec_target_action(
            rape,
            secure_erase,
            verdict,
            block,
        ) == TargetAction::Refuse(h))),
        spec_target_action(rape, secure_erase, verdict, block) == TargetAction::Wipe ==> (rape
            || verdict is Ok) && (block matches Some(k) ==> (!secure_erase && (k.spec_is_flash()
            ==> rape))),
        spec_target_action(rape, secure_erase, verdict, block) is SecureErase ==> secure_erase
            && block is Some,
        spec_target_action(rape, secure_erase, verdict, block) == TargetAction::CannotErase
            ==> secure_erase && block == Some(DriveKind::Unknown),
        spec_target_action(rape, secure_erase, verdict, block) == TargetAction::RefuseFlash ==> !rape
            && !secure_erase && (block matches Some(k) && k.spec_is_flash()),
        (rape || verdict is Ok) && block is None ==> spec_target_action(
            rape,
            secure_erase,
            verdict,
            block,
        ) == TargetAction::Wipe,
{
}

/// The exit code of a run that got as far as wiping: 0 when every target
/// took its dicking, 1 when any failed.
pub fn exit_code(failures: u32) -> (r: i32)
    ensures
        r == if failures == 0 {
            0i32
        } else {
            1i32
        },
{
    if failures == 0 {
        0
    } else {
        1
    }
}

} // verus!
