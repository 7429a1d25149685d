use crate::display_args::DisplayArgs;
use crate::display_change::{DisplayChangeErr, DisplayChangeOk};
use crate::maps::{new_roster, roster_get, roster_insert, roster_of, settings_entries, RosterMap};
use crate::set_cli::SetCli;
use vstd::prelude::*;

verus! {

/// The displays that the backend reports as active: the device name of each
/// display index.
pub struct DeviceRoster {
    pub devices: RosterMap,
}

impl DeviceRoster {
    /// The device name of each display index.
    pub open spec fn view(&self) -> Map<u32, Seq<char>> {
        roster_of(self.devices)
    }
}

/// The state flag of a display device that is part of the desktop.
pub const DISPLAY_DEVICE_ACTIVE: u32 = 1;

/// A device whose state flags are `flags` is active.
pub open spec fn is_active(flags: u32) -> bool {
    flags & DISPLAY_DEVICE_ACTIVE == DISPLAY_DEVICE_ACTIVE
}

/// The active devices among `ds`, pairs of state flags and device name in
/// the order of enumeration: each one's display index, which is its position
/// among all devices counted from 1, and its name.
pub open spec fn active_devices(ds: Seq<(u32, String)>) -> Seq<(u32, Seq<char>)>
    decreases ds.len(),
{
    if ds.len() == 0 {
        Seq::empty()
    } else {
        let p = active_devices(ds.drop_last());
        if is_active(ds.last().0) {
            p.push((ds.len() as u32, ds.last().1@))
        } else {
            p
        }
    }
}

/// Keeps the active devices of an enumeration, numbered as `active_devices`
/// says.
pub fn get_active_display_devices(devices: &Vec<(u32, String)>) -> (r: Vec<(u32, String)>)
    requires
        devices@.len() < u32::MAX,
    ensures
        r@.len() == active_devices(devices@).len(),
        forall|i: int|
            0 <= i < r@.len() ==> (#[trigger] r@[i]).0 == active_devices(devices@)[i].0
                && r@[i].1@ == active_devices(devices@)[i].1,
{
    let mut r: Vec<(u32, String)> = Vec::new();
    let mut i: usize = 0;
    while i < devices.len()
        invariant
            i <= devices@.len() < u32::MAX,
            r@.len() == active_devices(devices@.subrange(0, i as int)).len(),
            forall|j: int|
                0 <= j < r@.len() ==> (#[trigger] r@[j]).0 == active_devices(
                    devices@.subrange(0, i as int),
                )[j].0 && r@[j].1@ == active_devices(devices@.subrange(0, i as int))[j].1,
        decreases devices@.len() - i,
    {
        let ghost next = devices@.subrange(0, i + 1 as int);
        assert(next.drop_last() =~= devices@.subrange(0, i as int));
        let flags = devices[i].0;
        if flags & DISPLAY_DEVICE_ACTIVE == DISPLAY_DEVICE_ACTIVE {
            r.push(((i + 1) as u32, devices[i].1.clone()));
        }
        i = i + 1;
    }
    assert(devices@.subrange(0, devices@.len() as int) =~= devices@);
    r
}

/// The roster that the enumerated devices `ds` make, a later entry for an
/// index replacing an earlier one.
pub open spec fn roster_from(ds: Seq<(u32, String)>) -> Map<u32, Seq<char>>
    decreases ds.len(),
{
    if ds.len() == 0 {
        Map::empty()
    } else {
        roster_from(ds.drop_last()).insert(ds.last().0, ds.last().1@)
    }
}

/// Builds the roster of the enumerated devices `devices`, pairs of display
/// index and device name.
pub fn dd_to_u32_pcstr_hashmap(devices: &Vec<(u32, String)>) -> (r: DeviceRoster)
    ensures
        r@ == roster_from(devices@),
{
    let mut m = new_roster();
    let mut i: usize = 0;
    while i < devices.len()
        invariant
            i <= devices@.len(),
            roster_of(m) == roster_from(devices@.subrange(0, i as int)),
        decreases devices@.len() - i,
    {
        let ghost next = devices@.subrange(0, i + 1 as int);
        assert(next.drop_last() =~= devices@.subrange(0, i as int));
        roster_insert(&mut m, devices[i].0, devices[i].1.clone());
        i = i + 1;
    }
    assert(devices@.subrange(0, devices@.len() as int) =~= devices@);
    DeviceRoster { devices: m }
}

/// What became of one requested change.
#[derive(Clone, Copy, Debug, PartialEq, Eq, Structural)]
pub enum OperationOutcome {
    /// The new refresh rate is in effect.
    Applied,
    /// The new refresh rate takes effect after a restart.
    AppliedNeedsRestart,
    /// The backend did not make the change.
    Failed(DisplayChangeErr),
    /// No active display has the requested index.
    UnknownIndex,
}

impl OperationOutcome {
    /// The change was made.
    pub open spec fn is_success(self) -> bool {
        self is Applied || self is AppliedNeedsRestart
    }
}

/// The outcome of a change that reached the backend, from what it answered.
pub open spec fn outcome_of(result: Result<DisplayChangeOk, DisplayChangeErr>) -> OperationOutcome {
    match result {
        Ok(DisplayChangeOk::Applied) => OperationOutcome::Applied,
        Ok(DisplayChangeOk::NeedRestart) => OperationOutcome::AppliedNeedsRestart,
        Err(e) => OperationOutcome::Failed(e),
    }
}

/// Every change of `outcomes` was made.
pub open spec fn all_succeeded(outcomes: Seq<OperationOutcome>) -> bool {
    forall|i: int| 0 <= i < outcomes.len() ==> (#[trigger] outcomes[i]).is_success()
}

/// What the caller is to do next in a batch run.
#[derive(Debug)]
pub enum Step {
    /// Ask the backend to set `refresh_rate` on the device `device_name`,
    /// which is display `index`, then report its answer.
    Apply { index: u32, device_name: String, refresh_rate: u32 },
    /// Report that no active display has index `index`; the run goes on.
    Unknown { index: u32 },
    /// Every request has its outcome; the run succeeded if and only if
    /// `success` holds.
    Done { success: bool },
}

/// The state of a run that applies a batch of requests one at a time.
pub struct BatchRun {
    targets: Vec<DisplayArgs>,
    outcomes: Vec<OperationOutcome>,
    awaiting: bool,
}

impl BatchRun {
    /// The requests of the run, in the order in which they are handled.
    pub closed spec fn targets(&self) -> Seq<DisplayArgs> {
        self.targets@
    }

    /// The outcome of each request handled so far, in order.
    pub closed spec fn outcomes(&self) -> Seq<OperationOutcome> {
        self.outcomes@
    }

    /// The backend's answer for the next request is awaited.
    pub closed spec fn awaiting(&self) -> bool {
        self.awaiting
    }

    /// No request has two outcomes, and an awaited answer belongs to a
    /// request that has none yet.
    pub open spec fn wf(&self) -> bool {
        &&& self.outcomes().len() <= self.targets().len()
        &&& self.awaiting() ==> self.outcomes().len() < self.targets().len()
    }

    /// Starts the run of the batch `settings`: each of its requests once, in
    /// the map's own order, and nothing handled yet.
    pub fn new(settings: &SetCli) -> (r: BatchRun)
        ensures
            r.wf(),
            r.outcomes().len() == 0,
            !r.awaiting(),
            r.targets().len() == settings@.len(),
            forall|i: int|
                0 <= i < r.targets().len() ==> settings@.contains_key(#[trigger] r.targets()[i].0)
                    && settings@[r.targets()[i].0] == r.targets()[i].1.refresh_rate,
            forall|k: u32| #[trigger]
                settings@.contains_key(k) ==> exists|i: int|
                    0 <= i < r.targets().len() && r.targets()[i].0 == k,
            forall|i: int, j: int|
                0 <= i < j < r.targets().len() ==> r.targets()[i].0 != r.targets()[j].0,
    {
        BatchRun {
            targets: settings_entries(&settings.display_settings),
            outcomes: Vec::new(),
            awaiting: false,
        }
    }

    /// Decides what to do with the next request, given the active displays.
    ///
    /// A request whose index `roster` lacks gets the outcome `UnknownIndex`
    /// at once. One whose index it has is handed to the caller to apply, and
    /// the run then waits for `record`. Once every request has its outcome,
    /// the run is done, and succeeded if and only if every change was made.
    pub fn next_step(&mut self, roster: &DeviceRoster) -> (r: Step)
        requires
            old(self).wf(),
            !old(self).awaiting(),
        ensures
            final(self).wf(),
            final(self).targets() == old(self).targets(),
            old(self).outcomes().len() == old(self).targets().len() ==> {
                &&& r == (Step::Done { success: all_succeeded(old(self).outcomes()) })
                &&& final(self).outcomes() == old(self).outcomes()
                &&& !final(self).awaiting()
            },
            old(self).outcomes().len() < old(self).targets().len() ==> {
                let t = old(self).targets()[old(self).outcomes().len() as int];
                &&& !roster@.contains_key(t.0) ==> {
                    &&& r == (Step::Unknown { index: t.0 })
                    &&& final(self).outcomes() == old(self).outcomes().push(
                        OperationOutcome::UnknownIndex,
                    )
                    &&& !final(self).awaiting()
                }
                &&& roster@.contains_key(t.0) ==> {
                    &&& r matches Step::Apply { index, device_name, refresh_rate }
                    &&& r->Apply_index == t.0
                    &&& r->Apply_device_name@ == roster@[t.0]
                    &&& r->Apply_refresh_rate == t.1.refresh_rate
                    &&& final(self).outcomes() == old(self).outcomes()
                    &&& final(self).awaiting()
                }
            },
    {
        let n = self.outcomes.len();
        if n == self.targets.len() {
            let mut success = true;
            let mut i: usize = 0;
            while i < n
                invariant
                    i <= n,
                    n == self.outcomes@.len(),
                    success == all_succeeded(self.outcomes@.subrange(0, i as int)),
                decreases n - i,
            {
                let ghost prefix = self.outcomes@.subrange(0, i as int);
                let ghost next = self.outcomes@.subrange(0, i + 1 as int);
                assert(next.drop_last() =~= prefix);
                let o = self.outcomes[i];
                let ok = match o {
                    OperationOutcome::Applied => true,
                    OperationOutcome::AppliedNeedsRestart => true,
                    _ => false,
                };
                assert(ok == next[i as int].is_success());
                assert(all_succeeded(next) == (all_succeeded(prefix) && ok)) by {
                    if all_succeeded(prefix) && ok {
                        assert forall|j: int| 0 <= j < next.len() implies (
                        #[trigger] next[j]).is_success() by {
                            if j < i {
                                assert(next[j] == prefix[j]);
                            }
                        }
                    }
                    if all_succeeded(next) {
                        assert forall|j: int| 0 <= j < prefix.len() implies (
                        #[trigger] prefix[j]).is_success() by {
                            assert(next[j] == prefix[j]);
                        }
                    }
                }
                success = success && ok;
                i = i + 1;
            }
            assert(self.outcomes@.subrange(0, n as int) =~= self.outcomes@);
            return Step::Done { success };
        }
        let t = self.targets[n];
        match roster_get(&roster.devices, t.0) {
            None => {
                self.outcomes.push(OperationOutcome::UnknownIndex);
                Step::Unknown { index: t.0 }
            },
            Some(device_name) => {
                self.awaiting = true;
                Step::Apply { index: t.0, device_name, refresh_rate: t.1.refresh_rate }
            },
        }
    }

    /// Records the backend's answer for the request handed out by the last
    /// `next_step`, and returns that request's outcome.
    pub fn record(&mut self, result: Result<DisplayChangeOk, DisplayChangeErr>) -> (r:
        OperationOutcome)
        requires
            old(self).wf(),
            old(self).awaiting(),
        ensures
            r == outcome_of(result),
            final(self).wf(),
            !final(self).awaiting(),
            final(self).targets() == old(self).targets(),
            final(self).outcomes() == old(self).outcomes().push(r),
    {
        let r = match result {
            Ok(DisplayChangeOk::Applied) => OperationOutcome::Applied,
            Ok(DisplayChangeOk::NeedRestart) => OperationOutcome::AppliedNeedsRestart,
            Err(e) => OperationOutcome::Failed(e),
        };
        self.outcomes.push(r);
        self.awaiting = false;
        r
    }
}

/// The process exit status of a run: 0 on success, 1 otherwise.
pub fn exit_code(success: bool) -> (r: u8)
    ensures
        r == 0 <==> success,
        r == 0 || r == 1,
{
    if success {
        0
    } else {
        1
    }
}

} // verus!
