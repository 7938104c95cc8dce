//! Applying a color to every device of the fleet, one device call at a time.
//!
//! A `Dispatch` decides; its driver performs each device call it asks for and
//! reports back whether the call succeeded. Devices are visited in order; each
//! gets its color and then the fixed brightness; the first failed call ends the
//! run, and devices after it are not touched.
use vstd::prelude::*;

verus! {

/// The brightness, in percent, that every device is set to with its color.
pub const BRIGHTNESS_PERCENT: u8 = 50;

/// What the driver of a dispatch is to do next.
#[derive(Clone, Copy, Debug, PartialEq, Eq, Structural)]
pub enum DeviceAction {
    /// Set the color of the device at this index, at once and without transition.
    SetColor { device: usize, value: u32 },
    /// Set the brightness of the device at this index, at once and without transition.
    SetBrightness { device: usize, percent: u8 },
    /// Every device call succeeded.
    Succeeded,
    /// A call on the device at this index failed; nothing further is sent.
    Failed { device: usize },
}

/// The `k`-th device call of a run that applies `color`.
pub open spec fn call_at(color: u32, k: nat) -> DeviceAction {
    if k % 2 == 0 {
        DeviceAction::SetColor { device: (k / 2) as usize, value: color }
    } else {
        DeviceAction::SetBrightness { device: (k / 2) as usize, percent: BRIGHTNESS_PERCENT }
    }
}

/// All device calls of a run over `devices` devices, in order.
pub open spec fn run_calls(color: u32, devices: nat) -> Seq<DeviceAction> {
    Seq::new(2 * devices, |k: int| call_at(color, k as nat))
}

/// Whether an action is a call on device `d`.
pub open spec fn targets(a: DeviceAction, d: nat) -> bool {
    match a {
        DeviceAction::SetColor { device, .. } => device == d,
        DeviceAction::SetBrightness { device, .. } => device == d,
        _ => false,
    }
}

/// The state of a run: the color, the number of devices, how many device calls
/// have succeeded so far, and whether the last one failed.
pub struct DispatchView {
    pub color: u32,
    pub devices: nat,
    pub done: nat,
    pub failed: bool,
}

/// A consistent state: no more calls done than the run has, and a failure
/// only on a call the run has.
pub open spec fn well_formed(v: DispatchView) -> bool {
    v.done <= 2 * v.devices && (v.failed ==> v.done < 2 * v.devices)
}

/// Whether the run is over, by success or by failure.
pub open spec fn finished(v: DispatchView) -> bool {
    v.failed || v.done == 2 * v.devices
}

/// What a run in state `v` asks for next.
pub open spec fn pending(v: DispatchView) -> DeviceAction {
    if v.failed {
        DeviceAction::Failed { device: (v.done / 2) as usize }
    } else if v.done == 2 * v.devices {
        DeviceAction::Succeeded
    } else {
        call_at(v.color, v.done)
    }
}

/// One run of applying a color to a list of devices.
pub struct Dispatch {
    color: u32,
    devices: usize,
    device: usize,
    brightness_next: bool,
    failed: bool,
}

impl View for Dispatch {
    type V = DispatchView;

    closed spec fn view(&self) -> DispatchView {
        DispatchView {
            color: self.color,
            devices: self.devices as nat,
            done: (2 * self.device + if self.brightness_next { 1int } else { 0int }) as nat,
            failed: self.failed,
        }
    }
}

impl Dispatch {
    /// The internal state matches its view.
    pub closed spec fn wf(&self) -> bool {
        &&& self.device <= self.devices
        &&& (self.device == self.devices ==> !self.brightness_next && !self.failed)
    }

    /// Starts a run that applies `color` to `devices` devices.
    pub fn new(color: u32, devices: usize) -> (d: Dispatch)
        ensures
            d.wf(),
            d@ == (DispatchView { color, devices: devices as nat, done: 0, failed: false }),
            devices == 0 ==> pending(d@) == DeviceAction::Succeeded,
    {
        Dispatch { color, devices, device: 0, brightness_next: false, failed: false }
    }

    /// The view of a consistent dispatch is well formed.
    pub proof fn lemma_well_formed(&self)
        requires
            self.wf(),
        ensures
            well_formed(self@),
    {
    }

    /// What the driver is to do next.
    pub fn next_action(&self) -> (a: DeviceAction)
        requires
            self.wf(),
        ensures
            a == pending(self@),
    {
        if self.failed {
            DeviceAction::Failed { device: self.device }
        } else if self.device == self.devices {
            DeviceAction::Succeeded
        } else if self.brightness_next {
            DeviceAction::SetBrightness { device: self.device, percent: BRIGHTNESS_PERCENT }
        } else {
            DeviceAction::SetColor { device: self.device, value: self.color }
        }
    }

    /// Whether the run is over.
    pub fn is_finished(&self) -> (r: bool)
        requires
            self.wf(),
        ensures
            r == finished(self@),
    {
        self.failed || self.device == self.devices
    }

    /// Records the outcome of the device call that `next_action` asked for.
    pub fn record(&mut self, succeeded: bool)
        requires
            old(self).wf(),
            !finished(old(self)@),
        ensures
            final(self).wf(),
            succeeded ==> final(self)@ == (DispatchView { done: old(self)@.done + 1, ..old(self)@ }),
            !succeeded ==> final(self)@ == (DispatchView { failed: true, ..old(self)@ }),
            !succeeded ==> finished(final(self)@) && pending(final(self)@) == (DeviceAction::Failed {
                device: (old(self)@.done / 2) as usize,
            }),
    {
        if !succeeded {
            self.failed = true;
        } else if self.brightness_next {
            self.brightness_next = false;
            self.device = self.device + 1;
        } else {
            self.brightness_next = true;
        }
    }
}

/// An unfinished run asks for the call at its position in the full list of
/// the run's calls.
pub proof fn lemma_pending_follows_run(v: DispatchView)
    requires
        well_formed(v),
        !finished(v),
    ensures
        pending(v) == run_calls(v.color, v.devices)[v.done as int],
{
}

/// A run whose call at position `k` fails has sent only the run's calls up to
/// and including `k`, in the run's order (so every device before the failing
/// one got its color and its brightness), and no device after it was called.
pub proof fn lemma_failure_spares_later_devices(color: u32, devices: nat, k: nat)
    requires
        k < 2 * devices,
    ensures
        forall|j: int, d: nat| 0 <= j <= k && k / 2 < d ==> !targets(run_calls(color, devices)[j], d),
        forall|j: int|
            0 <= j <= k ==> #[trigger] run_calls(color, devices)[j] == call_at(color, j as nat),
{
    assert forall|j: int, d: nat| 0 <= j <= k && k / 2 < d implies !targets(
        run_calls(color, devices)[j],
        d,
    ) by {
        assert(j / 2 <= k / 2);
    }
}

/// Two runs sent one after the other, as exclusive access to the fleet makes
/// them, reach each device as two whole pairs: the first run's color and
/// brightness, then the second run's, and no other call on that device.
pub proof fn lemma_back_to_back_runs_keep_pairs(c1: u32, c2: u32, devices: nat, d: int)
    requires
        0 <= d < devices <= usize::MAX,
    ensures
        ({
            let calls = run_calls(c1, devices) + run_calls(c2, devices);
            &&& forall|k: int|
                0 <= k < calls.len() ==> (targets(calls[k], d as nat) <==> (k == 2 * d || k == 2 * d + 1 || k
                    == 2 * (devices as int) + 2 * d || k == 2 * (devices as int) + 2 * d + 1))
            &&& calls[2 * d] == DeviceAction::SetColor { device: d as usize, value: c1 }
            &&& calls[2 * d + 1] == DeviceAction::SetBrightness { device: d as usize, percent: BRIGHTNESS_PERCENT }
            &&& calls[2 * (devices as int) + 2 * d] == DeviceAction::SetColor { device: d as usize, value: c2 }
            &&& calls[2 * (devices as int) + 2 * d + 1] == DeviceAction::SetBrightness {
                device: d as usize,
                percent: BRIGHTNESS_PERCENT,
            }
        }),
{
    let calls = run_calls(c1, devices) + run_calls(c2, devices);
    assert forall|k: int| 0 <= k < calls.len() implies (targets(calls[k], d as nat) <==> (k == 2 * d || k
        == 2 * d + 1 || k == 2 * (devices as int) + 2 * d || k == 2 * (devices as int) + 2 * d + 1)) by {
        if k < 2 * devices {
            assert(calls[k] == call_at(c1, k as nat));
            assert(k / 2 < devices);
        } else {
            let i = k - 2 * devices;
            assert(calls[k] == call_at(c2, i as nat));
            assert(i / 2 < devices);
        }
    }
    assert(calls[2 * (devices as int) + 2 * d] == call_at(c2, (2 * d) as nat));
    assert(calls[2 * (devices as int) + 2 * d + 1] == call_at(c2, (2 * d + 1) as nat));
}

} // verus!
