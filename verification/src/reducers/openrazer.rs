//! Device bus poller state: battery telemetry of the first attached mouse.
//!
//! The poller lists the managed devices on the bus, probes each candidate's
//! type (a failed probe counts as a non-match), and publishes the first
//! mouse's charge state.  Battery levels are carried in hundredths of a
//! percent so the state stays exact integer data.

use vstd::prelude::*;

use crate::util::str_eq;

verus! {

/// The published device telemetry.
#[derive(Debug, Clone)]
pub struct OpenRazerReducer {
    /// The last poll failure, kept for inspection.
    pub mouse_error: Option<String>,
    /// Whether a mouse was found on the bus.
    pub mouse_detected: bool,
    /// Whether the mouse is charging; forced false while none is detected.
    pub mouse_charging: bool,
    /// Battery level in hundredths of a percent (0-10000).
    pub mouse_battery_level: u32,
}

/// Reduction messages for the device telemetry.
#[derive(Debug)]
pub enum OpenRazerInput {
    /// A poll failed; keep the message and the last good telemetry.
    MouseError(String),
    /// Whether a matching device was found (`false` clears `charging`).
    MouseDetected(bool),
    /// Fresh battery telemetry of a detected mouse.
    MouseBattery { charging: bool, battery_level: u32 },
    /// The bus signalled a new device: poll again right away.
    DeviceAdded,
    /// The bus signalled a removed device: poll again right away.
    DeviceRemoved,
}

/// How one reduction step relates the prior telemetry to the next.
pub open spec fn reduce_rel(
    pre: OpenRazerReducer,
    input: OpenRazerInput,
    post: OpenRazerReducer,
) -> bool {
    match input {
        OpenRazerInput::MouseError(e) => {
            &&& post.mouse_error == Some(e)
            &&& post.mouse_detected == pre.mouse_detected
            &&& post.mouse_charging == pre.mouse_charging
            &&& post.mouse_battery_level == pre.mouse_battery_level
        },
        OpenRazerInput::MouseDetected(detected) => {
            &&& post.mouse_detected == detected
            &&& post.mouse_charging == (pre.mouse_charging && detected)
            &&& post.mouse_battery_level == pre.mouse_battery_level
            &&& post.mouse_error == pre.mouse_error
        },
        OpenRazerInput::MouseBattery { charging, battery_level } => {
            &&& post.mouse_detected
            &&& post.mouse_charging == charging
            &&& post.mouse_battery_level == battery_level
            &&& post.mouse_error == pre.mouse_error
        },
        OpenRazerInput::DeviceAdded => post == pre,
        OpenRazerInput::DeviceRemoved => post == pre,
    }
}

impl OpenRazerReducer {
    /// The state before the first poll: nothing detected.
    pub fn init() -> (r: Self)
        ensures
            r.mouse_error is None,
            !r.mouse_detected,
            !r.mouse_charging,
            r.mouse_battery_level == 0,
    {
        OpenRazerReducer {
            mouse_error: None,
            mouse_detected: false,
            mouse_charging: false,
            mouse_battery_level: 0,
        }
    }

    /// Applies one reduction message.
    ///
    /// An error only records itself; a non-detection clears the charging
    /// flag but keeps the last battery level; fresh telemetry implies
    /// detection.  The hotplug signals leave the state alone — they only ask
    /// the owning task for an immediate poll.
    pub fn reduce(&mut self, input: OpenRazerInput) -> (r: bool)
        ensures
            r,
            reduce_rel(*old(self), input, *final(self)),
    {
        match input {
            OpenRazerInput::MouseError(err) => {
                self.mouse_error = Some(err);
            },
            OpenRazerInput::MouseDetected(detected) => {
                self.mouse_detected = detected;
                if !detected {
                    self.mouse_charging = false;
                }
            },
            OpenRazerInput::MouseBattery { charging, battery_level } => {
                self.mouse_detected = true;
                self.mouse_charging = charging;
                self.mouse_battery_level = battery_level;
            },
            OpenRazerInput::DeviceAdded => {},
            OpenRazerInput::DeviceRemoved => {},
        }
        true
    }

    /// Whether a message asks the owning task for an immediate out-of-band
    /// poll, bypassing the normal interval.
    pub fn triggers_immediate_poll(input: &OpenRazerInput) -> (r: bool)
        ensures
            r == (input is DeviceAdded || input is DeviceRemoved),
    {
        match input {
            OpenRazerInput::DeviceAdded => true,
            OpenRazerInput::DeviceRemoved => true,
            _ => false,
        }
    }
}

/// True when a probed device type names a mouse; a failed probe (`None`)
/// counts as a non-match.
pub open spec fn is_mouse(probed_type: Option<String>) -> bool {
    match probed_type {
        Some(t) => t@ == "mouse"@,
        None => false,
    }
}

/// Picks the first device whose probed type is "mouse".
///
/// `device_types[i]` is the probe reply for the i-th listed device, `None`
/// where the probe failed; that candidate simply does not match.
pub fn select_mouse(device_types: &Vec<Option<String>>) -> (r: Option<usize>)
    ensures
        r matches Some(i) ==> 0 <= i < device_types@.len() && is_mouse(device_types@[i as int])
            && forall|j: int| 0 <= j < i ==> !is_mouse(#[trigger] device_types@[j]),
        r is None ==> forall|j: int|
            0 <= j < device_types@.len() ==> !is_mouse(#[trigger] device_types@[j]),
{
    let n = device_types.len();
    let mut i: usize = 0;
    while i < n
        invariant
            0 <= i <= n,
            n == device_types@.len(),
            forall|j: int| 0 <= j < i ==> !is_mouse(#[trigger] device_types@[j]),
        decreases n - i,
    {
        match &device_types[i] {
            Some(t) => {
                if str_eq(t.as_str(), "mouse") {
                    return Some(i);
                }
            },
            None => {},
        }
        i = i + 1;
    }
    None
}

} // verus!
