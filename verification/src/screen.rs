//! Screen on/off detection from kernel uevents and backlight nodes.

use vstd::prelude::*;
use crate::text::{chars_of, parse_i32, parse_i32_spec, same_text, string_from_chars, trim, trim_chars};
use kobject_uevent::{ActionType, UEvent};

verus! {

/// Records a newly observed screen state; returns whether it changed.
pub fn update_state_if_changed(state: &mut bool, new_state: bool) -> (changed: bool)
    ensures
        changed == (*old(state) != new_state),
        *final(state) == new_state,
{
    if *state != new_state {
        *state = new_state;
        true
    } else {
        false
    }
}

/// A sysfs integer node's value (`trim().parse::<i32>()`).
pub fn read_int_value(content: &str) -> (r: Option<i32>)
    ensures
        r matches Some(v) ==> parse_i32_spec(trim(content@)) == Some(v as int),
        r is None ==> parse_i32_spec(trim(content@)) is None,
{
    let c = chars_of(content);
    let t = trim_chars(c.as_slice());
    parse_i32(t.as_slice())
}

/// The screen state that a `POWER_ACTION` announces: `early_suspend` turns
/// it off, `late_resume` on.
pub open spec fn power_action_spec(action: Seq<char>) -> Option<bool> {
    if action == "early_suspend"@ {
        Some(false)
    } else if action == "late_resume"@ {
        Some(true)
    } else {
        None
    }
}

/// Decides `power_action_spec`.
pub fn power_action_state(action: &str) -> (r: Option<bool>)
    ensures
        r == power_action_spec(action@),
{
    if same_text(action, "early_suspend") {
        Some(false)
    } else if same_text(action, "late_resume") {
        Some(true)
    } else {
        None
    }
}

/// The screen state read from a backlight device: `bl_power` 0 means on;
/// when `bl_power` cannot be read, a positive `actual_brightness` means on;
/// when neither can be read, nothing is known.
pub fn backlight_state(bl_power: Option<i32>, actual_brightness: Option<i32>) -> (r: Option<bool>)
    ensures
        r == match bl_power {
            Some(v) => Some(v == 0),
            None => match actual_brightness {
                Some(a) => Some(a > 0),
                None => None,
            },
        },
{
    match bl_power {
        Some(v) => Some(v == 0),
        None => match actual_brightness {
            Some(a) => Some(a > 0),
            None => None,
        },
    }
}

/// What a kernel uevent means for the screen state.
#[derive(Debug, Clone, Copy, PartialEq, Eq)]
pub enum UeventRoute {
    /// A power event that sets the state.
    Power(bool),
    /// A backlight change: read the device's backlight nodes.
    Backlight,
    /// Not about the screen.
    Ignore,
}

/// How a uevent is routed: a `power` event by its `POWER_ACTION`, a
/// `change` of a `backlight` device to the backlight nodes, anything else
/// ignored.
pub open spec fn route_spec(subsystem: Seq<char>, action_is_change: bool, power_action: Option<
    Seq<char>,
>) -> UeventRoute {
    if subsystem == "power"@ {
        match power_action {
            Some(a) => match power_action_spec(a) {
                Some(b) => UeventRoute::Power(b),
                None => UeventRoute::Ignore,
            },
            None => UeventRoute::Ignore,
        }
    } else if subsystem == "backlight"@ && action_is_change {
        UeventRoute::Backlight
    } else {
        UeventRoute::Ignore
    }
}

/// Routes a uevent by its subsystem, whether its action is `change`, and
/// its `POWER_ACTION` variable.
pub fn route_uevent(subsystem: &str, action_is_change: bool, power_action: Option<&str>) -> (r:
    UeventRoute)
    ensures
        r == route_spec(subsystem@, action_is_change, match power_action {
            Some(a) => Some(a@),
            None => None,
        }),
{
    if same_text(subsystem, "power") {
        match power_action {
            Some(a) => match power_action_state(a) {
                Some(b) => UeventRoute::Power(b),
                None => UeventRoute::Ignore,
            },
            None => UeventRoute::Ignore,
        }
    } else if same_text(subsystem, "backlight") && action_is_change {
        UeventRoute::Backlight
    } else {
        UeventRoute::Ignore
    }
}

/// The action of a kernel uevent.
#[derive(Debug, Clone, Copy, PartialEq, Eq)]
pub enum UeventAction {
    Add,
    Remove,
    Change,
    Move,
    Online,
    Offline,
    Bind,
    Unbind,
}

/// The fields of a kernel uevent that screen detection reads.
#[derive(Debug, Clone, PartialEq, Eq)]
pub struct Uevent {
    pub action: UeventAction,
    /// `DEVPATH`, under `/sys`.
    pub devpath: String,
    /// `SUBSYSTEM`.
    pub subsystem: String,
    /// The `POWER_ACTION` variable, when the event has one.
    pub power_action: Option<String>,
}

/// What `UEvent::from_netlink_packet` reads from a netlink packet, as the
/// fields above; `None` when it reports an error.
pub uninterp spec fn uevent_of(packet: Seq<u8>) -> Option<Uevent>;

/// `UEvent::from_netlink_packet`, converted to `Uevent`.
#[verifier::external_body]
fn parse_uevent(packet: &[u8]) -> (r: Option<Uevent>)
    ensures
        r == uevent_of(packet@),
{
    let e = UEvent::from_netlink_packet(packet).ok()?;
    let action = match e.action {
        ActionType::Add => UeventAction::Add, ActionType::Remove => UeventAction::Remove,
        ActionType::Change => UeventAction::Change, ActionType::Move => UeventAction::Move,
        ActionType::Online => UeventAction::Online, ActionType::Offline => UeventAction::Offline,
        ActionType::Bind => UeventAction::Bind, ActionType::Unbind => UeventAction::Unbind,
    };
    let devpath = e.devpath.to_string_lossy().into_owned();
    let power_action = e.env.get("POWER_ACTION").cloned();
    Some(Uevent { action, devpath, subsystem: e.subsystem, power_action })
}

/// What a netlink packet tells about the screen.
#[derive(Debug, Clone, PartialEq, Eq)]
pub enum ScreenSignal {
    /// A power event that sets the state.
    Power(bool),
    /// A backlight change: the state is read from these two nodes.
    Backlight { bl_power: String, actual_brightness: String },
    /// Nothing about the screen (or a packet that does not parse).
    Ignore,
}

/// The backlight nodes of a device: `/sys{devpath}/bl_power` and
/// `/sys{devpath}/actual_brightness`.
pub open spec fn backlight_nodes_spec(devpath: Seq<char>) -> (Seq<char>, Seq<char>) {
    ("/sys"@ + devpath + "/bl_power"@, "/sys"@ + devpath + "/actual_brightness"@)
}

/// Computes `backlight_nodes_spec`.
pub fn backlight_nodes(devpath: &str) -> (r: (String, String))
    ensures
        (r.0@, r.1@) == backlight_nodes_spec(devpath@),
{
    let mut a = chars_of("/sys");
    let mut d1 = chars_of(devpath);
    let mut d2 = chars_of(devpath);
    let mut t1 = chars_of("/bl_power");
    let mut t2 = chars_of("/actual_brightness");
    let mut b = chars_of("/sys");
    a.append(&mut d1);
    a.append(&mut t1);
    b.append(&mut d2);
    b.append(&mut t2);
    (string_from_chars(a.as_slice()), string_from_chars(b.as_slice()))
}

/// What a netlink packet means for the screen: nothing when it does not
/// parse as a uevent, otherwise its route, with the device's backlight
/// nodes for a backlight change.
pub fn screen_signal(packet: &[u8]) -> (r: ScreenSignal)
    ensures
        match uevent_of(packet@) {
            None => r == ScreenSignal::Ignore,
            Some(e) => match route_spec(
                e.subsystem@,
                e.action == UeventAction::Change,
                match e.power_action {
                    Some(a) => Some(a@),
                    None => None,
                },
            ) {
                UeventRoute::Power(b) => r == ScreenSignal::Power(b),
                UeventRoute::Backlight => r matches ScreenSignal::Backlight {
                    bl_power,
                    actual_brightness,
                } && (bl_power@, actual_brightness@) == backlight_nodes_spec(e.devpath@),
                UeventRoute::Ignore => r == ScreenSignal::Ignore,
            },
        },
{
    match parse_uevent(packet) {
        None => ScreenSignal::Ignore,
        Some(e) => {
            let is_change = match e.action {
                UeventAction::Change => true,
                _ => false,
            };
            let power = match &e.power_action {
                Some(a) => Some(a.as_str()),
                None => None,
            };
            match route_uevent(e.subsystem.as_str(), is_change, power) {
                UeventRoute::Power(b) => ScreenSignal::Power(b),
                UeventRoute::Backlight => {
                    let (bl_power, actual_brightness) = backlight_nodes(e.devpath.as_str());
                    ScreenSignal::Backlight { bl_power, actual_brightness }
                },
                UeventRoute::Ignore => ScreenSignal::Ignore,
            }
        },
    }
}

} // verus!
