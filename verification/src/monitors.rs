//! Monitors of a desktop that offers them through the window toolkit alone.

use vstd::prelude::*;
use vstd::string::*;

use crate::app_state::DisplayInfo;
use crate::text::{decimal, push_decimal, push_signed_decimal, signed_decimal};

verus! {

/// A monitor as the window toolkit describes it.
#[derive(Debug)]
pub struct Monitor {
    pub name: Option<String>,
    pub size: (u32, u32),
    pub position: (i32, i32),
}

/// What a monitor is called. One without a name is called by its number, counted from one.
pub open spec fn monitor_name(monitor: Monitor, index: nat) -> Seq<char> {
    match monitor.name {
        Some(name) => name@,
        None => "Display "@ + decimal(index + 1),
    }
}

/// What a monitor is identified by: its name, its size and its place.
pub open spec fn monitor_id(monitor: Monitor, index: nat) -> Seq<char> {
    monitor_name(monitor, index) + ":"@ + decimal(monitor.size.0 as nat) + "x"@ + decimal(
        monitor.size.1 as nat,
    ) + "@"@ + signed_decimal(monitor.position.0 as int) + ","@ + signed_decimal(
        monitor.position.1 as int,
    )
}

/// What a user reads of a monitor: its name and its size.
pub open spec fn monitor_label(monitor: Monitor, index: nat) -> Seq<char> {
    monitor_name(monitor, index) + " ("@ + decimal(monitor.size.0 as nat) + " x "@ + decimal(
        monitor.size.1 as nat,
    ) + ")"@
}

/// Whether a display stands for the monitor with a number.
pub open spec fn stands_for(display: DisplayInfo, monitor: Monitor, index: nat) -> bool {
    &&& display.id@ == monitor_id(monitor, index)
    &&& display.legacy_id@ == monitor_id(monitor, index)
    &&& display.label@ == monitor_label(monitor, index)
    &&& display.left == monitor.position.0
    &&& display.top == monitor.position.1
    &&& display.width == monitor.size.0
    &&& display.height == monitor.size.1
}

/// Whether a display stands for the primary one, of which nothing is known.
pub open spec fn stands_for_primary(display: DisplayInfo) -> bool {
    &&& display.id@ == "primary"@
    &&& display.legacy_id@ == "primary"@
    &&& display.label@ == "Primary display"@
    &&& display.left == 0
    &&& display.top == 0
    &&& display.width == 0
    &&& display.height == 0
}

fn describe(monitor: &Monitor, index: usize) -> (result: DisplayInfo)
    requires
        index < usize::MAX,
    ensures
        stands_for(result, *monitor, index as nat),
{
    let name = match &monitor.name {
        Some(name) => name.clone(),
        None => {
            let mut name = "Display ".to_owned();
            push_decimal(&mut name, index as u64 + 1);
            name
        },
    };
    let mut id = name.clone();
    id.append(":");
    push_decimal(&mut id, monitor.size.0 as u64);
    id.append("x");
    push_decimal(&mut id, monitor.size.1 as u64);
    id.append("@");
    push_signed_decimal(&mut id, monitor.position.0);
    id.append(",");
    push_signed_decimal(&mut id, monitor.position.1);
    let mut label = name;
    label.append(" (");
    push_decimal(&mut label, monitor.size.0 as u64);
    label.append(" x ");
    push_decimal(&mut label, monitor.size.1 as u64);
    label.append(")");
    DisplayInfo {
        legacy_id: id.clone(),
        id,
        label,
        left: monitor.position.0,
        top: monitor.position.1,
        width: monitor.size.0,
        height: monitor.size.1,
    }
}

/// The displays that a user can choose from: one for each monitor, in the same order, or the
/// primary display where there is no monitor.
pub fn enumerate_displays(monitors: &[Monitor]) -> (result: Vec<DisplayInfo>)
    ensures
        monitors@.len() == 0 ==> result@.len() == 1 && stands_for_primary(result@[0]),
        monitors@.len() > 0 ==> result@.len() == monitors@.len(),
        forall|i: int|
            0 <= i < monitors@.len() ==> stands_for(#[trigger] result@[i], monitors@[i], i as nat),
{
    let mut displays: Vec<DisplayInfo> = Vec::new();
    for index in 0..monitors.len()
        invariant
            displays@.len() == index,
            forall|i: int|
                0 <= i < index ==> stands_for(#[trigger] displays@[i], monitors@[i], i as nat),
    {
        displays.push(describe(&monitors[index], index));
    }
    if displays.len() == 0 {
        displays.push(
            DisplayInfo {
                id: "primary".to_owned(),
                legacy_id: "primary".to_owned(),
                label: "Primary display".to_owned(),
                left: 0,
                top: 0,
                width: 0,
                height: 0,
            },
        );
    }
    displays
}

/// A display has the place and the size of its monitor, and is called and identified by the
/// monitor's name, or by its number counted from one where it has none.
pub proof fn displays_are_their_monitors(display: DisplayInfo, monitor: Monitor, index: nat)
    requires
        stands_for(display, monitor, index),
    ensures
        ({
            let name = match monitor.name {
                Some(name) => name@,
                None => "Display "@ + decimal(index + 1),
            };
            let (width, height) = (
                decimal(monitor.size.0 as nat),
                decimal(monitor.size.1 as nat),
            );
            &&& display.left == monitor.position.0
            &&& display.top == monitor.position.1
            &&& display.width == monitor.size.0
            &&& display.height == monitor.size.1
            &&& display.label@ == name + " ("@ + width + " x "@ + height + ")"@
            &&& display.id@ == name + ":"@ + width + "x"@ + height + "@"@ + signed_decimal(
                monitor.position.0 as int,
            ) + ","@ + signed_decimal(monitor.position.1 as int)
            &&& display.legacy_id@ == display.id@
        }),
{
}

/// Where there is no monitor, a display without a place and a size stands for the primary one; it
/// was never identified in another way.
pub proof fn primary_display_has_no_place(display: DisplayInfo)
    requires
        stands_for_primary(display),
    ensures
        display.id@ == seq!['p', 'r', 'i', 'm', 'a', 'r', 'y'],
        display.legacy_id@ == display.id@,
        display.label@.len() == 15,
        display.left == 0 && display.top == 0,
        display.width == 0 && display.height == 0,
{
    reveal_strlit("primary");
    reveal_strlit("Primary display");
    assert(display.id@ =~= seq!['p', 'r', 'i', 'm', 'a', 'r', 'y']);
}

} // verus!
