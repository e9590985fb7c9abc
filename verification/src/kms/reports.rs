//! What a drawing tablet's reports turn into.
//!
//! Floating-point values are carried as they are, by the bits of their numbers.

use vstd::prelude::*;
use crate::extensions::tablet::TabletToolInfo;
use crate::input::ButtonState;
use crate::kms::devices::{
    tablet_tool_key, tablet_tool_kind, tool_capabilities, tool_key, tool_kind, tool_mask,
    TabletTool, ToolAxes,
};

verus! {

/// A tool as the input library describes it.
#[derive(Debug, Clone, Copy, PartialEq, Eq, Structural)]
pub struct ToolReport {
    pub tool: TabletTool,
    pub serial: u64,
    pub hardware_id: u64,
    pub axes: ToolAxes,
}

/// Where a tool is and what of it changed.
#[derive(Debug, Clone, Copy, PartialEq, Eq)]
pub struct AxesReport {
    pub x: u32,
    pub y: u32,
    pub pressure: Option<u32>,
    pub distance: Option<u32>,
    pub tilt: Option<(u32, u32)>,
    pub rotation: Option<u32>,
    pub slider: Option<u32>,
    /// How far the wheel turned, also in steps.
    pub wheel: Option<(u32, i32)>,
}

/// What the input library reports of a tool.
#[derive(Debug, Clone, Copy, PartialEq, Eq)]
pub enum TabletReport {
    Proximity { in_proximity: bool, axes: AxesReport, time: u32 },
    Axis { axes: AxesReport, time: u32 },
    Tip { down: bool, axes: AxesReport, time: u32 },
    Button { button: u32, pressed: bool, time: u32 },
    /// Anything else.
    Other,
}

/// What the compositor is told of a tool.
#[derive(Debug, Clone, Copy, PartialEq, Eq)]
pub enum TabletEvent {
    Proximity { tool: u64, info: TabletToolInfo, in_proximity: bool, x: u32, y: u32, time: u32 },
    Axes { tool: u64, axes: AxesReport, time: u32 },
    Tip { tool: u64, state: ButtonState, time: u32 },
    Button { tool: u64, button: u32, state: ButtonState, time: u32 },
}

/// The key of a reported tool.
pub open spec fn report_key(tool: ToolReport) -> u64 {
    tool_key(tool.serial, tool.hardware_id, tool_kind(tool.tool))
}

/// What is known of a reported tool.
pub open spec fn report_info(tool: ToolReport) -> TabletToolInfo {
    TabletToolInfo {
        kind: tool_kind(tool.tool),
        serial: tool.serial,
        hardware_id: tool.hardware_id,
        capabilities: tool_mask(tool.axes) as u32,
    }
}

/// Whether a button is down.
pub open spec fn button_state(pressed: bool) -> ButtonState {
    if pressed {
        ButtonState::Pressed
    } else {
        ButtonState::Released
    }
}

/// What a report turns into, in order. A tool that comes near, and a tip that
/// touches or lifts, also tell where the tool is.
pub open spec fn tablet_sequence(tool: ToolReport, report: TabletReport) -> Seq<TabletEvent> {
    let key = report_key(tool);
    match report {
        TabletReport::Proximity { in_proximity, axes, time } => {
            let near = TabletEvent::Proximity {
                tool: key,
                info: report_info(tool),
                in_proximity,
                x: axes.x,
                y: axes.y,
                time,
            };
            if in_proximity {
                seq![near, TabletEvent::Axes { tool: key, axes, time }]
            } else {
                seq![near]
            }
        },
        TabletReport::Axis { axes, time } => seq![TabletEvent::Axes { tool: key, axes, time }],
        TabletReport::Tip { down, axes, time } => seq![
            TabletEvent::Axes { tool: key, axes, time },
            TabletEvent::Tip { tool: key, state: button_state(down), time },
        ],
        TabletReport::Button { button, pressed, time } => seq![
            TabletEvent::Button { tool: key, button, state: button_state(pressed), time },
        ],
        TabletReport::Other => Seq::empty(),
    }
}

fn state_of(pressed: bool) -> (state: ButtonState)
    ensures
        state == button_state(pressed),
{
    if pressed {
        ButtonState::Pressed
    } else {
        ButtonState::Released
    }
}

/// Turn a report into events, after those that wait already.
pub fn push_tablet_event(events: &mut Vec<TabletEvent>, tool: &ToolReport, report: TabletReport)
    ensures
        final(events)@ == old(events)@ + tablet_sequence(*tool, report),
{
    let ghost before = events@;
    let kind: u32 = tablet_tool_kind(tool.tool);
    let key: u64 = tablet_tool_key(tool.serial, tool.hardware_id, kind);
    match report {
        TabletReport::Proximity { in_proximity, axes, time } => {
            let info = TabletToolInfo {
                kind,
                serial: tool.serial,
                hardware_id: tool.hardware_id,
                capabilities: tool_capabilities(&tool.axes),
            };
            events.push(
                TabletEvent::Proximity {
                    tool: key,
                    info,
                    in_proximity,
                    x: axes.x,
                    y: axes.y,
                    time,
                },
            );
            if in_proximity {
                events.push(TabletEvent::Axes { tool: key, axes, time });
            }
        },
        TabletReport::Axis { axes, time } => {
            events.push(TabletEvent::Axes { tool: key, axes, time });
        },
        TabletReport::Tip { down, axes, time } => {
            events.push(TabletEvent::Axes { tool: key, axes, time });
            events.push(TabletEvent::Tip { tool: key, state: state_of(down), time });
        },
        TabletReport::Button { button, pressed, time } => {
            events.push(
                TabletEvent::Button { tool: key, button, state: state_of(pressed), time },
            );
        },
        TabletReport::Other => {},
    }
    assert(events@ =~= before + tablet_sequence(*tool, report));
}

/// A tool that comes near is announced with where it is, and then its axes are told; one
/// that goes away is only announced. What waited before still comes first.
pub proof fn tools_are_announced_before_they_move(
    events: &mut Vec<TabletEvent>,
    tool: ToolReport,
    in_proximity: bool,
    axes: AxesReport,
    time: u32,
)
    requires
        call_ensures(
            push_tablet_event,
            (events, &tool, TabletReport::Proximity { in_proximity, axes, time }),
            (),
        ),
    ensures
        final(events)@.len() == old(events)@.len() + if in_proximity {
            2int
        } else {
            1
        },
        forall|i: int| 0 <= i < old(events)@.len()
            ==> #[trigger] final(events)@[i] == old(events)@[i],
        final(events)@[old(events)@.len() as int] matches TabletEvent::Proximity {
            tool: key,
            info,
            in_proximity: near,
            x,
            y,
            time: at,
        } && near == in_proximity && x == axes.x && y == axes.y && at == time && info.serial
            == tool.serial && info.hardware_id == tool.hardware_id,
        in_proximity ==> (final(events)@[old(events)@.len() as int + 1] matches TabletEvent::Axes {
            tool: key,
            axes: told,
            time: at,
        } && told == axes && at == time),
{
}

/// A tip that touches or lifts is told after where the tool is; a button is told as it is;
/// all with their own time, and under one key for one tool.
pub proof fn tips_and_buttons_are_told_as_they_are(
    tips: &mut Vec<TabletEvent>,
    buttons: &mut Vec<TabletEvent>,
    tool: ToolReport,
    down: bool,
    axes: AxesReport,
    button: u32,
    time: u32,
)
    requires
        call_ensures(push_tablet_event, (tips, &tool, TabletReport::Tip { down, axes, time }), ()),
        call_ensures(
            push_tablet_event,
            (buttons, &tool, TabletReport::Button { button, pressed: down, time }),
            (),
        ),
    ensures
        final(tips)@.len() == old(tips)@.len() + 2,
        final(buttons)@.len() == old(buttons)@.len() + 1,
        ({
            let moved = final(tips)@[old(tips)@.len() as int];
            let tip = final(tips)@[old(tips)@.len() as int + 1];
            let pressed = final(buttons)@[old(buttons)@.len() as int];
            let wanted = if down {
                ButtonState::Pressed
            } else {
                ButtonState::Released
            };
            &&& moved matches TabletEvent::Axes { tool: first, axes: told, time: at }
            &&& told == axes
            &&& at == time
            &&& tip matches TabletEvent::Tip { tool: second, state, time: tip_at }
            &&& state == wanted
            &&& tip_at == time
            &&& pressed matches TabletEvent::Button {
                tool: third,
                button: number,
                state: held,
                time: button_at,
            }
            &&& number == button
            &&& held == wanted
            &&& button_at == time
            &&& first == second
            &&& second == third
        }),
{
}

} // verus!
