use vstd::prelude::*;

use crate::window::{Rect, WindowId};

verus! {

/// One computed frame, tagged with the window id it belongs to so the
/// caller can re-correlate results even when an engine reorders them.
#[derive(Debug, Clone, Copy, PartialEq, Eq, Structural)]
pub struct WindowGeometry {
    pub id: WindowId,
    pub x: i32,
    pub y: i32,
    pub width: u32,
    pub height: u32,
}

/// A request to a layout engine, one JSON object per line on its stdin.
#[derive(Debug, Clone, PartialEq)]
pub enum LayoutMessage {
    Layout { width: u32, height: u32, windows: Vec<WindowId> },
    Command { cmd: String, args: Vec<String> },
}

/// A reply from a layout engine, one JSON object per line on its stdout.
#[derive(Debug, Clone, PartialEq)]
pub enum LayoutResult {
    Layout { windows: Vec<WindowGeometry> },
    Okay,
    NeedsRetile,
    Error { message: String },
}

/// The reply of the legacy stateless request shape: a bare geometry list
/// with no echoed ids.
#[derive(Debug, Clone, PartialEq)]
pub struct LayoutResponse {
    pub windows: Vec<Rect>,
}

/// Whether a layout request may accept this reply at all: only a
/// `Layout` reply is conformant.
pub open spec fn is_layout_reply(r: LayoutResult) -> bool {
    r is Layout
}

/// Judge the reply to a `Layout` request.  A `Layout` reply yields its
/// geometries; an engine `Error` propagates its message; `Ok` or
/// `NeedsRetile` in this position is a protocol violation and fails the
/// call, never silently succeeds.
pub fn accept_layout_reply(reply: LayoutResult) -> (r: Result<Vec<WindowGeometry>, String>)
    ensures
        match reply {
            LayoutResult::Layout { windows } => r == Ok::<Vec<WindowGeometry>, String>(windows),
            LayoutResult::Error { message } => r == Err::<Vec<WindowGeometry>, String>(message),
            _ => r matches Err(m) && m@ == "unexpected layout engine reply"@,
        },
        r is Ok <==> is_layout_reply(reply),
{
    match reply {
        LayoutResult::Layout { windows } => Ok(windows),
        LayoutResult::Error { message } => Err(message),
        LayoutResult::Okay | LayoutResult::NeedsRetile => Err(protocol_violation_message()),
    }
}

/// Judge the reply to a `Command` request.  `Ok` means done;
/// `NeedsRetile` additionally obliges the caller to retile at once
/// (returned as `true`); an engine `Error` propagates its message; a
/// `Layout` reply in this position is a protocol violation.
pub fn accept_command_reply(reply: LayoutResult) -> (r: Result<bool, String>)
    ensures
        match reply {
            LayoutResult::Okay => r == Ok::<bool, String>(false),
            LayoutResult::NeedsRetile => r == Ok::<bool, String>(true),
            LayoutResult::Error { message } => r == Err::<bool, String>(message),
            LayoutResult::Layout { .. } => r matches Err(m) && m@
                == "unexpected layout engine reply"@,
        },
{
    match reply {
        LayoutResult::Okay => Ok(false),
        LayoutResult::NeedsRetile => Ok(true),
        LayoutResult::Error { message } => Err(message),
        LayoutResult::Layout { .. } => Err(protocol_violation_message()),
    }
}

/// The message a protocol violation surfaces with.
fn protocol_violation_message() -> (s: String)
    ensures
        s@ == "unexpected layout engine reply"@,
{
    let s = "unexpected layout engine reply";
    s.to_owned()
}

} // verus!
