use vstd::prelude::*;

use crate::command::Response;
use crate::display::DisplayId;
use crate::protocol::WindowGeometry;
use crate::window::{Rect, WindowId};

verus! {

/// One absolute window move inside a batch.
#[derive(Debug, Clone, Copy, PartialEq, Eq, Structural)]
pub struct WindowMove {
    pub window_id: WindowId,
    pub pid: i32,
    pub x: i32,
    pub y: i32,
}

/// A description of an OS-facing side effect.  Effects are produced by the
/// command translation and executed later by the driver, in order; they
/// never touch OS state themselves.
#[derive(Debug, Clone, PartialEq)]
pub enum Effect {
    ApplyWindowMoves(Vec<WindowMove>),
    ApplyLayout { display_id: DisplayId, frame: Rect, geometries: Vec<WindowGeometry> },
    FocusWindow { window_id: WindowId, pid: i32 },
    MoveWindowToPosition { window_id: WindowId, pid: i32, x: i32, y: i32 },
    Retile,
    RetileDisplay(DisplayId),
    RetileDisplays(Vec<DisplayId>),
    SendLayoutCommand { cmd: String, args: Vec<String> },
    ExecCommand(String),
    FocusVisibleWindowIfNeeded,
    UpdateWindowOrder { display_id: DisplayId, window_ids: Vec<WindowId> },
}

/// What interpreting one command yields: exactly one response, and the
/// side effects to run afterwards, in order.
#[derive(Debug)]
pub struct CommandResult {
    pub response: Response,
    pub effects: Vec<Effect>,
}

impl CommandResult {
    pub fn ok() -> (r: CommandResult)
        ensures
            r.response == Response::Okay,
            r.effects@ == Seq::<Effect>::empty(),
    {
        CommandResult { response: Response::Okay, effects: Vec::new() }
    }

    pub fn ok_with_effects(effects: Vec<Effect>) -> (r: CommandResult)
        ensures
            r.response == Response::Okay,
            r.effects == effects,
    {
        CommandResult { response: Response::Okay, effects }
    }

    pub fn error(message: String) -> (r: CommandResult)
        ensures
            r.response == (Response::Error { message }),
            r.effects@ == Seq::<Effect>::empty(),
    {
        CommandResult { response: Response::Error { message }, effects: Vec::new() }
    }

    pub fn with_response(response: Response) -> (r: CommandResult)
        ensures
            r.response == response,
            r.effects@ == Seq::<Effect>::empty(),
    {
        CommandResult { response, effects: Vec::new() }
    }
}

} // verus!
