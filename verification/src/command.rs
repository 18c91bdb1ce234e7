use vstd::prelude::*;

use crate::strutil::str_views;

verus! {

/// Direction for window focus and swap commands.
#[derive(Debug, Clone, Copy, PartialEq, Eq, Structural)]
pub enum Direction {
    Left,
    Right,
    Up,
    Down,
    Next,
    Prev,
}

/// Direction for output focus and send commands.
#[derive(Debug, Clone, Copy, PartialEq, Eq, Structural)]
pub enum OutputDirection {
    Next,
    Prev,
}

/// Names one output, by id or by name.
#[derive(Debug, Clone, PartialEq)]
pub enum OutputSpecifier {
    Id(u32),
    Name(String),
}

/// A control-protocol command, one per line over the control socket, and
/// the value every CLI subcommand and hotkey binding maps to.
#[derive(Debug, PartialEq)]
pub enum Command {
    Bind { key: String, action: Box<Command> },
    Unbind { key: String },
    ListBindings,
    TagView { tags: u32, output: Option<OutputSpecifier> },
    TagToggle { tags: u32, output: Option<OutputSpecifier> },
    TagViewLast,
    WindowMoveToTag { tags: u32 },
    WindowToggleTag { tags: u32 },
    WindowFocus { direction: Direction },
    WindowSwap { direction: Direction },
    OutputFocus { direction: OutputDirection },
    OutputSend { direction: OutputDirection },
    Retile { output: Option<OutputSpecifier> },
    LayoutSetDefault { layout: String },
    LayoutSet { tags: Option<u32>, output: Option<OutputSpecifier>, layout: String },
    LayoutGet { tags: Option<u32>, output: Option<OutputSpecifier> },
    LayoutCommand { cmd: String, args: Vec<String> },
    ListWindows,
    ListOutputs,
    GetState,
    FocusedWindow,
    Exec { command: String },
    ExecOrFocus { app_name: String, command: String },
    Quit,
}

/// Mathematical image of an `OutputSpecifier`.
pub ghost enum OutputSpecifierV {
    Id(u32),
    Name(Seq<char>),
}

impl View for OutputSpecifier {
    type V = OutputSpecifierV;

    open spec fn view(&self) -> OutputSpecifierV {
        match self {
            OutputSpecifier::Id(id) => OutputSpecifierV::Id(*id),
            OutputSpecifier::Name(n) => OutputSpecifierV::Name(n@),
        }
    }
}

/// Mathematical image of a `Command`.
pub ghost enum CommandV {
    Bind { key: Seq<char>, action: Box<CommandV> },
    Unbind { key: Seq<char> },
    ListBindings,
    TagView { tags: u32, output: Option<OutputSpecifierV> },
    TagToggle { tags: u32, output: Option<OutputSpecifierV> },
    TagViewLast,
    WindowMoveToTag { tags: u32 },
    WindowToggleTag { tags: u32 },
    WindowFocus { direction: Direction },
    WindowSwap { direction: Direction },
    OutputFocus { direction: OutputDirection },
    OutputSend { direction: OutputDirection },
    Retile { output: Option<OutputSpecifierV> },
    LayoutSetDefault { layout: Seq<char> },
    LayoutSet { tags: Option<u32>, output: Option<OutputSpecifierV>, layout: Seq<char> },
    LayoutGet { tags: Option<u32>, output: Option<OutputSpecifierV> },
    LayoutCommand { cmd: Seq<char>, args: Seq<Seq<char>> },
    ListWindows,
    ListOutputs,
    GetState,
    FocusedWindow,
    Exec { command: Seq<char> },
    ExecOrFocus { app_name: Seq<char>, command: Seq<char> },
    Quit,
}

/// The image of an optional output specifier.
pub open spec fn output_view(o: Option<OutputSpecifier>) -> Option<OutputSpecifierV> {
    match o {
        Some(s) => Some(s@),
        None => None,
    }
}

impl View for Command {
    type V = CommandV;

    open spec fn view(&self) -> CommandV
        decreases self,
    {
        match self {
            Command::Bind { key, action } => CommandV::Bind {
                key: key@,
                action: Box::new((**action)@),
            },
            Command::Unbind { key } => CommandV::Unbind { key: key@ },
            Command::ListBindings => CommandV::ListBindings,
            Command::TagView { tags, output } => CommandV::TagView {
                tags: *tags,
                output: output_view(*output),
            },
            Command::TagToggle { tags, output } => CommandV::TagToggle {
                tags: *tags,
                output: output_view(*output),
            },
            Command::TagViewLast => CommandV::TagViewLast,
            Command::WindowMoveToTag { tags } => CommandV::WindowMoveToTag { tags: *tags },
            Command::WindowToggleTag { tags } => CommandV::WindowToggleTag { tags: *tags },
            Command::WindowFocus { direction } => CommandV::WindowFocus { direction: *direction },
            Command::WindowSwap { direction } => CommandV::WindowSwap { direction: *direction },
            Command::OutputFocus { direction } => CommandV::OutputFocus { direction: *direction },
            Command::OutputSend { direction } => CommandV::OutputSend { direction: *direction },
            Command::Retile { output } => CommandV::Retile { output: output_view(*output) },
            Command::LayoutSetDefault { layout } => CommandV::LayoutSetDefault { layout: layout@ },
            Command::LayoutSet { tags, output, layout } => CommandV::LayoutSet {
                tags: *tags,
                output: output_view(*output),
                layout: layout@,
            },
            Command::LayoutGet { tags, output } => CommandV::LayoutGet {
                tags: *tags,
                output: output_view(*output),
            },
            Command::LayoutCommand { cmd, args } => CommandV::LayoutCommand {
                cmd: cmd@,
                args: str_views(args@),
            },
            Command::ListWindows => CommandV::ListWindows,
            Command::ListOutputs => CommandV::ListOutputs,
            Command::GetState => CommandV::GetState,
            Command::FocusedWindow => CommandV::FocusedWindow,
            Command::Exec { command } => CommandV::Exec { command: command@ },
            Command::ExecOrFocus { app_name, command } => CommandV::ExecOrFocus {
                app_name: app_name@,
                command: command@,
            },
            Command::Quit => CommandV::Quit,
        }
    }
}

/// One window as a query response reports it.
#[derive(Debug, Clone, PartialEq)]
pub struct WindowEntry {
    pub id: u32,
    pub app_name: String,
    pub title: String,
    pub tags: u32,
    pub x: i32,
    pub y: i32,
    pub width: u32,
    pub height: u32,
    pub is_focused: bool,
}

/// One output as a query response reports it.
#[derive(Debug, Clone, PartialEq)]
pub struct OutputEntry {
    pub id: u32,
    pub name: String,
    pub x: i32,
    pub y: i32,
    pub width: u32,
    pub height: u32,
    pub visible_tags: u32,
    pub is_main: bool,
    pub is_focused: bool,
}

/// The daemon state as a query response reports it.
#[derive(Debug, Clone, PartialEq)]
pub struct StateSummary {
    pub visible_tags: u32,
    pub focused_window_id: Option<u32>,
    pub window_count: u32,
    pub default_layout: String,
    pub current_layout: Option<String>,
}

/// One hotkey binding as a query response reports it.
#[derive(Debug, Clone, PartialEq)]
pub struct BindingEntry {
    pub key: String,
    pub action: String,
}

/// A control-protocol response, one per command line.
#[derive(Debug, Clone, PartialEq)]
pub enum Response {
    Okay,
    Error { message: String },
    Windows { windows: Vec<WindowEntry> },
    Outputs { outputs: Vec<OutputEntry> },
    State { state: StateSummary },
    Bindings { bindings: Vec<BindingEntry> },
    WindowId { id: Option<u32> },
    Layout { layout: String },
}

} // verus!
