use vstd::prelude::*;

use crate::tag::Tag;

verus! {

/// OS-assigned window identifier.  Unique only while the window exists;
/// the OS may reuse an id after the window is destroyed.
pub type WindowId = u32;

/// A window or output frame: signed position, unsigned extent.
#[derive(Debug, Clone, Copy, PartialEq, Eq, Structural)]
pub struct Rect {
    pub x: i32,
    pub y: i32,
    pub width: u32,
    pub height: u32,
}

impl Default for Rect {
    fn default() -> (r: Rect)
        ensures
            r.x == 0 && r.y == 0 && r.width == 0 && r.height == 0,
    {
        Rect { x: 0, y: 0, width: 0, height: 0 }
    }
}

/// The frame of a window as the OS enumeration reports it, already reduced
/// to plain integers by the caller.
#[derive(Debug, Clone, Copy, PartialEq, Eq, Structural)]
pub struct Bounds {
    pub x: i32,
    pub y: i32,
    pub width: u32,
    pub height: u32,
}

/// The `Rect` that a reported `Bounds` stands for.
pub open spec fn rect_of(b: Bounds) -> Rect {
    Rect { x: b.x, y: b.y, width: b.width, height: b.height }
}

impl Rect {
    pub fn from_bounds(bounds: &Bounds) -> (r: Rect)
        ensures
            r == rect_of(*bounds),
    {
        Rect { x: bounds.x, y: bounds.y, width: bounds.width, height: bounds.height }
    }
}

/// One entry of the OS window enumeration.
#[derive(Debug)]
pub struct WindowInfo {
    pub window_id: WindowId,
    pub pid: i32,
    pub name: Option<String>,
    pub owner_name: String,
    pub bounds: Bounds,
}

/// Mathematical image of a `WindowInfo`.
pub ghost struct WindowInfoV {
    pub window_id: WindowId,
    pub pid: i32,
    pub name: Option<Seq<char>>,
    pub owner_name: Seq<char>,
    pub bounds: Bounds,
}

impl View for WindowInfo {
    type V = WindowInfoV;

    open spec fn view(&self) -> WindowInfoV {
        WindowInfoV {
            window_id: self.window_id,
            pid: self.pid,
            name: match self.name {
                Some(s) => Some(s@),
                None => None,
            },
            owner_name: self.owner_name@,
            bounds: self.bounds,
        }
    }
}

/// The title an enumeration entry carries: its name, or empty when the OS
/// reported none.
pub open spec fn info_title(i: WindowInfoV) -> Seq<char> {
    match i.name {
        Some(t) => t,
        None => Seq::<char>::empty(),
    }
}

/// A tracked OS window.
#[derive(Debug)]
pub struct Window {
    pub id: WindowId,
    pub pid: i32,
    pub tags: Tag,
    pub title: String,
    pub app_name: String,
    pub frame: Rect,
    pub is_minimized: bool,
}

/// Mathematical image of a `Window`.
pub ghost struct WindowV {
    pub id: WindowId,
    pub pid: i32,
    pub tags: Tag,
    pub title: Seq<char>,
    pub app_name: Seq<char>,
    pub frame: Rect,
    pub is_minimized: bool,
}

impl View for Window {
    type V = WindowV;

    open spec fn view(&self) -> WindowV {
        WindowV {
            id: self.id,
            pid: self.pid,
            tags: self.tags,
            title: self.title@,
            app_name: self.app_name@,
            frame: self.frame,
            is_minimized: self.is_minimized,
        }
    }
}

impl Clone for Window {
    fn clone(&self) -> (r: Window)
        ensures
            r@ == self@,
    {
        Window {
            id: self.id,
            pid: self.pid,
            tags: self.tags,
            title: self.title.clone(),
            app_name: self.app_name.clone(),
            frame: self.frame,
            is_minimized: self.is_minimized,
        }
    }
}

/// The window that tracking an enumeration entry for the first time creates.
pub open spec fn fresh_window(i: WindowInfoV, default_tag: Tag) -> WindowV {
    WindowV {
        id: i.window_id,
        pid: i.pid,
        tags: default_tag,
        title: info_title(i),
        app_name: i.owner_name,
        frame: rect_of(i.bounds),
        is_minimized: false,
    }
}

impl Window {
    pub fn from_window_info(info: &WindowInfo, default_tag: Tag) -> (w: Window)
        ensures
            w@ == fresh_window(info@, default_tag),
    {
        let title = match &info.name {
            Some(n) => n.clone(),
            None => String::new(),
        };
        Window {
            id: info.window_id,
            pid: info.pid,
            tags: default_tag,
            title,
            app_name: info.owner_name.clone(),
            frame: Rect::from_bounds(&info.bounds),
            is_minimized: false,
        }
    }
}

} // verus!
