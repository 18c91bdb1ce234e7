use vstd::prelude::*;
use vstd::string::StringExecFns;

use crate::layouts::{coord, position_of, sat32, sat_add_u32, sat_mul_u32, to_coord};
use crate::protocol::{LayoutMessage, LayoutResult, WindowGeometry};
use crate::strutil::{dec_value, is_u32_numeral, numeral_body, parse_u32, str_eq};

verus! {

/// The axis along which cascade panels fan out.
#[derive(Debug, Clone, Copy, PartialEq, Eq, Structural)]
pub enum Orientation {
    Horizontal,
    Vertical,
}

/// The cascade engine's configuration: a single padding amount, the fan
/// axis, and which window is focused.
#[derive(Debug, Clone, Copy, PartialEq, Eq, Structural)]
pub struct CascadeState {
    pub padding: u32,
    pub orientation: Orientation,
    pub focused_window_id: Option<u32>,
}

impl Default for CascadeState {
    /// A fresh engine: padding 30, horizontal fan, nothing focused.
    fn default() -> (s: CascadeState)
        ensures
            s == (CascadeState {
                padding: 30u32,
                orientation: Orientation::Horizontal,
                focused_window_id: None,
            }),
    {
        CascadeState { padding: 30, orientation: Orientation::Horizontal, focused_window_id: None }
    }
}

/// The first position of `id` in `ids`, or their length when absent.
pub open spec fn first_index_of(ids: Seq<u32>, id: u32) -> int
    decreases ids.len(),
{
    if ids.len() == 0 {
        0
    } else if ids.first() == id {
        0
    } else {
        1 + first_index_of(ids.drop_first(), id)
    }
}

pub proof fn lemma_first_index_of(ids: Seq<u32>, id: u32, j: int)
    requires
        0 <= j <= ids.len(),
        forall|k: int| 0 <= k < j ==> ids[k] != id,
        j < ids.len() ==> ids[j] == id,
    ensures
        j < ids.len() ==> first_index_of(ids, id) == j,
        j == ids.len() ==> first_index_of(ids, id) == ids.len(),
    decreases ids.len(),
{
    if ids.len() > 0 && ids.first() != id {
        let tail = ids.drop_first();
        assert(forall|k: int| 0 <= k < j - 1 ==> tail[k] == ids[k + 1]);
        lemma_first_index_of(tail, id, if j > 0 {
            j - 1
        } else {
            0
        });
    }
}

/// The index the cascade fans around: the focused window's position in
/// the ordering, or the first window when nothing focused is listed.
pub open spec fn focus_index(ids: Seq<u32>, focused: Option<u32>) -> int {
    match focused {
        Some(f) => if first_index_of(ids, f) < ids.len() {
            first_index_of(ids, f)
        } else {
            0
        },
        None => 0,
    }
}

/// The leading and trailing padding of the window at `index` among
/// `count`, fanning around `focus`: the outermost windows touch their
/// edge, the windows flanking the focused one leave it double room, all
/// others take single padding on both sides.
pub open spec fn pad_pair(index: int, count: int, focus: int, padding: u32) -> (int, int) {
    let last = count - 1;
    if count == 1 {
        (0int, 0int)
    } else if index == 0 {
        if focus == 1 {
            (0int, sat32(2 * padding))
        } else {
            (0int, padding as int)
        }
    } else if index == last {
        if focus == last - 1 {
            (sat32(2 * padding), 0int)
        } else {
            (padding as int, 0int)
        }
    } else if index + 1 == focus {
        (0int, sat32(2 * padding))
    } else if index == focus + 1 {
        (sat32(2 * padding), 0int)
    } else {
        (padding as int, padding as int)
    }
}

/// The padding before and after one window of a cascade.
pub fn calculate_padding(index: usize, window_count: usize, focused_index: usize, padding: u32) -> (r:
    (u32, u32))
    ensures
        (r.0 as int, r.1 as int) == pad_pair(index as int, window_count as int, focused_index as int, padding),
{
    let double = sat_mul_u32(2, padding);
    let last_index = if window_count > 0 {
        window_count - 1
    } else {
        0
    };
    if window_count == 1 {
        return (0, 0);
    }
    if index == 0 {
        if focused_index == 1 {
            return (0, double);
        }
        return (0, padding);
    }
    if index == last_index {
        if last_index >= 1 && focused_index == last_index - 1 {
            return (double, 0);
        }
        return (padding, 0);
    }
    if index < usize::MAX && index + 1 == focused_index {
        return (0, double);
    }
    if focused_index < usize::MAX && index == focused_index + 1 {
        return (double, 0);
    }
    (padding, padding)
}

/// The geometry the cascade assigns to each listed window: each keeps its
/// id and, on the fan axis, starts at its leading padding and shrinks by
/// both paddings; the other axis spans the output.
pub open spec fn cascade_geometry_ok(
    s: CascadeState,
    width: u32,
    height: u32,
    ids: Seq<u32>,
    out: Seq<WindowGeometry>,
) -> bool {
    let fidx = focus_index(ids, s.focused_window_id);
    &&& out.len() == ids.len()
    &&& forall|i: int|
        0 <= i < ids.len() ==> {
            let (lp, rp) = pad_pair(i, ids.len() as int, fidx, s.padding);
            #[trigger] out[i] == (match s.orientation {
                Orientation::Horizontal => WindowGeometry {
                    id: ids[i],
                    x: coord(lp) as i32,
                    y: 0,
                    width: (if width - sat32(lp + rp) >= 0 {
                        width - sat32(lp + rp)
                    } else {
                        0int
                    }) as u32,
                    height,
                },
                Orientation::Vertical => WindowGeometry {
                    id: ids[i],
                    x: 0,
                    y: coord(lp) as i32,
                    width,
                    height: (if height - sat32(lp + rp) >= 0 {
                        height - sat32(lp + rp)
                    } else {
                        0int
                    }) as u32,
                },
            })
        }
}

/// Compute the cascade: overlapping, fan-like panels, not side-by-side
/// tiles; each window's geometry depends only on its own position
/// relative to the focused one.
pub fn generate_layout(s: &CascadeState, width: u32, height: u32, window_ids: &Vec<u32>) -> (r:
    Vec<WindowGeometry>)
    ensures
        cascade_geometry_ok(*s, width, height, window_ids@, r@),
{
    let mut r: Vec<WindowGeometry> = Vec::new();
    if window_ids.len() == 0 {
        return r;
    }
    let count = window_ids.len();
    let fidx: usize = match s.focused_window_id {
        Some(f) => {
            match position_of(window_ids, f) {
                Some(j) => {
                    proof {
                        lemma_first_index_of(window_ids@, f, j as int);
                    }
                    j
                },
                None => {
                    proof {
                        lemma_first_index_of(window_ids@, f, count as int);
                    }
                    0
                },
            }
        },
        None => 0,
    };
    proof {
        assert(fidx as int == focus_index(window_ids@, s.focused_window_id));
    }
    let mut i: usize = 0;
    while i < count
        invariant
            count == window_ids@.len(),
            i <= count,
            fidx as int == focus_index(window_ids@, s.focused_window_id),
            r@.len() == i,
            forall|m: int|
                0 <= m < i ==> {
                    let (lp, rp) = pad_pair(m, count as int, fidx as int, s.padding);
                    #[trigger] r@[m] == (match s.orientation {
                        Orientation::Horizontal => WindowGeometry {
                            id: window_ids@[m],
                            x: coord(lp) as i32,
                            y: 0,
                            width: (if width - sat32(lp + rp) >= 0 {
                                width - sat32(lp + rp)
                            } else {
                                0int
                            }) as u32,
                            height,
                        },
                        Orientation::Vertical => WindowGeometry {
                            id: window_ids@[m],
                            x: 0,
                            y: coord(lp) as i32,
                            width,
                            height: (if height - sat32(lp + rp) >= 0 {
                                height - sat32(lp + rp)
                            } else {
                                0int
                            }) as u32,
                        },
                    })
                },
        decreases count - i,
    {
        let (lp, rp) = calculate_padding(i, count, fidx, s.padding);
        let both = sat_add_u32(lp, rp);
        let id = window_ids[i];
        let g = match s.orientation {
            Orientation::Horizontal => WindowGeometry {
                id,
                x: to_coord(lp),
                y: 0,
                width: width.saturating_sub(both),
                height,
            },
            Orientation::Vertical => WindowGeometry {
                id,
                x: 0,
                y: to_coord(lp),
                width,
                height: height.saturating_sub(both),
            },
        };
        r.push(g);
        i = i + 1;
    }
    r
}

/// The views of a command's arguments.
pub open spec fn arg_views(args: Seq<String>) -> Seq<Seq<char>> {
    args.map_values(|a: String| a@)
}

/// The first argument read as a decimal `u32`, if there is one and it
/// parses.
pub open spec fn arg_u32(args: Seq<Seq<char>>) -> Option<int> {
    if args.len() > 0 && is_u32_numeral(args[0]) {
        Some(dec_value(numeral_body(args[0])))
    } else {
        None
    }
}

/// The opposite fan axis.
pub open spec fn flipped(o: Orientation) -> Orientation {
    match o {
        Orientation::Horizontal => Orientation::Vertical,
        Orientation::Vertical => Orientation::Horizontal,
    }
}

/// What one engine command does to the cascade state, and what it
/// replies: padding set-or-adjust (adjust defaults to 5 and saturates),
/// orientation set or toggle, focus tracking (a plain acknowledgement in
/// this engine), and an error naming any unknown command.
pub open spec fn cascade_command_post(
    pre: CascadeState,
    post: CascadeState,
    cmd: Seq<char>,
    args: Seq<Seq<char>>,
    r: LayoutResult,
) -> bool {
    if cmd == "set-padding"@ {
        match arg_u32(args) {
            Some(v) => post == (CascadeState { padding: v as u32, ..pre }) && r is Okay,
            None => post == pre && (r matches LayoutResult::Error { message } && message@
                == "invalid padding value"@),
        }
    } else if cmd == "inc-padding"@ {
        let delta = match arg_u32(args) {
            Some(v) => v,
            None => 5,
        };
        post == (CascadeState { padding: sat32(pre.padding + delta) as u32, ..pre }) && r is Okay
    } else if cmd == "dec-padding"@ {
        let delta = match arg_u32(args) {
            Some(v) => v,
            None => 5,
        };
        post == (CascadeState {
            padding: (if pre.padding >= delta {
                pre.padding - delta
            } else {
                0int
            }) as u32,
            ..pre
        }) && r is Okay
    } else if cmd == "set-orientation"@ {
        if args.len() > 0 && (args[0] == "horizontal"@ || args[0] == "h"@) {
            post == (CascadeState { orientation: Orientation::Horizontal, ..pre }) && r is Okay
        } else if args.len() > 0 && (args[0] == "vertical"@ || args[0] == "v"@) {
            post == (CascadeState { orientation: Orientation::Vertical, ..pre }) && r is Okay
        } else {
            post == pre && (r matches LayoutResult::Error { message } && message@
                == "invalid orientation (use horizontal/h or vertical/v)"@)
        }
    } else if cmd == "toggle-orientation"@ {
        post == (CascadeState { orientation: flipped(pre.orientation), ..pre }) && r is Okay
    } else if cmd == "focus-changed"@ {
        match arg_u32(args) {
            Some(v) => post == (CascadeState { focused_window_id: Some(v as u32), ..pre }) && r
                is Okay,
            None => post == pre && (r matches LayoutResult::Error { message } && message@
                == "usage: focus-changed <window_id>"@),
        }
    } else {
        post == pre && (r matches LayoutResult::Error { message } && message@
            == "unknown command: "@ + cmd)
    }
}

/// Apply one engine command to the cascade state.
pub fn handle_command(s: &mut CascadeState, cmd: &str, args: &Vec<String>) -> (r: LayoutResult)
    ensures
        cascade_command_post(*old(s), *final(s), cmd@, arg_views(args@), r),
{
    proof {
        if args@.len() > 0 {
            assert(arg_views(args@)[0] == args@[0]@);
        }
    }
    if str_eq(cmd, "set-padding") {
        if args.len() > 0 {
            match parse_u32(args[0].as_str()) {
                Some(v) => {
                    s.padding = v;
                    return LayoutResult::Okay;
                },
                None => {},
            }
        }
        return LayoutResult::Error { message: "invalid padding value".to_owned() };
    }
    if str_eq(cmd, "inc-padding") {
        let delta = if args.len() > 0 {
            match parse_u32(args[0].as_str()) {
                Some(v) => v,
                None => 5,
            }
        } else {
            5
        };
        s.padding = s.padding.saturating_add(delta);
        return LayoutResult::Okay;
    }
    if str_eq(cmd, "dec-padding") {
        let delta = if args.len() > 0 {
            match parse_u32(args[0].as_str()) {
                Some(v) => v,
                None => 5,
            }
        } else {
            5
        };
        s.padding = s.padding.saturating_sub(delta);
        return LayoutResult::Okay;
    }
    if str_eq(cmd, "set-orientation") {
        if args.len() > 0 {
            if str_eq(args[0].as_str(), "horizontal") || str_eq(args[0].as_str(), "h") {
                s.orientation = Orientation::Horizontal;
                return LayoutResult::Okay;
            }
            if str_eq(args[0].as_str(), "vertical") || str_eq(args[0].as_str(), "v") {
                s.orientation = Orientation::Vertical;
                return LayoutResult::Okay;
            }
        }
        return LayoutResult::Error {
            message: "invalid orientation (use horizontal/h or vertical/v)".to_owned(),
        };
    }
    if str_eq(cmd, "toggle-orientation") {
        s.orientation = match s.orientation {
            Orientation::Horizontal => Orientation::Vertical,
            Orientation::Vertical => Orientation::Horizontal,
        };
        return LayoutResult::Okay;
    }
    if str_eq(cmd, "focus-changed") {
        if args.len() > 0 {
            match parse_u32(args[0].as_str()) {
                Some(v) => {
                    s.focused_window_id = Some(v);
                    return LayoutResult::Okay;
                },
                None => {},
            }
        }
        return LayoutResult::Error { message: "usage: focus-changed <window_id>".to_owned() };
    }
    let mut message = "unknown command: ".to_owned();
    message.append(cmd);
    LayoutResult::Error { message }
}

/// Answer one wire message: a layout request computes the cascade and
/// changes nothing; a command goes to `handle_command`.
pub fn handle_message(s: &mut CascadeState, msg: LayoutMessage) -> (r: LayoutResult)
    ensures
        match msg {
            LayoutMessage::Layout { width, height, windows } => *final(s) == *old(s) && (r matches
                LayoutResult::Layout { windows: out } && cascade_geometry_ok(
                *old(s),
                width,
                height,
                windows@,
                out@,
            )),
            LayoutMessage::Command { cmd, args } => cascade_command_post(
                *old(s),
                *final(s),
                cmd@,
                arg_views(args@),
                r,
            ),
        },
{
    match msg {
        LayoutMessage::Layout { width, height, windows } => {
            let geometries = generate_layout(s, width, height, &windows);
            LayoutResult::Layout { windows: geometries }
        },
        LayoutMessage::Command { cmd, args } => handle_command(s, cmd.as_str(), &args),
    }
}

} // verus!
