use vstd::prelude::*;
use vstd::string::StringExecFns;

use crate::cascade::{arg_views, arg_u32, first_index_of, flipped, lemma_first_index_of, Orientation};
use crate::layouts::{
    clamp_coord_u128, clamp_u32_u128, coord, position_of, ratio_sat, sat32, to_coord,
};
use crate::protocol::{LayoutMessage, LayoutResult, WindowGeometry};
use crate::strutil::{
    dec_value, is_permille_numeral, is_u32_numeral, numeral_body, parse_permille, parse_u32,
    permille_value, str_eq,
};

verus! {

/// The hybrid engine's configuration: a master-stack main area with an
/// inner gap, a cascade stack area with its own padding and axis, an
/// explicit "zoom" pin, and focus tracking.
#[derive(Debug, Clone, Copy, PartialEq, Eq, Structural)]
pub struct HybridState {
    pub main_count: u32,
    pub main_ratio_permille: u32,
    pub inner_gap: u32,
    pub byobu_padding: u32,
    pub orientation: Orientation,
    pub main_window_id: Option<u32>,
    pub focused_window_id: Option<u32>,
}

impl Default for HybridState {
    /// A fresh engine: one main window at half width, no gap, stack
    /// padding 30, horizontal fan, nothing pinned or focused.
    fn default() -> (s: HybridState)
        ensures
            s == (HybridState {
                main_count: 1u32,
                main_ratio_permille: 500u32,
                inner_gap: 0u32,
                byobu_padding: 30u32,
                orientation: Orientation::Horizontal,
                main_window_id: None,
                focused_window_id: None,
            }),
    {
        HybridState {
            main_count: 1,
            main_ratio_permille: 500,
            inner_gap: 0,
            byobu_padding: 30,
            orientation: Orientation::Horizontal,
            main_window_id: None,
            focused_window_id: None,
        }
    }
}

/// The ordering after the "zoom" pin: the pinned id first, every other
/// listed id after it in order; without a pin (or with a pin that is not
/// listed) the ordering is untouched.
pub open spec fn zoom_reorder(ids: Seq<u32>, main_id: Option<u32>) -> Seq<u32> {
    match main_id {
        Some(m) => if ids.contains(m) {
            seq![m] + ids.filter(|x: u32| x != m)
        } else {
            ids
        },
        None => ids,
    }
}

/// The stack ordering: the focused stack window moves to the end, the
/// rest keep their order.
pub open spec fn stack_reorder(stack: Seq<u32>, focused: Option<u32>) -> Seq<u32> {
    match focused {
        Some(f) => {
            let p = first_index_of(stack, f);
            if p < stack.len() {
                stack.take(p) + stack.skip(p + 1) + seq![stack[p]]
            } else {
                stack
            }
        },
        None => stack,
    }
}

/// The width left for windows once the inner gap is set aside.
pub open spec fn hybrid_avail(width: u32, gap: u32) -> int {
    if width >= gap {
        width - gap
    } else {
        0
    }
}

/// The main area width: `floor(avail * ratio)` while stack windows
/// exist, the full width otherwise.
pub open spec fn hybrid_main_width(s: HybridState, width: u32, sc: int) -> int {
    if sc > 0 {
        sat32(hybrid_avail(width, s.inner_gap) * s.main_ratio_permille / 1000)
    } else {
        width as int
    }
}

/// The stack area width: what the main area leaves of the available
/// width.
pub open spec fn hybrid_stack_width(s: HybridState, width: u32, sc: int) -> int {
    if sc > 0 {
        let a = hybrid_avail(width, s.inner_gap);
        let mw = hybrid_main_width(s, width, sc);
        if a >= mw {
            a - mw
        } else {
            0
        }
    } else {
        0
    }
}

/// The height of one main row: the height minus the gaps between rows,
/// divided evenly.
pub open spec fn hybrid_row_height(s: HybridState, height: u32, mc: int) -> int {
    let mtg = sat32(s.inner_gap * (if mc > 0 {
        mc - 1
    } else {
        0
    }));
    (if height >= mtg {
        height - mtg
    } else {
        0
    }) / (if mc > 0 {
        mc
    } else {
        1
    })
}

/// The geometry the hybrid layout assigns: main rows stack vertically
/// with the gap between them, the last row absorbing the exact remaining
/// height; stack windows cascade beside them, all shrunk by the same
/// total offset, each shifted by the padding times its position, with
/// the focused stack window last and so at the deepest offset.
pub open spec fn hybrid_geometry_ok(
    s: HybridState,
    width: u32,
    height: u32,
    ids: Seq<u32>,
    out: Seq<WindowGeometry>,
) -> bool {
    if ids.len() == 0 {
        out.len() == 0
    } else {
        let ord = zoom_reorder(ids, s.main_window_id);
        let n = ord.len() as int;
        let mc = if (s.main_count as int) < n {
            s.main_count as int
        } else {
            n
        };
        let sc = n - mc;
        let gap = s.inner_gap as int;
        let mw = hybrid_main_width(s, width, sc);
        let sw = hybrid_stack_width(s, width, sc);
        let mwh = hybrid_row_height(s, height, mc);
        let ostack = stack_reorder(ord.skip(mc), s.focused_window_id);
        let sx = sat32(mw + gap);
        let toff = sat32(s.byobu_padding * (sc - 1));
        &&& out.len() == n
        &&& forall|i: int|
            0 <= i < mc ==> #[trigger] out[i] == (WindowGeometry {
                id: ord[i],
                x: 0,
                y: coord(i * (mwh + gap)) as i32,
                width: mw as u32,
                height: (if i == mc - 1 {
                    if height >= i * (mwh + gap) {
                        height - i * (mwh + gap)
                    } else {
                        0int
                    }
                } else {
                    mwh
                }) as u32,
            })
        &&& forall|i: int|
            0 <= i < sc ==> #[trigger] out[mc + i] == (match s.orientation {
                Orientation::Horizontal => WindowGeometry {
                    id: ostack[i],
                    x: coord(sx + s.byobu_padding * i) as i32,
                    y: 0,
                    width: (if sw >= toff {
                        sw - toff
                    } else {
                        0int
                    }) as u32,
                    height,
                },
                Orientation::Vertical => WindowGeometry {
                    id: ostack[i],
                    x: coord(sx) as i32,
                    y: coord(s.byobu_padding * i) as i32,
                    width: sw as u32,
                    height: (if height >= toff {
                        height - toff
                    } else {
                        0int
                    }) as u32,
                },
            })
    }
}

/// Compute the hybrid layout.
#[verifier::rlimit(100)]
pub fn generate_layout(s: &HybridState, width: u32, height: u32, window_ids: &Vec<u32>) -> (r:
    Vec<WindowGeometry>)
    ensures
        hybrid_geometry_ok(*s, width, height, window_ids@, r@),
{
    let mut r: Vec<WindowGeometry> = Vec::new();
    if window_ids.len() == 0 {
        return r;
    }
    // zoom: pin the chosen window, when listed, to the front
    let zoom: Option<u32> = match s.main_window_id {
        Some(m) => {
            match position_of(window_ids, m) {
                Some(j) => {
                    proof {
                        assert(window_ids@.contains(m));
                    }
                    Some(m)
                },
                None => {
                    proof {
                        assert(!window_ids@.contains(m));
                    }
                    None
                },
            }
        },
        None => None,
    };
    let mut ord: Vec<u32> = Vec::new();
    match zoom {
        Some(m) => {
            ord.push(m);
            let ghost pred = |x: u32| x != m;
            proof {
                reveal_with_fuel(Seq::filter, 1);
                assert(window_ids@.take(0) =~= Seq::<u32>::empty());
                assert(ord@ =~= seq![m] + window_ids@.take(0).filter(pred));
            }
            let mut k: usize = 0;
            while k < window_ids.len()
                invariant
                    k <= window_ids@.len(),
                    pred == (|x: u32| x != m),
                    ord@ == seq![m] + window_ids@.take(k as int).filter(pred),
                decreases window_ids@.len() - k,
            {
                let ghost prefix = window_ids@.take(k as int);
                let x = window_ids[k];
                if x != m {
                    ord.push(x);
                }
                proof {
                    reveal_with_fuel(Seq::filter, 2);
                    let next = window_ids@.take(k + 1 as int);
                    assert(next.drop_last() =~= prefix);
                    assert(next.last() == x);
                    if pred(x) {
                        assert(ord@ =~= seq![m] + prefix.filter(pred).push(x));
                    }
                }
                k = k + 1;
            }
            proof {
                assert(window_ids@.take(window_ids@.len() as int) =~= window_ids@);
                assert(ord@ == zoom_reorder(window_ids@, s.main_window_id));
            }
        },
        None => {
            let mut k: usize = 0;
            while k < window_ids.len()
                invariant
                    k <= window_ids@.len(),
                    ord@ == window_ids@.take(k as int),
                decreases window_ids@.len() - k,
            {
                let x = window_ids[k];
                ord.push(x);
                proof {
                    assert(ord@ =~= window_ids@.take(k + 1 as int));
                }
                k = k + 1;
            }
            proof {
                assert(window_ids@.take(window_ids@.len() as int) =~= window_ids@);
                assert(ord@ == zoom_reorder(window_ids@, s.main_window_id));
            }
        },
    }
    let n = ord.len();
    let mc: usize = if (s.main_count as usize) < n {
        s.main_count as usize
    } else {
        n
    };
    let sc: usize = n - mc;
    let (mw, sw): (u32, u32) = if sc > 0 {
        let avail = width.saturating_sub(s.inner_gap);
        let m = ratio_sat(avail, s.main_ratio_permille);
        (m, avail.saturating_sub(m))
    } else {
        (width, 0)
    };
    // main rows
    proof {
        assert((s.inner_gap as int) * ((mc as int) - 1) <= 0xFFFF_FFFFint
            * 0xFFFF_FFFF_FFFF_FFFFint) by (nonlinear_arith)
            requires
                0 <= s.inner_gap as int <= 0xFFFF_FFFFint,
                (mc as int) - 1 <= 0xFFFF_FFFF_FFFF_FFFFint,
        ;
    }
    let mtg: u32 = clamp_u32_u128(
        (s.inner_gap as u128) * (if mc > 0 {
            (mc - 1) as u128
        } else {
            0
        }),
    );
    let mwh: u32 = ((height.saturating_sub(mtg) as u64) / (if mc > 0 {
        mc as u64
    } else {
        1
    })) as u32;
    proof {
        assert(mw == hybrid_main_width(*s, width, sc as int));
        assert(sw == hybrid_stack_width(*s, width, sc as int));
        assert(mwh == hybrid_row_height(*s, height, mc as int));
    }
    let mut i: usize = 0;
    while i < mc
        invariant
            i <= mc,
            mc <= n,
            n == ord@.len(),
            ord@ == zoom_reorder(window_ids@, s.main_window_id),
            window_ids@.len() > 0,
            mc as int == (if (s.main_count as int) < n as int {
                s.main_count as int
            } else {
                n as int
            }),
            sc == n - mc,
            mw == hybrid_main_width(*s, width, sc as int),
            sw == hybrid_stack_width(*s, width, sc as int),
            mwh == hybrid_row_height(*s, height, mc as int),
            r@.len() == i,
            forall|k: int|
                0 <= k < i ==> #[trigger] r@[k] == (WindowGeometry {
                    id: ord@[k],
                    x: 0,
                    y: coord(k * (mwh as int + s.inner_gap as int)) as i32,
                    width: mw,
                    height: (if k == mc - 1 {
                        if height >= k * (mwh as int + s.inner_gap as int) {
                            height - k * (mwh as int + s.inner_gap as int)
                        } else {
                            0int
                        }
                    } else {
                        mwh as int
                    }) as u32,
                }),
        decreases mc - i,
    {
        let row = (mwh as u128) + (s.inner_gap as u128);
        proof {
            assert((i as int) * ((mwh as int) + (s.inner_gap as int)) <= 0xFFFF_FFFF_FFFF_FFFFint
                * 0x2_0000_0000int) by (nonlinear_arith)
                requires
                    0 <= i as int <= 0xFFFF_FFFF_FFFF_FFFFint,
                    0 <= (mwh as int) + (s.inner_gap as int) <= 0x2_0000_0000int,
            ;
        }
        let y128 = (i as u128) * row;
        let y = clamp_coord_u128(y128);
        let h: u32 = if i == mc - 1 {
            if y128 >= height as u128 {
                0
            } else {
                height - (y128 as u32)
            }
        } else {
            mwh
        };
        let id = ord[i];
        r.push(WindowGeometry { id, x: 0, y, width: mw, height: h });
        i = i + 1;
    }
    // stack area
    if sc > 0 {
        let mut stack: Vec<u32> = Vec::new();
        let mut k: usize = mc;
        proof {
            assert(stack@ =~= ord@.skip(mc as int).take(0));
        }
        while k < n
            invariant
                mc <= k <= n,
                n == ord@.len(),
                stack@ == ord@.skip(mc as int).take(k - mc),
            decreases n - k,
        {
            let x = ord[k];
            stack.push(x);
            proof {
                assert(ord@.skip(mc as int).take(k + 1 - mc).drop_last() =~= ord@.skip(
                    mc as int,
                ).take(k - mc));
                assert(ord@.skip(mc as int).take(k + 1 - mc).last() == ord@[k as int]);
                assert(stack@ =~= ord@.skip(mc as int).take(k + 1 - mc));
            }
            k = k + 1;
        }
        proof {
            assert(ord@.skip(mc as int).take(n - mc) =~= ord@.skip(mc as int));
        }
        // the focused stack window moves to the end
        let mut ostack: Vec<u32> = Vec::new();
        let fpos: Option<usize> = match s.focused_window_id {
            Some(f) => {
                match position_of(&stack, f) {
                    Some(p) => {
                        proof {
                            lemma_first_index_of(stack@, f, p as int);
                        }
                        Some(p)
                    },
                    None => {
                        proof {
                            lemma_first_index_of(stack@, f, stack@.len() as int);
                        }
                        None
                    },
                }
            },
            None => None,
        };
        match fpos {
            Some(p) => {
                let mut k2: usize = 0;
                while k2 < stack.len()
                    invariant
                        k2 <= stack@.len(),
                        p < stack@.len(),
                        ostack@ == if k2 <= p {
                            stack@.take(k2 as int)
                        } else {
                            stack@.take(p as int) + stack@.subrange(p + 1, k2 as int)
                        },
                    decreases stack@.len() - k2,
                {
                    if k2 != p {
                        let x = stack[k2];
                        ostack.push(x);
                    }
                    proof {
                        if k2 < p {
                            assert(ostack@ =~= stack@.take(k2 + 1 as int));
                        } else if k2 == p {
                            assert(ostack@ =~= stack@.take(p as int) + stack@.subrange(
                                p + 1,
                                k2 + 1 as int,
                            ));
                        } else {
                            assert(ostack@ =~= stack@.take(p as int) + stack@.subrange(
                                p + 1,
                                k2 + 1 as int,
                            ));
                        }
                    }
                    k2 = k2 + 1;
                }
                let x = stack[p];
                ostack.push(x);
                proof {
                    assert(stack@.subrange(p + 1, stack@.len() as int) =~= stack@.skip(p + 1));
                    assert(ostack@ =~= stack@.take(p as int) + stack@.skip(p + 1) + seq![
                        stack@[p as int],
                    ]);
                    assert(ostack@ == stack_reorder(stack@, s.focused_window_id));
                }
            },
            None => {
                let mut k2: usize = 0;
                while k2 < stack.len()
                    invariant
                        k2 <= stack@.len(),
                        ostack@ == stack@.take(k2 as int),
                    decreases stack@.len() - k2,
                {
                    let x = stack[k2];
                    ostack.push(x);
                    proof {
                        assert(ostack@ =~= stack@.take(k2 + 1 as int));
                    }
                    k2 = k2 + 1;
                }
                proof {
                    assert(stack@.take(stack@.len() as int) =~= stack@);
                    assert(ostack@ == stack_reorder(stack@, s.focused_window_id));
                }
            },
        }
        let sx: u32 = clamp_u32_u128((mw as u128) + (s.inner_gap as u128));
        proof {
            assert((s.byobu_padding as int) * ((sc - 1) as int) <= 0xFFFF_FFFFint
                * 0xFFFF_FFFF_FFFF_FFFFint) by (nonlinear_arith)
                requires
                    0 <= s.byobu_padding as int <= 0xFFFF_FFFFint,
                    0 <= (sc - 1) as int <= 0xFFFF_FFFF_FFFF_FFFFint,
            ;
        }
        let toff: u32 = clamp_u32_u128((s.byobu_padding as u128) * ((sc - 1) as u128));
        let shrunk_w = sw.saturating_sub(toff);
        let shrunk_h = height.saturating_sub(toff);
        let mut j: usize = 0;
        while j < sc
            invariant
                j <= sc,
                sc >= 1,
                n == ord@.len(),
                ord@ == zoom_reorder(window_ids@, s.main_window_id),
                window_ids@.len() > 0,
                mc as int == (if (s.main_count as int) < n as int {
                    s.main_count as int
                } else {
                    n as int
                }),
                sc == n - mc,
                mw == hybrid_main_width(*s, width, sc as int),
                sw == hybrid_stack_width(*s, width, sc as int),
                mwh == hybrid_row_height(*s, height, mc as int),
                ostack@ == stack_reorder(ord@.skip(mc as int), s.focused_window_id),
                ostack@.len() == sc,
                sx == sat32(mw + s.inner_gap),
                toff == sat32(s.byobu_padding * (sc - 1)),
                shrunk_w as int == (if sw >= toff {
                    sw - toff
                } else {
                    0int
                }),
                shrunk_h as int == (if height >= toff {
                    height - toff
                } else {
                    0int
                }),
                r@.len() == mc + j,
                forall|k: int|
                    0 <= k < mc ==> #[trigger] r@[k] == (WindowGeometry {
                        id: ord@[k],
                        x: 0,
                        y: coord(k * (mwh as int + s.inner_gap as int)) as i32,
                        width: mw,
                        height: (if k == mc - 1 {
                            if height >= k * (mwh as int + s.inner_gap as int) {
                                height - k * (mwh as int + s.inner_gap as int)
                            } else {
                                0int
                            }
                        } else {
                            mwh as int
                        }) as u32,
                    }),
                forall|k: int|
                    0 <= k < j ==> #[trigger] r@[mc + k] == (match s.orientation {
                        Orientation::Horizontal => WindowGeometry {
                            id: ostack@[k],
                            x: coord(sat32(mw + s.inner_gap) + s.byobu_padding * k) as i32,
                            y: 0,
                            width: shrunk_w,
                            height,
                        },
                        Orientation::Vertical => WindowGeometry {
                            id: ostack@[k],
                            x: coord(sat32(mw + s.inner_gap) as int) as i32,
                            y: coord(s.byobu_padding * k) as i32,
                            width: sw as u32,
                            height: shrunk_h,
                        },
                    }),
            decreases sc - j,
        {
            proof {
                assert((s.byobu_padding as int) * (j as int) <= 0xFFFF_FFFFint
                    * 0xFFFF_FFFF_FFFF_FFFFint) by (nonlinear_arith)
                    requires
                        0 <= s.byobu_padding as int <= 0xFFFF_FFFFint,
                        0 <= j as int <= 0xFFFF_FFFF_FFFF_FFFFint,
                ;
            }
            let off128 = (s.byobu_padding as u128) * (j as u128);
            let id = ostack[j];
            let g = match s.orientation {
                Orientation::Horizontal => WindowGeometry {
                    id,
                    x: clamp_coord_u128((sx as u128) + off128),
                    y: 0,
                    width: shrunk_w,
                    height,
                },
                Orientation::Vertical => WindowGeometry {
                    id,
                    x: to_coord(sx),
                    y: clamp_coord_u128(off128),
                    width: sw,
                    height: shrunk_h,
                },
            };
            r.push(g);
            j = j + 1;
        }
    }
    r
}

/// The first argument read as a ratio at permille resolution, if there
/// is one and it parses.
pub open spec fn arg_permille(args: Seq<Seq<char>>) -> Option<int> {
    if args.len() > 0 && is_permille_numeral(args[0]) {
        Some(permille_value(args[0]))
    } else {
        None
    }
}

/// What one engine command does to the hybrid state, and what it
/// replies: ratio set (rejected outside [0.1, 0.9]) or adjust (default
/// step 0.05, silently clamped to the same range), main count set or
/// adjust, the zoom pin, stack orientation, gap and padding, and focus
/// tracking, which in this engine demands an immediate retile.
pub open spec fn hybrid_command_post(
    pre: HybridState,
    post: HybridState,
    cmd: Seq<char>,
    args: Seq<Seq<char>>,
    r: LayoutResult,
) -> bool {
    if cmd == "set-main-ratio"@ {
        match arg_permille(args) {
            Some(v) => if 100 <= v <= 900 {
                post == (HybridState { main_ratio_permille: v as u32, ..pre }) && r is Okay
            } else {
                post == pre && (r matches LayoutResult::Error { message } && message@
                    == "invalid ratio (must be 0.1-0.9)"@)
            },
            None => post == pre && (r matches LayoutResult::Error { message } && message@
                == "invalid ratio (must be 0.1-0.9)"@),
        }
    } else if cmd == "inc-main-ratio"@ {
        let delta = match arg_permille(args) {
            Some(v) => v,
            None => 50,
        };
        post == (HybridState {
            main_ratio_permille: (if pre.main_ratio_permille + delta <= 900 {
                pre.main_ratio_permille + delta
            } else {
                900int
            }) as u32,
            ..pre
        }) && r is Okay
    } else if cmd == "dec-main-ratio"@ {
        let delta = match arg_permille(args) {
            Some(v) => v,
            None => 50,
        };
        post == (HybridState {
            main_ratio_permille: (if pre.main_ratio_permille - delta >= 100 {
                pre.main_ratio_permille - delta
            } else {
                100int
            }) as u32,
            ..pre
        }) && r is Okay
    } else if cmd == "inc-main-count"@ {
        post == (HybridState { main_count: sat32(pre.main_count + 1) as u32, ..pre }) && r
            is Okay
    } else if cmd == "dec-main-count"@ {
        post == (HybridState {
            main_count: (if pre.main_count > 1 {
                pre.main_count - 1
            } else {
                pre.main_count as int
            }) as u32,
            ..pre
        }) && r is Okay
    } else if cmd == "set-main-count"@ {
        match arg_u32(args) {
            Some(v) => if v >= 1 {
                post == (HybridState { main_count: v as u32, ..pre }) && r is Okay
            } else {
                post == pre && (r matches LayoutResult::Error { message } && message@
                    == "invalid count (must be >= 1)"@)
            },
            None => post == pre && (r matches LayoutResult::Error { message } && message@
                == "invalid count (must be >= 1)"@),
        }
    } else if cmd == "zoom"@ {
        let target = match arg_u32(args) {
            Some(v) => Some(v as u32),
            None => pre.focused_window_id,
        };
        match target {
            Some(id) => post == (HybridState { main_window_id: Some(id), ..pre }) && r is Okay,
            None => post == pre && (r matches LayoutResult::Error { message } && message@
                == "no window to zoom (use: zoom <window_id> or focus a window first)"@),
        }
    } else if cmd == "set-orientation"@ {
        if args.len() > 0 && (args[0] == "horizontal"@ || args[0] == "h"@) {
            post == (HybridState { orientation: Orientation::Horizontal, ..pre }) && r is Okay
        } else if args.len() > 0 && (args[0] == "vertical"@ || args[0] == "v"@) {
            post == (HybridState { orientation: Orientation::Vertical, ..pre }) && r is Okay
        } else {
            post == pre && (r matches LayoutResult::Error { message } && message@
                == "invalid orientation (use horizontal/h or vertical/v)"@)
        }
    } else if cmd == "toggle-orientation"@ {
        post == (HybridState { orientation: flipped(pre.orientation), ..pre }) && r is Okay
    } else if cmd == "focus-changed"@ {
        match arg_u32(args) {
            Some(v) => post == (HybridState { focused_window_id: Some(v as u32), ..pre }) && r
                is NeedsRetile,
            None => post == pre && (r matches LayoutResult::Error { message } && message@
                == "usage: focus-changed <window_id>"@),
        }
    } else if cmd == "set-inner-gap"@ {
        match arg_u32(args) {
            Some(v) => post == (HybridState { inner_gap: v as u32, ..pre }) && r is Okay,
            None => post == pre && (r matches LayoutResult::Error { message } && message@
                == "invalid gap value"@),
        }
    } else if cmd == "set-byobu-padding"@ {
        match arg_u32(args) {
            Some(v) => post == (HybridState { byobu_padding: v as u32, ..pre }) && r is Okay,
            None => post == pre && (r matches LayoutResult::Error { message } && message@
                == "invalid padding value"@),
        }
    } else {
        post == pre && (r matches LayoutResult::Error { message } && message@
            == "unknown command: "@ + cmd)
    }
}

/// Apply one engine command to the hybrid state.
pub fn handle_command(s: &mut HybridState, cmd: &str, args: &Vec<String>) -> (r: LayoutResult)
    ensures
        hybrid_command_post(*old(s), *final(s), cmd@, arg_views(args@), r),
{
    proof {
        if args@.len() > 0 {
            assert(arg_views(args@)[0] == args@[0]@);
        }
    }
    if str_eq(cmd, "set-main-ratio") {
        if args.len() > 0 {
            match parse_permille(args[0].as_str()) {
                Some(v) => {
                    if 100 <= v && v <= 900 {
                        s.main_ratio_permille = v;
                        return LayoutResult::Okay;
                    }
                },
                None => {},
            }
        }
        return LayoutResult::Error { message: "invalid ratio (must be 0.1-0.9)".to_owned() };
    }
    if str_eq(cmd, "inc-main-ratio") {
        let delta = if args.len() > 0 {
            match parse_permille(args[0].as_str()) {
                Some(v) => v,
                None => 50,
            }
        } else {
            50
        };
        let raised = s.main_ratio_permille.saturating_add(delta);
        s.main_ratio_permille = if raised <= 900 {
            raised
        } else {
            900
        };
        return LayoutResult::Okay;
    }
    if str_eq(cmd, "dec-main-ratio") {
        let delta = if args.len() > 0 {
            match parse_permille(args[0].as_str()) {
                Some(v) => v,
                None => 50,
            }
        } else {
            50
        };
        let lowered = s.main_ratio_permille.saturating_sub(delta);
        s.main_ratio_permille = if lowered >= 100 {
            lowered
        } else {
            100
        };
        return LayoutResult::Okay;
    }
    if str_eq(cmd, "inc-main-count") {
        s.main_count = s.main_count.saturating_add(1);
        return LayoutResult::Okay;
    }
    if str_eq(cmd, "dec-main-count") {
        if s.main_count > 1 {
            s.main_count = s.main_count - 1;
        }
        return LayoutResult::Okay;
    }
    if str_eq(cmd, "set-main-count") {
        if args.len() > 0 {
            match parse_u32(args[0].as_str()) {
                Some(v) => {
                    if v >= 1 {
                        s.main_count = v;
                        return LayoutResult::Okay;
                    }
                },
                None => {},
            }
        }
        return LayoutResult::Error { message: "invalid count (must be >= 1)".to_owned() };
    }
    if str_eq(cmd, "zoom") {
        let target: Option<u32> = if args.len() > 0 {
            match parse_u32(args[0].as_str()) {
                Some(v) => Some(v),
                None => s.focused_window_id,
            }
        } else {
            s.focused_window_id
        };
        match target {
            Some(id) => {
                s.main_window_id = Some(id);
                return LayoutResult::Okay;
            },
            None => {
                return LayoutResult::Error {
                    message: "no window to zoom (use: zoom <window_id> or focus a window first)"
                        .to_owned(),
                };
            },
        }
    }
    if str_eq(cmd, "set-orientation") {
        if args.len() > 0 {
            if str_eq(args[0].as_str(), "horizontal") || str_eq(args[0].as_str(), "h") {
                s.orientation = Orientation::Horizontal;
                return LayoutResult::Okay;
            }
            if str_eq(args[0].as_str(), "vertical") || str_eq(args[0].as_str(), "v") {
                s.orientation = Orientation::Vertical;
                return LayoutResult::Okay;
            }
        }
        return LayoutResult::Error {
            message: "invalid orientation (use horizontal/h or vertical/v)".to_owned(),
        };
    }
    if str_eq(cmd, "toggle-orientation") {
        s.orientation = match s.orientation {
            Orientation::Horizontal => Orientation::Vertical,
            Orientation::Vertical => Orientation::Horizontal,
        };
        return LayoutResult::Okay;
    }
    if str_eq(cmd, "focus-changed") {
        if args.len() > 0 {
            match parse_u32(args[0].as_str()) {
                Some(v) => {
                    s.focused_window_id = Some(v);
                    return LayoutResult::NeedsRetile;
                },
                None => {},
            }
        }
        return LayoutResult::Error { message: "usage: focus-changed <window_id>".to_owned() };
    }
    if str_eq(cmd, "set-inner-gap") {
        if args.len() > 0 {
            match parse_u32(args[0].as_str()) {
                Some(v) => {
                    s.inner_gap = v;
                    return LayoutResult::Okay;
                },
                None => {},
            }
        }
        return LayoutResult::Error { message: "invalid gap value".to_owned() };
    }
    if str_eq(cmd, "set-byobu-padding") {
        if args.len() > 0 {
            match parse_u32(args[0].as_str()) {
                Some(v) => {
                    s.byobu_padding = v;
                    return LayoutResult::Okay;
                },
                None => {},
            }
        }
        return LayoutResult::Error { message: "invalid padding value".to_owned() };
    }
    let mut message = "unknown command: ".to_owned();
    message.append(cmd);
    LayoutResult::Error { message }
}

/// Answer one wire message: a layout request computes the hybrid layout
/// and changes nothing; a command goes to `handle_command`.
pub fn handle_message(s: &mut HybridState, msg: LayoutMessage) -> (r: LayoutResult)
    ensures
        match msg {
            LayoutMessage::Layout { width, height, windows } => *final(s) == *old(s) && (r matches
                LayoutResult::Layout { windows: out } && hybrid_geometry_ok(
                *old(s),
                width,
                height,
                windows@,
                out@,
            )),
            LayoutMessage::Command { cmd, args } => hybrid_command_post(
                *old(s),
                *final(s),
                cmd@,
                arg_views(args@),
                r,
            ),
        },
{
    match msg {
        LayoutMessage::Layout { width, height, windows } => {
            let geometries = generate_layout(s, width, height, &windows);
            LayoutResult::Layout { windows: geometries }
        },
        LayoutMessage::Command { cmd, args } => handle_command(s, cmd.as_str(), &args),
    }
}

} // verus!
