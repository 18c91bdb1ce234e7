use vstd::prelude::*;

use crate::layouts::{coord, ratio_of, to_coord};
use crate::window::Rect;

verus! {

/// How many of the windows go to the main area: the configured count,
/// clamped to the windows there are.
pub open spec fn ms_main_count(window_count: u32, main_count: u32) -> int {
    if main_count < window_count {
        main_count as int
    } else {
        window_count as int
    }
}

/// The width of the main area: `floor(width * ratio)` while stack windows
/// exist, the full width otherwise.
pub open spec fn ms_main_width(width: u32, ratio_permille: u32, stack_count: int) -> int {
    if stack_count > 0 {
        if width * ratio_permille / 1000 > width {
            width as int
        } else {
            width * ratio_permille / 1000
        }
    } else {
        width as int
    }
}

/// The master-stack layout: the first `main_count` windows stack
/// vertically in a main column of `floor(width * ratio)`, the rest stack
/// vertically in the remaining column; each column divides the height
/// evenly, rounding down, with no remainder redistribution.
pub fn generate_layout(
    width: u32,
    height: u32,
    window_count: u32,
    main_count: u32,
    ratio_permille: u32,
) -> (r: Vec<Rect>)
    ensures
        r@.len() == window_count,
        ({
            let mc = ms_main_count(window_count, main_count);
            let sc = window_count - mc;
            let mw = ms_main_width(width, ratio_permille, sc);
            let mh = height as int / (if mc > 0 { mc } else { 1int });
            &&& forall|i: int|
                0 <= i < mc ==> #[trigger] r@[i] == (Rect {
                    x: 0,
                    y: coord(i * mh) as i32,
                    width: mw as u32,
                    height: mh as u32,
                })
            &&& forall|i: int|
                mc <= i < window_count ==> #[trigger] r@[i] == (Rect {
                    x: coord(mw) as i32,
                    y: coord((i - mc) * (height as int / (if sc > 0 { sc } else { 1int }))) as i32,
                    width: (width - mw) as u32,
                    height: (height as int / (if sc > 0 { sc } else { 1int })) as u32,
                })
        }),
{
    let mut r: Vec<Rect> = Vec::new();
    if window_count == 0 {
        return r;
    }
    let mc: u32 = if main_count < window_count {
        main_count
    } else {
        window_count
    };
    let sc: u32 = window_count - mc;
    let mw: u32 = if sc > 0 {
        ratio_of(width, ratio_permille)
    } else {
        width
    };
    proof {
        assert(mw <= width);
    }
    let sw: u32 = width - mw;
    let mh: u32 = height / (if mc > 0 {
        mc
    } else {
        1
    });
    let mut i: u32 = 0;
    while i < mc
        invariant
            i <= mc,
            mc == ms_main_count(window_count, main_count),
            sc == window_count - mc,
            mw == ms_main_width(width, ratio_permille, sc as int),
            mw <= width,
            sw == width - mw,
            mh == height as int / (if mc > 0 { mc as int } else { 1int }),
            r@.len() == i,
            forall|k: int|
                0 <= k < i ==> #[trigger] r@[k] == (Rect {
                    x: 0,
                    y: coord(k * (mh as int)) as i32,
                    width: mw,
                    height: mh,
                }),
        decreases mc - i,
    {
        proof {
            assert(i * mh <= mc * mh <= height) by (nonlinear_arith)
                requires
                    i < mc,
                    mh == height as int / (mc as int),
            ;
        }
        let y = to_coord(i * mh);
        r.push(Rect { x: 0, y, width: mw, height: mh });
        i = i + 1;
    }
    if sc > 0 {
        let sh: u32 = height / sc;
        let x = to_coord(mw);
        let mut j: u32 = 0;
        while j < sc
            invariant
                j <= sc,
                sc >= 1,
                mc == ms_main_count(window_count, main_count),
                sc == window_count - mc,
                mw == ms_main_width(width, ratio_permille, sc as int),
                mw <= width,
                sw == width - mw,
                mh == height as int / (if mc > 0 { mc as int } else { 1int }),
                sh == height as int / (sc as int),
                x == coord(mw as int),
                r@.len() == mc + j,
                forall|k: int|
                    0 <= k < mc ==> #[trigger] r@[k] == (Rect {
                        x: 0,
                        y: coord(k * (mh as int)) as i32,
                        width: mw,
                        height: mh,
                    }),
                forall|k: int|
                    mc <= k < mc + j ==> #[trigger] r@[k] == (Rect {
                        x: coord(mw as int) as i32,
                        y: coord((k - mc) * (sh as int)) as i32,
                        width: sw,
                        height: sh,
                    }),
            decreases sc - j,
        {
            proof {
                assert(j * sh <= sc * sh <= height) by (nonlinear_arith)
                    requires
                        j <= sc,
                        sh == height as int / (sc as int),
                        sc >= 1,
                ;
            }
            let y = to_coord(j * sh);
            r.push(Rect { x, y, width: sw, height: sh });
            j = j + 1;
        }
    }
    r
}

} // verus!
