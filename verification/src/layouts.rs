use vstd::prelude::*;

verus! {

/// A nonnegative value clamped to what a `u32` holds.
pub open spec fn sat32(v: int) -> int {
    if v > u32::MAX {
        u32::MAX as int
    } else {
        v
    }
}

/// A nonnegative value clamped to what an `i32` coordinate holds.
pub open spec fn coord(v: int) -> int {
    if v > i32::MAX {
        i32::MAX as int
    } else {
        v
    }
}

/// Saturating `u32` addition.
pub fn sat_add_u32(a: u32, b: u32) -> (r: u32)
    ensures
        r == sat32(a + b),
{
    a.saturating_add(b)
}

/// Saturating `u32` multiplication.
pub fn sat_mul_u32(a: u32, b: u32) -> (r: u32)
    ensures
        r == sat32(a * b),
{
    match a.checked_mul(b) {
        Some(v) => v,
        None => u32::MAX,
    }
}

/// A nonnegative extent as a coordinate, clamped to what an `i32` holds.
pub fn to_coord(v: u32) -> (r: i32)
    ensures
        r == coord(v as int),
{
    if v > 0x7FFF_FFFFu32 {
        i32::MAX
    } else {
        v as i32
    }
}

/// `floor(width * ratio / 1000)`, clamped to `width`: the main area of a
/// master-stack split at permille resolution.
pub fn ratio_of(width: u32, ratio_permille: u32) -> (r: u32)
    ensures
        r == if width * ratio_permille / 1000 > width {
            width as int
        } else {
            width * ratio_permille / 1000
        },
{
    proof {
        assert((width as int) * (ratio_permille as int) <= 0xFFFF_FFFFint * 0xFFFF_FFFFint)
            by (nonlinear_arith)
            requires
                width as int <= 0xFFFF_FFFFint,
                ratio_permille as int <= 0xFFFF_FFFFint,
        ;
    }
    let wide = (width as u64) * (ratio_permille as u64) / 1000;
    proof {
        assert(width * ratio_permille == (width as u64) * (ratio_permille as u64)) by (nonlinear_arith);
        assert((width as u64) * (ratio_permille as u64) / 1000 == width * ratio_permille / 1000);
    }
    if wide > width as u64 {
        width
    } else {
        wide as u32
    }
}

/// `floor(avail * ratio / 1000)`, clamped to what a `u32` holds.
pub fn ratio_sat(avail: u32, ratio_permille: u32) -> (r: u32)
    ensures
        r == sat32(avail * ratio_permille / 1000),
{
    proof {
        assert((avail as int) * (ratio_permille as int) <= 0xFFFF_FFFFint * 0xFFFF_FFFFint)
            by (nonlinear_arith)
            requires
                avail as int <= 0xFFFF_FFFFint,
                ratio_permille as int <= 0xFFFF_FFFFint,
        ;
    }
    let wide = (avail as u64) * (ratio_permille as u64) / 1000;
    proof {
        assert(avail * ratio_permille == (avail as u64) * (ratio_permille as u64)) by (nonlinear_arith);
    }
    if wide > 0xFFFF_FFFFu64 {
        u32::MAX
    } else {
        wide as u32
    }
}

/// A nonnegative wide value as an `i32` coordinate, clamped.
pub fn clamp_coord_u128(v: u128) -> (r: i32)
    ensures
        r == coord(v as int),
{
    if v > 0x7FFF_FFFFu128 {
        i32::MAX
    } else {
        v as i32
    }
}

/// A nonnegative wide value clamped to what a `u32` holds.
pub fn clamp_u32_u128(v: u128) -> (r: u32)
    ensures
        r == sat32(v as int),
{
    if v > 0xFFFF_FFFFu128 {
        u32::MAX
    } else {
        v as u32
    }
}

/// The first position of `id` in `ids`, if it is listed at all.
pub fn position_of(ids: &Vec<u32>, id: u32) -> (r: Option<usize>)
    ensures
        match r {
            Some(j) => j < ids@.len() && ids@[j as int] == id && forall|k: int|
                0 <= k < j ==> ids@[k] != id,
            None => forall|k: int| 0 <= k < ids@.len() ==> ids@[k] != id,
        },
{
    let mut k: usize = 0;
    while k < ids.len()
        invariant
            k <= ids.len(),
            forall|m: int| 0 <= m < k ==> ids@[m] != id,
        decreases ids.len() - k,
    {
        if ids[k] == id {
            return Some(k);
        }
        k = k + 1;
    }
    None
}

} // verus!
