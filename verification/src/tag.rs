use vstd::prelude::*;

verus! {

/// A 32-bit bitmask of workspace memberships: bit `k - 1` stands for
/// workspace `k`, for `k` in `1..=32`.  A mask of zero is legal and means
/// "no tag".
#[derive(Debug, Clone, Copy, PartialEq, Eq, Structural)]
pub struct Tag(u32);

impl View for Tag {
    type V = u32;

    closed spec fn view(&self) -> u32 {
        self.0
    }
}

/// True when every bit of `x` below position `k` is clear.
pub open spec fn low_bits_clear(x: u32, k: u32) -> bool {
    forall|j: u32| j < k ==> (x >> j) & 1u32 == 0u32
}

impl Tag {
    /// The tag for workspace `n`; only `1..=32` name a workspace.
    pub fn new(n: u32) -> (t: Tag)
        requires
            1 <= n <= 32,
        ensures
            t@ == 1u32 << ((n - 1) as u32),
    {
        Tag(1u32 << (n - 1))
    }

    pub fn from_mask(mask: u32) -> (t: Tag)
        ensures
            t@ == mask,
    {
        Tag(mask)
    }

    pub fn mask(self) -> (m: u32)
        ensures
            m == self@,
    {
        self.0
    }

    pub fn intersects(self, other: Tag) -> (r: bool)
        ensures
            r == ((self@ & other@) != 0),
    {
        (self.0 & other.0) != 0
    }

    pub fn union(self, other: Tag) -> (t: Tag)
        ensures
            t@ == (self@ | other@),
    {
        Tag(self.0 | other.0)
    }

    pub fn toggle(self, other: Tag) -> (t: Tag)
        ensures
            t@ == (self@ ^ other@),
    {
        Tag(self.0 ^ other.0)
    }

    /// The workspace number (1-based) of the lowest set bit, or `None`
    /// for the empty mask.
    pub fn first_tag(self) -> (r: Option<u32>)
        ensures
            match r {
                None => self@ == 0,
                Some(k) => 1 <= k <= 32 && (self@ >> ((k - 1) as u32)) & 1u32 == 1u32
                    && low_bits_clear(self@, (k - 1) as u32),
            },
    {
        if self.0 == 0 {
            return None;
        }
        let x = self.0;
        proof {
            assert(x >> 0u32 == x && (x >> 0u32) << 0u32 == x) by (bit_vector);
        }
        let mut k: u32 = 0;
        let mut m: u32 = x;
        while m & 1u32 == 0u32
            invariant
                x != 0,
                k < 32,
                m == x >> k,
                m != 0,
                (x >> k) << k == x,
            decreases 32 - k,
        {
            proof {
                assert((x >> k) & 1u32 == 0u32 && x >> k != 0u32 && k < 32 ==> (x >> (k + 1))
                    != 0u32 && (x >> (k + 1)) == (x >> k) >> 1u32) by (bit_vector);
                assert((x >> k) << k == x && (x >> k) & 1u32 == 0u32 && k < 31 ==> (x >> (k + 1))
                    << (k + 1) == x) by (bit_vector);
                assert(x >> k != 0u32 && (x >> k) & 1u32 == 0u32 ==> k < 31) by (bit_vector);
            }
            m = m >> 1u32;
            k = k + 1;
        }
        proof {
            assert(m & 1u32 != 0u32 ==> m & 1u32 == 1u32) by (bit_vector);
            assert forall|j: u32| j < k implies (x >> j) & 1u32 == 0u32 by {
                assert((x >> k) << k == x && j < k && k < 32 ==> (x >> j) & 1u32
                    == 0u32) by (bit_vector);
            }
        }
        Some(k + 1)
    }
}

} // verus!
