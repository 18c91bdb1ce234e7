use vstd::prelude::*;

use crate::tag::Tag;
use crate::window::{Rect, WindowId};

verus! {

/// OS-assigned output identifier.
pub type DisplayId = u32;

/// One output: its frame, which tag sets are visible now and were visible
/// before the last view change, an explicit caller-managed window ordering,
/// and an optional layout-engine name override (with its predecessor).
#[derive(Debug)]
pub struct Display {
    pub id: DisplayId,
    pub frame: Rect,
    pub visible_tags: Tag,
    pub previous_visible_tags: Tag,
    pub window_order: Vec<WindowId>,
    pub current_layout: Option<String>,
    pub previous_layout: Option<String>,
}

impl Display {
    /// A new output starts on workspace 1 with no window order and no
    /// layout override.
    pub fn new(id: DisplayId, frame: Rect) -> (d: Display)
        ensures
            d.id == id,
            d.frame == frame,
            d.visible_tags@ == 1u32,
            d.previous_visible_tags@ == 1u32,
            d.window_order@ == Seq::<WindowId>::empty(),
            d.current_layout is None,
            d.previous_layout is None,
    {
        proof {
            assert(1u32 << 0u32 == 1u32) by (bit_vector);
        }
        Display {
            id,
            frame,
            visible_tags: Tag::new(1),
            previous_visible_tags: Tag::new(1),
            window_order: Vec::new(),
            current_layout: None,
            previous_layout: None,
        }
    }

    /// Swap the visible tag set with the previously visible one; the
    /// "view last" command.
    pub fn view_last_tags(&mut self)
        ensures
            final(self).visible_tags == old(self).previous_visible_tags,
            final(self).previous_visible_tags == old(self).visible_tags,
            final(self).id == old(self).id,
            final(self).frame == old(self).frame,
            final(self).window_order@ == old(self).window_order@,
            final(self).current_layout == old(self).current_layout,
            final(self).previous_layout == old(self).previous_layout,
    {
        let t = self.visible_tags;
        self.visible_tags = self.previous_visible_tags;
        self.previous_visible_tags = t;
    }
}

} // verus!
