use vstd::prelude::*;

use crate::command::Response;
use crate::display::Display;
use crate::effect::{CommandResult, Effect};
use crate::state::{has_id, idx_of, unique_ids, State};
use crate::tag::Tag;
use crate::window::Window;

verus! {

/// Interpret the tag-view-last command against one output: swap its
/// visible and previously visible tag sets and ask for that output to be
/// retiled.
pub fn tag_view_last(display: &mut Display) -> (r: CommandResult)
    ensures
        final(display).visible_tags == old(display).previous_visible_tags,
        final(display).previous_visible_tags == old(display).visible_tags,
        final(display).id == old(display).id,
        final(display).frame == old(display).frame,
        final(display).window_order@ == old(display).window_order@,
        final(display).current_layout == old(display).current_layout,
        final(display).previous_layout == old(display).previous_layout,
        r.response == Response::Okay,
        r.effects@ =~= seq![Effect::RetileDisplay(old(display).id)],
{
    display.view_last_tags();
    let id = display.id;
    let mut effects: Vec<Effect> = Vec::new();
    effects.push(Effect::RetileDisplay(id));
    CommandResult::ok_with_effects(effects)
}

/// Interpret the window-move-to-tag command: the focused window moves to
/// exactly the given tag set, and the driver is asked to focus some
/// visible window if none is, then retile.  Without a focused window the
/// command fails and changes nothing.
pub fn window_move_to_tag(state: &mut State, tags: u32) -> (r: CommandResult)
    requires
        old(state).wf(),
    ensures
        final(state).wf(),
        match old(state).focused {
            Some(fid) => {
                let ws = old(state)@.windows;
                let j = idx_of(ws, fid);
                &&& final(state)@.windows.len() == ws.len()
                &&& final(state)@.windows[j].tags@ == tags
                &&& final(state)@.windows[j].id == ws[j].id
                &&& final(state)@.windows[j].pid == ws[j].pid
                &&& final(state)@.windows[j].title == ws[j].title
                &&& final(state)@.windows[j].app_name == ws[j].app_name
                &&& final(state)@.windows[j].frame == ws[j].frame
                &&& final(state)@.windows[j].is_minimized == ws[j].is_minimized
                &&& forall|k: int|
                    0 <= k < ws.len() && k != j ==> final(state)@.windows[k] == ws[k]
                &&& final(state).focused == old(state).focused
                &&& final(state).visible_tags == old(state).visible_tags
                &&& final(state).default_tag == old(state).default_tag
                &&& r.response == Response::Okay
                &&& r.effects@ =~= seq![Effect::FocusVisibleWindowIfNeeded, Effect::Retile]
            },
            None => {
                &&& final(state)@ == old(state)@
                &&& r.effects@.len() == 0
                &&& r.response matches Response::Error { message } && message@
                    == "no focused window"@
            },
        },
{
    let fid = match state.focused {
        Some(fid) => fid,
        None => {
            return CommandResult::error("no focused window".to_owned());
        },
    };
    proof {
        assert(state.focused == Some(fid));
    }
    let ghost oldws = state@.windows;
    let mut j: usize = 0;
    let n = state.windows.len();
    while j < n
        invariant
            j <= n,
            n == state.windows@.len(),
            forall|k: int| 0 <= k < j ==> state.windows@[k]@.id != fid,
            state.windows@ == old(state).windows@,
            state.focused == old(state).focused,
            state.visible_tags == old(state).visible_tags,
            state.default_tag == old(state).default_tag,
            old(state).focused == Some(fid),
            old(state).wf(),
            oldws == old(state)@.windows,
        decreases n - j,
    {
        if state.windows[j].id == fid {
            proof {
                assert(oldws[j as int] == state.windows@[j as int]@);
                lemma_idx_state(oldws, j as int);
            }
            let prior = state.windows[j].clone();
            let moved = Window { tags: Tag::from_mask(tags), ..prior };
            state.windows[j] = moved;
            proof {
                assert forall|k: int|
                    0 <= k < oldws.len() && k != j as int implies state@.windows[k]
                    == oldws[k] by {
                    assert(state.windows@[k]@ == old(state).windows@[k]@);
                }
                assert(state@.windows[j as int] == moved@);
                assert forall|a: int, b: int|
                    0 <= a < b < state@.windows.len() implies state@.windows[a].id
                    != state@.windows[b].id by {
                    assert(state@.windows[a].id == oldws[a].id);
                    assert(state@.windows[b].id == oldws[b].id);
                }
                assert(state@.windows[j as int].id == oldws[j as int].id);
                assert(has_id(state@.windows, fid));
            }
            let mut effects: Vec<Effect> = Vec::new();
            effects.push(Effect::FocusVisibleWindowIfNeeded);
            effects.push(Effect::Retile);
            return CommandResult::ok_with_effects(effects);
        }
        j = j + 1;
    }
    proof {
        assert forall|k: int| 0 <= k < oldws.len() implies oldws[k].id != fid by {
            assert(oldws[k] == state.windows@[k]@);
        }
        assert(!has_id(oldws, fid));
        assert(false);
    }
    CommandResult::error("no focused window".to_owned())
}

proof fn lemma_idx_state(ws: Seq<crate::window::WindowV>, j: int)
    requires
        unique_ids(ws),
        0 <= j < ws.len(),
    ensures
        idx_of(ws, ws[j].id) == j,
{
    let k = idx_of(ws, ws[j].id);
    assert(0 <= k < ws.len() && ws[k].id == ws[j].id);
}

/// Interpret the window-toggle-tag command: the given tags are toggled
/// on the focused window, and the driver is asked to focus some visible
/// window if none is, then retile.  Without a focused window the command
/// fails and changes nothing.
pub fn window_toggle_tag(state: &mut State, tags: u32) -> (r: CommandResult)
    requires
        old(state).wf(),
    ensures
        final(state).wf(),
        match old(state).focused {
            Some(fid) => {
                let ws = old(state)@.windows;
                let j = idx_of(ws, fid);
                &&& final(state)@.windows.len() == ws.len()
                &&& final(state)@.windows[j].tags@ == (ws[j].tags@ ^ tags)
                &&& final(state)@.windows[j].id == ws[j].id
                &&& final(state)@.windows[j].pid == ws[j].pid
                &&& final(state)@.windows[j].title == ws[j].title
                &&& final(state)@.windows[j].app_name == ws[j].app_name
                &&& final(state)@.windows[j].frame == ws[j].frame
                &&& final(state)@.windows[j].is_minimized == ws[j].is_minimized
                &&& forall|k: int|
                    0 <= k < ws.len() && k != j ==> final(state)@.windows[k] == ws[k]
                &&& final(state).focused == old(state).focused
                &&& final(state).visible_tags == old(state).visible_tags
                &&& final(state).default_tag == old(state).default_tag
                &&& r.response == Response::Okay
                &&& r.effects@ =~= seq![Effect::FocusVisibleWindowIfNeeded, Effect::Retile]
            },
            None => {
                &&& final(state)@ == old(state)@
                &&& r.effects@.len() == 0
                &&& r.response matches Response::Error { message } && message@
                    == "no focused window"@
            },
        },
{
    let fid = match state.focused {
        Some(fid) => fid,
        None => {
            return CommandResult::error("no focused window".to_owned());
        },
    };
    let ghost oldws = state@.windows;
    let mut j: usize = 0;
    let n = state.windows.len();
    while j < n
        invariant
            j <= n,
            n == state.windows@.len(),
            forall|k: int| 0 <= k < j ==> state.windows@[k]@.id != fid,
            state.windows@ == old(state).windows@,
            state.focused == old(state).focused,
            state.visible_tags == old(state).visible_tags,
            state.default_tag == old(state).default_tag,
            old(state).focused == Some(fid),
            old(state).wf(),
            oldws == old(state)@.windows,
        decreases n - j,
    {
        if state.windows[j].id == fid {
            proof {
                assert(oldws[j as int] == state.windows@[j as int]@);
                lemma_idx_state(oldws, j as int);
            }
            let prior = state.windows[j].clone();
            let toggled_tags = prior.tags.toggle(Tag::from_mask(tags));
            let toggled = Window { tags: toggled_tags, ..prior };
            state.windows[j] = toggled;
            proof {
                assert forall|k: int|
                    0 <= k < oldws.len() && k != j as int implies state@.windows[k]
                    == oldws[k] by {
                    assert(state.windows@[k]@ == old(state).windows@[k]@);
                }
                assert(state@.windows[j as int] == toggled@);
                assert forall|a: int, b: int|
                    0 <= a < b < state@.windows.len() implies state@.windows[a].id
                    != state@.windows[b].id by {
                    assert(state@.windows[a].id == oldws[a].id);
                    assert(state@.windows[b].id == oldws[b].id);
                }
                assert(state@.windows[j as int].id == oldws[j as int].id);
                assert(has_id(state@.windows, fid));
            }
            let mut effects: Vec<Effect> = Vec::new();
            effects.push(Effect::FocusVisibleWindowIfNeeded);
            effects.push(Effect::Retile);
            return CommandResult::ok_with_effects(effects);
        }
        j = j + 1;
    }
    proof {
        assert forall|k: int| 0 <= k < oldws.len() implies oldws[k].id != fid by {
            assert(oldws[k] == state.windows@[k]@);
        }
        assert(!has_id(oldws, fid));
        assert(false);
    }
    CommandResult::error("no focused window".to_owned())
}

/// Interpret the layout-set command against one output: store the layout
/// name override, remember the one it replaces, and ask for that output
/// to be retiled.
pub fn layout_set(display: &mut Display, layout: String) -> (r: CommandResult)
    ensures
        final(display).current_layout matches Some(l) && l@ == layout@,
        final(display).previous_layout == old(display).current_layout,
        final(display).id == old(display).id,
        final(display).frame == old(display).frame,
        final(display).visible_tags == old(display).visible_tags,
        final(display).previous_visible_tags == old(display).previous_visible_tags,
        final(display).window_order@ == old(display).window_order@,
        r.response == Response::Okay,
        r.effects@ =~= seq![Effect::RetileDisplay(old(display).id)],
{
    let prior = match &display.current_layout {
        Some(l) => Some(l.clone()),
        None => None,
    };
    display.previous_layout = prior;
    display.current_layout = Some(layout);
    let id = display.id;
    let mut effects: Vec<Effect> = Vec::new();
    effects.push(Effect::RetileDisplay(id));
    CommandResult::ok_with_effects(effects)
}

} // verus!
