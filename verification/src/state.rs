use vstd::prelude::*;

use crate::event::Event;
use crate::tag::Tag;
use crate::window::{
    fresh_window, info_title, rect_of, Rect, Window, WindowId, WindowInfo, WindowInfoV, WindowV,
};

verus! {

// ---------------------------------------------------------------------------
// Spec helpers over sequences of window images
// ---------------------------------------------------------------------------

/// The images of a sequence of tracked windows.
pub open spec fn window_views(ws: Seq<Window>) -> Seq<WindowV> {
    ws.map_values(|w: Window| w@)
}

/// The images of a sequence of enumeration entries.
pub open spec fn info_views(infos: Seq<WindowInfo>) -> Seq<WindowInfoV> {
    infos.map_values(|i: WindowInfo| i@)
}

/// Whether some window in `ws` carries the id.
pub open spec fn has_id(ws: Seq<WindowV>, id: WindowId) -> bool {
    exists|k: int| 0 <= k < ws.len() && ws[k].id == id
}

/// An index of the window carrying the id; under `unique_ids` it is the
/// only one.
pub open spec fn idx_of(ws: Seq<WindowV>, id: WindowId) -> int {
    choose|k: int| 0 <= k < ws.len() && ws[k].id == id
}

/// No two windows share an id.
pub open spec fn unique_ids(ws: Seq<WindowV>) -> bool {
    forall|a: int, b: int| 0 <= a < b < ws.len() ==> ws[a].id != ws[b].id
}

proof fn lemma_idx_of_unique(ws: Seq<WindowV>, j: int)
    requires
        unique_ids(ws),
        0 <= j < ws.len(),
    ensures
        idx_of(ws, ws[j].id) == j,
{
    let k = idx_of(ws, ws[j].id);
    assert(0 <= k < ws.len() && ws[k].id == ws[j].id);
}

// ---------------------------------------------------------------------------
// The synchronization model
// ---------------------------------------------------------------------------

/// A tracked window after a report entry refreshes it: title and frame
/// come from the entry, everything else - tags above all - is kept.
pub open spec fn refreshed(w: WindowV, i: WindowInfoV) -> WindowV {
    WindowV { title: info_title(i), frame: rect_of(i.bounds), ..w }
}

/// One step of the wholesale sync: fold the next report entry into the
/// windows accumulated so far.  An id seen before in this report only
/// refreshes; an id tracked before the sync keeps its window (refreshed);
/// an unknown id becomes a fresh window with the default tag.
pub open spec fn sync_step(
    old_ws: Seq<WindowV>,
    default_tag: Tag,
    acc: Seq<WindowV>,
    i: WindowInfoV,
) -> Seq<WindowV> {
    if has_id(acc, i.window_id) {
        acc.update(idx_of(acc, i.window_id), refreshed(acc[idx_of(acc, i.window_id)], i))
    } else if has_id(old_ws, i.window_id) {
        acc.push(refreshed(old_ws[idx_of(old_ws, i.window_id)], i))
    } else {
        acc.push(fresh_window(i, default_tag))
    }
}

/// The window set that replacing `old_ws` wholesale by the report `infos`
/// yields: ids absent from the report are dropped, ids present in both are
/// kept with title and frame refreshed, new ids enter as fresh windows, in
/// report order.
pub open spec fn sync_fold(
    old_ws: Seq<WindowV>,
    default_tag: Tag,
    infos: Seq<WindowInfoV>,
) -> Seq<WindowV>
    decreases infos.len(),
{
    if infos.len() == 0 {
        Seq::empty()
    } else {
        sync_step(old_ws, default_tag, sync_fold(old_ws, default_tag, infos.drop_last()), infos.last())
    }
}

/// The wholesale sync never produces two windows with one id.
pub proof fn lemma_sync_fold_unique(old_ws: Seq<WindowV>, default_tag: Tag, infos: Seq<WindowInfoV>)
    ensures
        unique_ids(sync_fold(old_ws, default_tag, infos)),
    decreases infos.len(),
{
    if infos.len() > 0 {
        lemma_sync_fold_unique(old_ws, default_tag, infos.drop_last());
        let acc = sync_fold(old_ws, default_tag, infos.drop_last());
        let i = infos.last();
        if has_id(acc, i.window_id) {
            let j = idx_of(acc, i.window_id);
            assert(forall|k: int|
                0 <= k < acc.len() ==> acc.update(j, refreshed(acc[j], i))[k].id == acc[k].id);
        }
    }
}

/// No two enumeration entries report one window id, as a well-formed OS
/// enumeration has it.
pub open spec fn info_ids_unique(infos: Seq<WindowInfoV>) -> bool {
    forall|a: int, b: int| 0 <= a < b < infos.len() ==> infos[a].window_id != infos[b].window_id
}

/// What the window carrying a reported id becomes: refreshed when it was
/// tracked, fresh otherwise.
pub open spec fn merged_window(
    old_ws: Seq<WindowV>,
    default_tag: Tag,
    i: WindowInfoV,
) -> WindowV {
    if has_id(old_ws, i.window_id) {
        refreshed(old_ws[idx_of(old_ws, i.window_id)], i)
    } else {
        fresh_window(i, default_tag)
    }
}

proof fn lemma_sync_fold_characterized(old_ws: Seq<WindowV>, default_tag: Tag, infos: Seq<WindowInfoV>)
    requires
        info_ids_unique(infos),
    ensures
        sync_fold(old_ws, default_tag, infos).len() == infos.len(),
        forall|k: int|
            0 <= k < infos.len() ==> #[trigger] sync_fold(old_ws, default_tag, infos)[k]
                == merged_window(old_ws, default_tag, infos[k]),
    decreases infos.len(),
{
    if infos.len() > 0 {
        let head = infos.drop_last();
        lemma_sync_fold_characterized(old_ws, default_tag, head);
        let acc = sync_fold(old_ws, default_tag, head);
        let i = infos.last();
        assert forall|k: int| 0 <= k < acc.len() implies acc[k].id != i.window_id by {
            assert(acc[k] == merged_window(old_ws, default_tag, head[k]));
            assert(acc[k].id == head[k].window_id);
            assert(head[k] == infos[k]);
        }
        assert(!has_id(acc, i.window_id));
    }
}

/// Sync idempotence: replaying an unchanged OS enumeration over the window
/// set a first replay produced changes nothing - no window is added,
/// removed or altered.
pub proof fn lemma_sync_idempotent(old_ws: Seq<WindowV>, default_tag: Tag, infos: Seq<WindowInfoV>)
    requires
        info_ids_unique(infos),
    ensures
        sync_fold(sync_fold(old_ws, default_tag, infos), default_tag, infos) == sync_fold(
            old_ws,
            default_tag,
            infos,
        ),
{
    let r1 = sync_fold(old_ws, default_tag, infos);
    let r2 = sync_fold(r1, default_tag, infos);
    lemma_sync_fold_characterized(old_ws, default_tag, infos);
    lemma_sync_fold_characterized(r1, default_tag, infos);
    assert forall|a: int, b: int| 0 <= a < b < r1.len() implies r1[a].id != r1[b].id by {
        assert(r1[a] == merged_window(old_ws, default_tag, infos[a]));
        assert(r1[b] == merged_window(old_ws, default_tag, infos[b]));
    }
    assert forall|k: int| 0 <= k < infos.len() implies r2[k] == r1[k] by {
        assert(r1[k] == merged_window(old_ws, default_tag, infos[k]));
        assert(r1[k].id == infos[k].window_id);
        assert(has_id(r1, infos[k].window_id));
        lemma_idx_of_unique(r1, k);
        assert(idx_of(r1, infos[k].window_id) == k);
        assert(r2[k] == refreshed(r1[k], infos[k]));
    }
    assert(r2 =~= r1);
}

/// Whether an enumeration entry reports the window `id` for process `pid`.
pub open spec fn pid_info_match(i: WindowInfoV, pid: i32, id: WindowId) -> bool {
    i.pid == pid && i.window_id == id
}

/// The first enumeration entry reporting window `id` for process `pid`.
pub open spec fn find_pid_info(
    infos: Seq<WindowInfoV>,
    pid: i32,
    id: WindowId,
) -> Option<WindowInfoV>
    decreases infos.len(),
{
    if infos.len() == 0 {
        None
    } else if pid_info_match(infos.first(), pid, id) {
        Some(infos.first())
    } else {
        find_pid_info(infos.drop_first(), pid, id)
    }
}

proof fn lemma_find_pid_info_skip(infos: Seq<WindowInfoV>, pid: i32, id: WindowId, j: int)
    requires
        0 <= j <= infos.len(),
        forall|k: int| 0 <= k < j ==> !pid_info_match(infos[k], pid, id),
    ensures
        find_pid_info(infos, pid, id) == find_pid_info(infos.skip(j), pid, id),
    decreases j,
{
    if j > 0 {
        let tail = infos.drop_first();
        assert(forall|k: int| 0 <= k < j - 1 ==> tail[k] == infos[k + 1]);
        lemma_find_pid_info_skip(tail, pid, id, j - 1);
        assert(tail.skip(j - 1) =~= infos.skip(j));
    } else {
        assert(infos.skip(0) =~= infos);
    }
}

proof fn lemma_find_pid_info_props(infos: Seq<WindowInfoV>, pid: i32, id: WindowId)
    ensures
        match find_pid_info(infos, pid, id) {
            Some(i) => pid_info_match(i, pid, id),
            None => forall|k: int| 0 <= k < infos.len() ==> !pid_info_match(infos[k], pid, id),
        },
    decreases infos.len(),
{
    if infos.len() > 0 && !pid_info_match(infos.first(), pid, id) {
        let tail = infos.drop_first();
        lemma_find_pid_info_props(tail, pid, id);
        if find_pid_info(infos, pid, id) is None {
            assert forall|k: int| 0 <= k < infos.len() implies !pid_info_match(
                infos[k],
                pid,
                id,
            ) by {
                if k > 0 {
                    assert(tail[k - 1] == infos[k]);
                }
            }
        }
    }
}

/// The windows a per-pid sync keeps, in tracking order: windows of other
/// processes stay (replaced wholesale when the report reuses their id for
/// `pid`); windows of `pid` stay refreshed when reported and leave when
/// not.
pub open spec fn sync_pid_kept(
    old_ws: Seq<WindowV>,
    default_tag: Tag,
    pid: i32,
    infos: Seq<WindowInfoV>,
) -> Seq<WindowV>
    decreases old_ws.len(),
{
    if old_ws.len() == 0 {
        Seq::empty()
    } else {
        let prefix = sync_pid_kept(old_ws.drop_last(), default_tag, pid, infos);
        let w = old_ws.last();
        match find_pid_info(infos, pid, w.id) {
            Some(i) => if w.pid == pid {
                prefix.push(refreshed(w, i))
            } else {
                prefix.push(fresh_window(i, default_tag))
            },
            None => if w.pid == pid {
                prefix
            } else {
                prefix.push(w)
            },
        }
    }
}

/// The windows a per-pid sync adds: one fresh window per first report
/// occurrence of an id not tracked before, in report order.
pub open spec fn sync_pid_added(
    old_ws: Seq<WindowV>,
    default_tag: Tag,
    pid: i32,
    infos: Seq<WindowInfoV>,
) -> Seq<WindowV>
    decreases infos.len(),
{
    if infos.len() == 0 {
        Seq::empty()
    } else {
        let prefix = sync_pid_added(old_ws, default_tag, pid, infos.drop_last());
        let i = infos.last();
        if i.pid == pid && !has_id(old_ws, i.window_id) && find_pid_info(
            infos.drop_last(),
            pid,
            i.window_id,
        ) is None {
            prefix.push(fresh_window(i, default_tag))
        } else {
            prefix
        }
    }
}

proof fn lemma_sync_pid_kept_props(
    old_ws: Seq<WindowV>,
    default_tag: Tag,
    pid: i32,
    infos: Seq<WindowInfoV>,
)
    requires
        unique_ids(old_ws),
    ensures
        forall|a: int|
            0 <= a < sync_pid_kept(old_ws, default_tag, pid, infos).len() ==> has_id(
                old_ws,
                sync_pid_kept(old_ws, default_tag, pid, infos)[a].id,
            ),
        unique_ids(sync_pid_kept(old_ws, default_tag, pid, infos)),
    decreases old_ws.len(),
{
    if old_ws.len() > 0 {
        let head = old_ws.drop_last();
        assert(unique_ids(head));
        lemma_sync_pid_kept_props(head, default_tag, pid, infos);
        let prefix = sync_pid_kept(head, default_tag, pid, infos);
        let w = old_ws.last();
        let full = sync_pid_kept(old_ws, default_tag, pid, infos);
        lemma_find_pid_info_props(infos, pid, w.id);
        assert forall|a: int| 0 <= a < full.len() implies has_id(old_ws, full[a].id) by {
            if a < prefix.len() {
                let k = choose|k: int| 0 <= k < head.len() && head[k].id == prefix[a].id;
                assert(old_ws[k].id == prefix[a].id);
            } else {
                assert(old_ws[old_ws.len() - 1].id == full[a].id);
            }
        }
        assert forall|a: int, b: int| 0 <= a < b < full.len() implies full[a].id != full[b].id by {
            if b < prefix.len() {
                assert(prefix[a].id != prefix[b].id);
            } else {
                let k = choose|k: int| 0 <= k < head.len() && head[k].id == prefix[a].id;
                assert(old_ws[k].id != old_ws[old_ws.len() - 1].id);
            }
        }
    }
}

proof fn lemma_sync_pid_added_props(
    old_ws: Seq<WindowV>,
    default_tag: Tag,
    pid: i32,
    infos: Seq<WindowInfoV>,
)
    ensures
        forall|a: int|
            0 <= a < sync_pid_added(old_ws, default_tag, pid, infos).len() ==> !has_id(
                old_ws,
                sync_pid_added(old_ws, default_tag, pid, infos)[a].id,
            ),
        forall|a: int|
            0 <= a < sync_pid_added(old_ws, default_tag, pid, infos).len() ==> exists|k: int|
                0 <= k < infos.len() && pid_info_match(
                    #[trigger] infos[k],
                    pid,
                    (#[trigger] sync_pid_added(old_ws, default_tag, pid, infos)[a]).id,
                ),
        unique_ids(sync_pid_added(old_ws, default_tag, pid, infos)),
    decreases infos.len(),
{
    if infos.len() > 0 {
        let head = infos.drop_last();
        lemma_sync_pid_added_props(old_ws, default_tag, pid, head);
        let prefix = sync_pid_added(old_ws, default_tag, pid, head);
        let i = infos.last();
        let full = sync_pid_added(old_ws, default_tag, pid, infos);
        assert forall|a: int|
            0 <= a < full.len() implies exists|k: int|
            0 <= k < infos.len() && pid_info_match(#[trigger] infos[k], pid, (#[trigger] full[a]).id) by {
            if a < prefix.len() {
                let k = choose|k: int|
                    0 <= k < head.len() && pid_info_match(head[k], pid, prefix[a].id);
                assert(pid_info_match(infos[k], pid, full[a].id));
            } else {
                assert(pid_info_match(infos[infos.len() - 1], pid, full[a].id));
            }
        }
        if full.len() > prefix.len() {
            lemma_find_pid_info_props(head, pid, i.window_id);
            assert forall|a: int, b: int| 0 <= a < b < full.len() implies full[a].id
                != full[b].id by {
                if b == prefix.len() {
                    let k = choose|k: int|
                        0 <= k < head.len() && pid_info_match(head[k], pid, prefix[a].id);
                }
            }
        }
    }
}

proof fn lemma_find_entry_to_model(infos: Seq<WindowInfoV>, pid: i32, id: WindowId, j: int)
    requires
        0 <= j < infos.len(),
        pid_info_match(infos[j], pid, id),
        forall|k: int| 0 <= k < j ==> !pid_info_match(infos[k], pid, id),
    ensures
        find_pid_info(infos, pid, id) == Some(infos[j]),
{
    lemma_find_pid_info_skip(infos, pid, id, j);
    assert(infos.skip(j).first() == infos[j]);
}

proof fn lemma_find_none_to_model(infos: Seq<WindowInfoV>, pid: i32, id: WindowId)
    requires
        forall|k: int| 0 <= k < infos.len() ==> !pid_info_match(infos[k], pid, id),
    ensures
        find_pid_info(infos, pid, id) is None,
{
    lemma_find_pid_info_skip(infos, pid, id, infos.len() as int);
    assert(infos.skip(infos.len() as int) =~= Seq::<WindowInfoV>::empty());
}

/// What the focused id becomes once the window set has changed: kept when
/// it still names a window, cleared otherwise.
pub open spec fn focus_after(focused: Option<WindowId>, ws: Seq<WindowV>) -> Option<WindowId> {
    match focused {
        Some(id) => if has_id(ws, id) {
            Some(id)
        } else {
            None
        },
        None => None,
    }
}

// ---------------------------------------------------------------------------
// Focus resolution
// ---------------------------------------------------------------------------

/// A reported position, already reduced to plain integers by the caller.
#[derive(Debug, Clone, Copy, PartialEq, Eq, Structural)]
pub struct Point {
    pub x: i32,
    pub y: i32,
}

/// A reported size, already reduced to plain integers by the caller.
#[derive(Debug, Clone, Copy, PartialEq, Eq, Structural)]
pub struct Extent {
    pub width: u32,
    pub height: u32,
}

/// What the OS says about its focused window: the owning process, and the
/// window's position and size when they could be read.
#[derive(Debug, Clone, Copy, PartialEq, Eq, Structural)]
pub struct FocusReport {
    pub pid: i32,
    pub position: Option<Point>,
    pub size: Option<Extent>,
}

/// Two coordinates no more than one unit apart.
pub open spec fn within_unit(a: int, b: int) -> bool {
    -1 <= a - b <= 1
}

/// Whether a tracked window can be the one the report describes: the
/// process id must agree, refined by position and size proximity
/// (tolerance one unit per axis) when both were read.
pub open spec fn focus_match(w: WindowV, r: FocusReport) -> bool {
    w.pid == r.pid && match (r.position, r.size) {
        (Some(p), Some(s)) => within_unit(w.frame.x as int, p.x as int) && within_unit(
            w.frame.y as int,
            p.y as int,
        ) && within_unit(w.frame.width as int, s.width as int) && within_unit(
            w.frame.height as int,
            s.height as int,
        ),
        _ => true,
    }
}

/// The id of the first tracked window the report can describe, if any.
pub open spec fn resolve_focus(ws: Seq<WindowV>, r: FocusReport) -> Option<WindowId>
    decreases ws.len(),
{
    if ws.len() == 0 {
        None
    } else if focus_match(ws.first(), r) {
        Some(ws.first().id)
    } else {
        resolve_focus(ws.drop_first(), r)
    }
}

proof fn lemma_resolve_focus_skip(ws: Seq<WindowV>, r: FocusReport, j: int)
    requires
        0 <= j <= ws.len(),
        forall|k: int| 0 <= k < j ==> !focus_match(ws[k], r),
    ensures
        resolve_focus(ws, r) == resolve_focus(ws.skip(j), r),
    decreases j,
{
    if j > 0 {
        let tail = ws.drop_first();
        assert(forall|k: int| 0 <= k < j - 1 ==> tail[k] == ws[k + 1]);
        lemma_resolve_focus_skip(tail, r, j - 1);
        assert(tail.skip(j - 1) =~= ws.skip(j));
    } else {
        assert(ws.skip(0) =~= ws);
    }
}

/// Everything resolving the focused window promises; shared by
/// `sync_focused_window`, `sync_all` and `handle_event`.
pub open spec fn sync_focus_post(pre: StateV, post: StateV, report: Option<FocusReport>) -> bool {
    &&& post.windows == pre.windows
    &&& post.visible_tags == pre.visible_tags
    &&& post.default_tag == pre.default_tag
    &&& post.focused == match report {
        Some(r) => resolve_focus(pre.windows, r),
        None => None,
    }
}

// ---------------------------------------------------------------------------
// State
// ---------------------------------------------------------------------------

/// Mathematical image of the daemon state.
pub ghost struct StateV {
    pub windows: Seq<WindowV>,
    pub focused: Option<WindowId>,
    pub visible_tags: Tag,
    pub default_tag: Tag,
}

/// The authoritative mirror of all tracked windows and the single focused
/// window id.
#[derive(Debug)]
pub struct State {
    pub windows: Vec<Window>,
    pub focused: Option<WindowId>,
    pub visible_tags: Tag,
    pub default_tag: Tag,
}

impl View for State {
    type V = StateV;

    open spec fn view(&self) -> StateV {
        StateV {
            windows: window_views(self.windows@),
            focused: self.focused,
            visible_tags: self.visible_tags,
            default_tag: self.default_tag,
        }
    }
}

impl State {
    /// The state invariant: window ids are unique, and the focused id, when
    /// present, names a tracked window.
    pub open spec fn wf(&self) -> bool {
        &&& unique_ids(self@.windows)
        &&& match self.focused {
            Some(id) => has_id(self@.windows, id),
            None => true,
        }
    }

    pub fn new() -> (s: State)
        ensures
            s@.windows == Seq::<WindowV>::empty(),
            s.focused is None,
            s.visible_tags@ == 1u32,
            s.default_tag@ == 1u32,
            s.wf(),
    {
        proof {
            assert(1u32 << 0u32 == 1u32) by (bit_vector);
        }
        let s = State {
            windows: Vec::new(),
            focused: None,
            visible_tags: Tag::new(1),
            default_tag: Tag::new(1),
        };
        proof {
            assert(window_views(s.windows@) =~= Seq::<WindowV>::empty());
        }
        s
    }

    /// Record a focus change that has already been resolved to a tracked
    /// window (or to none).
    pub fn set_focused(&mut self, window_id: Option<WindowId>)
        requires
            match window_id {
                Some(id) => has_id(old(self)@.windows, id),
                None => true,
            },
        ensures
            final(self).focused == window_id,
            final(self)@.windows == old(self)@.windows,
            final(self).visible_tags == old(self).visible_tags,
            final(self).default_tag == old(self).default_tag,
            old(self).wf() ==> final(self).wf(),
    {
        if !option_id_eq(&self.focused, &window_id) {
            self.focused = window_id;
        }
    }

    /// The windows participating in layout: exactly those whose tags
    /// intersect the visible tag set, in tracking order.
    pub fn visible_windows(&self) -> (r: Vec<Window>)
        ensures
            window_views(r@) == self@.windows.filter(
                |w: WindowV| w.tags@ & self.visible_tags@ != 0,
            ),
    {
        let ghost pred = |w: WindowV| w.tags@ & self.visible_tags@ != 0;
        let mut r: Vec<Window> = Vec::new();
        proof {
            reveal_with_fuel(Seq::filter, 1);
            assert(self@.windows.take(0) =~= Seq::<WindowV>::empty());
            assert(window_views(r@) =~= Seq::<WindowV>::empty().filter(pred));
        }
        let mut i: usize = 0;
        while i < self.windows.len()
            invariant
                i <= self.windows.len(),
                window_views(r@) == self@.windows.take(i as int).filter(pred),
                pred == (|w: WindowV| w.tags@ & self.visible_tags@ != 0),
            decreases self.windows.len() - i,
        {
            let ghost prefix = self@.windows.take(i as int);
            let w = &self.windows[i];
            if w.tags.intersects(self.visible_tags) {
                r.push(w.clone());
            }
            proof {
                reveal_with_fuel(Seq::filter, 2);
                let next = self@.windows.take(i + 1 as int);
                assert(next.drop_last() =~= prefix);
                assert(next.last() == w@);
                if pred(w@) {
                    assert(window_views(r@) =~= prefix.filter(pred).push(w@));
                }
            }
            i = i + 1;
        }
        proof {
            assert(self@.windows.take(self.windows@.len() as int) =~= self@.windows);
        }
        r
    }
}

/// Everything replacing the window set wholesale from a full OS
/// enumeration promises; shared by `sync_with_window_infos`, `sync_all`
/// and the laws about them.
pub open spec fn sync_all_windows_post(pre: StateV, post: StateV, infos: Seq<WindowInfoV>) -> bool {
    &&& post.windows == sync_fold(pre.windows, pre.default_tag, infos)
    &&& post.visible_tags == pre.visible_tags
    &&& post.default_tag == pre.default_tag
    &&& post.focused == focus_after(pre.focused, post.windows)
}

impl State {
    /// Replace the window set wholesale from a full OS enumeration: ids
    /// absent from the report are removed, ids present in both are kept
    /// (tags and minimized flag untouched) with title and frame refreshed,
    /// new ids are added as fresh windows with the default tag.  A focused
    /// id that no longer names a window is cleared.
    pub fn sync_with_window_infos(&mut self, window_infos: &Vec<WindowInfo>)
        requires
            old(self).wf(),
        ensures
            sync_all_windows_post(old(self)@, final(self)@, info_views(window_infos@)),
            final(self).wf(),
    {
        let ghost oldv = self@.windows;
        let ghost dt = self.default_tag;
        let ghost infv = info_views(window_infos@);
        let mut result: Vec<Window> = Vec::new();
        proof {
            assert(infv.take(0) =~= Seq::<WindowInfoV>::empty());
            assert(window_views(result@) =~= sync_fold(oldv, dt, infv.take(0)));
        }
        let mut i: usize = 0;
        while i < window_infos.len()
            invariant
                i <= window_infos.len(),
                infv == info_views(window_infos@),
                oldv == self@.windows,
                dt == self.default_tag,
                unique_ids(oldv),
                self.focused == old(self).focused,
                self.visible_tags == old(self).visible_tags,
                self.windows@ == old(self).windows@,
                self.default_tag == old(self).default_tag,
                window_views(result@) == sync_fold(oldv, dt, infv.take(i as int)),
            decreases window_infos.len() - i,
        {
            let ghost acc = window_views(result@);
            let info = &window_infos[i];
            let id = info.window_id;
            let new_title = match &info.name {
                Some(n) => n.clone(),
                None => String::new(),
            };
            let new_frame = Rect::from_bounds(&info.bounds);
            proof {
                assert(infv[i as int] == window_infos@[i as int]@);
                lemma_sync_fold_unique(oldv, dt, infv.take(i as int));
            }
            match index_of_id(&result, id) {
                Some(j) => {
                    let prior = result[j].clone();
                    let updated = Window { title: new_title, frame: new_frame, ..prior };
                    proof {
                        assert(acc[j as int] == result@[j as int]@);
                        lemma_idx_of_unique(acc, j as int);
                        assert(updated@ == refreshed(acc[j as int], infv[i as int]));
                    }
                    result[j] = updated;
                    proof {
                        assert(window_views(result@) =~= acc.update(
                            j as int,
                            refreshed(acc[j as int], infv[i as int]),
                        ));
                    }
                },
                None => {
                    match index_of_id(&self.windows, id) {
                        Some(j) => {
                            let prior = self.windows[j].clone();
                            let kept = Window { title: new_title, frame: new_frame, ..prior };
                            proof {
                                assert(oldv[j as int] == self.windows@[j as int]@);
                                lemma_idx_of_unique(oldv, j as int);
                                assert(kept@ == refreshed(oldv[j as int], infv[i as int]));
                            }
                            result.push(kept);
                            proof {
                                assert(window_views(result@) =~= acc.push(
                                    refreshed(
                                        oldv[idx_of(oldv, infv[i as int].window_id)],
                                        infv[i as int],
                                    ),
                                ));
                            }
                        },
                        None => {
                            let fresh = Window::from_window_info(info, self.default_tag);
                            result.push(fresh);
                            proof {
                                assert(window_views(result@) =~= acc.push(
                                    fresh_window(infv[i as int], dt),
                                ));
                            }
                        },
                    }
                },
            }
            proof {
                let next = infv.take(i + 1 as int);
                assert(next.drop_last() =~= infv.take(i as int));
                assert(next.last() == infv[i as int]);
                assert(sync_fold(oldv, dt, next) == sync_step(
                    oldv,
                    dt,
                    sync_fold(oldv, dt, infv.take(i as int)),
                    infv[i as int],
                ));
            }
            i = i + 1;
        }
        proof {
            assert(infv.take(window_infos@.len() as int) =~= infv);
        }
        self.windows = result;
        proof {
            lemma_sync_fold_unique(oldv, dt, infv);
        }
        let f = self.focused;
        match f {
            Some(fid) => {
                match index_of_id(&self.windows, fid) {
                    Some(j) => {
                        proof {
                            assert(self@.windows[j as int] == self.windows@[j as int]@);
                            assert(has_id(self@.windows, fid));
                        }
                    },
                    None => {
                        self.focused = None;
                    },
                }
            },
            None => {},
        }
    }
}

/// Everything a per-pid sync promises; shared by `sync_pid` and
/// `handle_event`.
pub open spec fn sync_pid_post(pre: StateV, post: StateV, pid: i32, infos: Seq<WindowInfoV>) -> bool {
    &&& post.windows == sync_pid_kept(pre.windows, pre.default_tag, pid, infos) + sync_pid_added(
        pre.windows,
        pre.default_tag,
        pid,
        infos,
    )
    &&& post.visible_tags == pre.visible_tags
    &&& post.default_tag == pre.default_tag
    &&& post.focused == focus_after(pre.focused, post.windows)
}

impl State {
    /// Perform the wholesale diff scoped to one process id: among the
    /// tracked windows of `pid`, those the report no longer lists leave,
    /// those listed stay with title and frame refreshed, newly listed ids
    /// enter as fresh windows with the default tag.  Windows of other
    /// processes stay in place; when the report reuses such an id for
    /// `pid`, that window is replaced wholesale.  A focused id that no
    /// longer names a window is cleared.
    pub fn sync_pid(&mut self, pid: i32, window_infos: &Vec<WindowInfo>)
        requires
            old(self).wf(),
        ensures
            sync_pid_post(old(self)@, final(self)@, pid, info_views(window_infos@)),
            final(self).wf(),
    {
        let ghost oldv = self@.windows;
        let ghost dt = self.default_tag;
        let ghost infv = info_views(window_infos@);
        let mut result: Vec<Window> = Vec::new();
        proof {
            assert(oldv.take(0) =~= Seq::<WindowV>::empty());
            assert(window_views(result@) =~= sync_pid_kept(oldv.take(0), dt, pid, infv));
        }
        let mut k: usize = 0;
        while k < self.windows.len()
            invariant
                k <= self.windows.len(),
                infv == info_views(window_infos@),
                oldv == self@.windows,
                dt == self.default_tag,
                unique_ids(oldv),
                self.focused == old(self).focused,
                self.visible_tags == old(self).visible_tags,
                self.windows@ == old(self).windows@,
                self.default_tag == old(self).default_tag,
                window_views(result@) == sync_pid_kept(oldv.take(k as int), dt, pid, infv),
            decreases self.windows.len() - k,
        {
            let ghost acc = window_views(result@);
            let wid = self.windows[k].id;
            let wpid = self.windows[k].pid;
            proof {
                assert(oldv[k as int] == self.windows@[k as int]@);
            }
            match find_pid_entry(window_infos, pid, wid) {
                Some(j) => {
                    proof {
                        assert forall|m: int| 0 <= m < j implies !pid_info_match(
                            infv[m],
                            pid,
                            wid,
                        ) by {
                            assert(infv[m] == window_infos@[m]@);
                        }
                        assert(infv[j as int] == window_infos@[j as int]@);
                        lemma_find_entry_to_model(infv, pid, wid, j as int);
                    }
                    let info = &window_infos[j];
                    let new_title = match &info.name {
                        Some(n) => n.clone(),
                        None => String::new(),
                    };
                    let new_frame = Rect::from_bounds(&info.bounds);
                    if wpid == pid {
                        let prior = self.windows[k].clone();
                        let kept_w = Window { title: new_title, frame: new_frame, ..prior };
                        proof {
                            assert(kept_w@ == refreshed(oldv[k as int], infv[j as int]));
                        }
                        result.push(kept_w);
                    } else {
                        let fresh = Window::from_window_info(info, self.default_tag);
                        result.push(fresh);
                    }
                },
                None => {
                    proof {
                        assert forall|m: int| 0 <= m < infv.len() implies !pid_info_match(
                            infv[m],
                            pid,
                            wid,
                        ) by {
                            assert(infv[m] == window_infos@[m]@);
                        }
                        lemma_find_none_to_model(infv, pid, wid);
                    }
                    if wpid == pid {
                        // no longer reported for this process: the window leaves
                    } else {
                        let keep = self.windows[k].clone();
                        result.push(keep);
                    }
                },
            }
            proof {
                let next = oldv.take(k + 1 as int);
                assert(next.drop_last() =~= oldv.take(k as int));
                assert(next.last() == oldv[k as int]);
                assert(window_views(result@) =~= sync_pid_kept(next, dt, pid, infv));
            }
            k = k + 1;
        }
        proof {
            assert(oldv.take(self.windows@.len() as int) =~= oldv);
            assert(infv.take(0) =~= Seq::<WindowInfoV>::empty());
            assert(window_views(result@) =~= sync_pid_kept(oldv, dt, pid, infv) + sync_pid_added(
                oldv,
                dt,
                pid,
                infv.take(0),
            ));
        }
        let mut j: usize = 0;
        while j < window_infos.len()
            invariant
                j <= window_infos.len(),
                infv == info_views(window_infos@),
                oldv == self@.windows,
                dt == self.default_tag,
                unique_ids(oldv),
                self.focused == old(self).focused,
                self.visible_tags == old(self).visible_tags,
                self.windows@ == old(self).windows@,
                self.default_tag == old(self).default_tag,
                window_views(result@) == sync_pid_kept(oldv, dt, pid, infv) + sync_pid_added(
                    oldv,
                    dt,
                    pid,
                    infv.take(j as int),
                ),
            decreases window_infos.len() - j,
        {
            let ghost acc = window_views(result@);
            let ghost cond = infv[j as int].pid == pid && !has_id(oldv, infv[j as int].window_id)
                && find_pid_info(infv.take(j as int), pid, infv[j as int].window_id) is None;
            let info = &window_infos[j];
            proof {
                assert(infv[j as int] == window_infos@[j as int]@);
            }
            let mut push_new = false;
            if info.pid == pid {
                match index_of_id(&self.windows, info.window_id) {
                    Some(jj) => {
                        proof {
                            assert(oldv[jj as int] == self.windows@[jj as int]@);
                            assert(has_id(oldv, infv[j as int].window_id));
                            assert(!cond);
                        }
                    },
                    None => {
                        match find_pid_entry(window_infos, pid, info.window_id) {
                            Some(j0) => {
                                if j0 == j {
                                    push_new = true;
                                    proof {
                                        let prefix = infv.take(j as int);
                                        assert forall|m: int|
                                            0 <= m < prefix.len() implies !pid_info_match(
                                            prefix[m],
                                            pid,
                                            infv[j as int].window_id,
                                        ) by {
                                            assert(prefix[m] == window_infos@[m]@);
                                        }
                                        lemma_find_none_to_model(
                                            prefix,
                                            pid,
                                            infv[j as int].window_id,
                                        );
                                        assert(cond);
                                    }
                                } else {
                                    proof {
                                        let prefix = infv.take(j as int);
                                        assert(pid_info_match(
                                            window_infos@[j0 as int]@,
                                            pid,
                                            infv[j as int].window_id,
                                        ));
                                        assert(j0 < j);
                                        assert forall|m: int| 0 <= m < j0 implies !pid_info_match(
                                            prefix[m],
                                            pid,
                                            infv[j as int].window_id,
                                        ) by {
                                            assert(prefix[m] == window_infos@[m]@);
                                        }
                                        assert(prefix[j0 as int] == window_infos@[j0 as int]@);
                                        lemma_find_entry_to_model(
                                            prefix,
                                            pid,
                                            infv[j as int].window_id,
                                            j0 as int,
                                        );
                                        assert(!cond);
                                    }
                                }
                            },
                            None => {
                                proof {
                                    assert(!pid_info_match(
                                        window_infos@[j as int]@,
                                        pid,
                                        info.window_id,
                                    ));
                                    assert(false);
                                }
                            },
                        }
                    },
                }
            } else {
                proof {
                    assert(!cond);
                }
            }
            if push_new {
                let fresh = Window::from_window_info(info, self.default_tag);
                result.push(fresh);
            }
            proof {
                let next = infv.take(j + 1 as int);
                assert(next.drop_last() =~= infv.take(j as int));
                assert(next.last() == infv[j as int]);
                assert(push_new == cond);
                if cond {
                    let f = fresh_window(infv[j as int], dt);
                    assert(window_views(result@) =~= acc.push(f));
                    assert(sync_pid_added(oldv, dt, pid, next) == sync_pid_added(
                        oldv,
                        dt,
                        pid,
                        infv.take(j as int),
                    ).push(f));
                    assert(window_views(result@) =~= sync_pid_kept(oldv, dt, pid, infv)
                        + sync_pid_added(oldv, dt, pid, next));
                } else {
                    assert(sync_pid_added(oldv, dt, pid, next) == sync_pid_added(
                        oldv,
                        dt,
                        pid,
                        infv.take(j as int),
                    ));
                    assert(window_views(result@) == sync_pid_kept(oldv, dt, pid, infv)
                        + sync_pid_added(oldv, dt, pid, next));
                }
            }
            j = j + 1;
        }
        proof {
            assert(infv.take(window_infos@.len() as int) =~= infv);
        }
        self.windows = result;
        proof {
            lemma_sync_pid_kept_props(oldv, dt, pid, infv);
            lemma_sync_pid_added_props(oldv, dt, pid, infv);
            let kept = sync_pid_kept(oldv, dt, pid, infv);
            let added = sync_pid_added(oldv, dt, pid, infv);
            let full = kept + added;
            assert forall|a: int, b: int| 0 <= a < b < full.len() implies full[a].id
                != full[b].id by {
                if b < kept.len() {
                    assert(kept[a].id != kept[b].id);
                } else if a >= kept.len() {
                    assert(added[a - kept.len()].id != added[b - kept.len()].id);
                } else {
                    assert(has_id(oldv, kept[a].id));
                    assert(!has_id(oldv, added[b - kept.len()].id));
                }
            }
            assert(unique_ids(window_views(self.windows@)));
        }
        let f = self.focused;
        match f {
            Some(fid) => {
                match index_of_id(&self.windows, fid) {
                    Some(jj) => {
                        proof {
                            assert(self@.windows[jj as int] == self.windows@[jj as int]@);
                            assert(has_id(self@.windows, fid));
                        }
                    },
                    None => {
                        self.focused = None;
                    },
                }
            },
            None => {},
        }
    }
}

impl State {
    /// Resolve the OS focus report against the tracked windows: the first
    /// window of the reported process - narrowed by position and size
    /// proximity when both were read - becomes focused; a missing report
    /// (any OS-side failure) or no match clears focus.
    pub fn sync_focused_window(&mut self, report: Option<FocusReport>)
        requires
            old(self).wf(),
        ensures
            sync_focus_post(old(self)@, final(self)@, report),
            final(self).wf(),
    {
        if report.is_none() {
            self.focused = None;
            return;
        }
        let r = report.unwrap();
        let ghost ws = self@.windows;
        let mut i: usize = 0;
        while i < self.windows.len()
            invariant
                i <= self.windows.len(),
                ws == self@.windows,
                self.windows@ == old(self).windows@,
                self.focused == old(self).focused,
                self.visible_tags == old(self).visible_tags,
                self.default_tag == old(self).default_tag,
                unique_ids(ws),
                report == Some(r),
                forall|k: int| 0 <= k < i ==> !focus_match(ws[k], r),
            decreases self.windows.len() - i,
        {
            let w = &self.windows[i];
            proof {
                assert(ws[i as int] == self.windows@[i as int]@);
            }
            let mut is_match = w.pid == r.pid;
            if is_match {
                match (r.position, r.size) {
                    (Some(p), Some(s)) => {
                        let dx = (w.frame.x as i64) - (p.x as i64);
                        let dy = (w.frame.y as i64) - (p.y as i64);
                        let dw = (w.frame.width as i64) - (s.width as i64);
                        let dh = (w.frame.height as i64) - (s.height as i64);
                        is_match = -1 <= dx && dx <= 1 && -1 <= dy && dy <= 1 && -1 <= dw && dw
                            <= 1 && -1 <= dh && dh <= 1;
                    },
                    _ => {},
                }
            }
            if is_match {
                proof {
                    assert(focus_match(ws[i as int], r));
                    lemma_resolve_focus_skip(ws, r, i as int);
                    assert(ws.skip(i as int).len() > 0);
                    assert(ws.skip(i as int).first() == ws[i as int]);
                    assert(resolve_focus(ws.skip(i as int), r) == Some(ws[i as int].id));
                    assert(resolve_focus(ws, r) == Some(ws[i as int].id));
                    assert(ws == old(self)@.windows);
                }
                let id = w.id;
                self.focused = Some(id);
                return;
            }
            i = i + 1;
        }
        proof {
            lemma_resolve_focus_skip(ws, r, ws.len() as int);
            assert(ws.skip(ws.len() as int) =~= Seq::<WindowV>::empty());
        }
        self.focused = None;
    }

    /// Dispatch one OS event: window lifecycle and geometry events
    /// re-sync the affected process against the enumeration; focus and
    /// activation events re-resolve the focused window from the focus
    /// report; deactivation, hide and show change nothing.
    pub fn handle_event(
        &mut self,
        event: &Event,
        window_infos: &Vec<WindowInfo>,
        focus: Option<FocusReport>,
    )
        requires
            old(self).wf(),
        ensures
            match *event {
                Event::WindowCreated { pid }
                | Event::WindowDestroyed { pid }
                | Event::WindowMoved { pid }
                | Event::WindowResized { pid }
                | Event::WindowMiniaturized { pid }
                | Event::WindowDeminiaturized { pid } => sync_pid_post(
                    old(self)@,
                    final(self)@,
                    pid,
                    info_views(window_infos@),
                ),
                Event::FocusedWindowChanged { .. } | Event::ApplicationActivated { .. } =>
                    sync_focus_post(old(self)@, final(self)@, focus),
                Event::ApplicationDeactivated { .. }
                | Event::ApplicationHidden { .. }
                | Event::ApplicationShown { .. } => final(self)@ == old(self)@,
            },
            final(self).wf(),
    {
        match event {
            Event::WindowCreated { pid }
            | Event::WindowDestroyed { pid }
            | Event::WindowMoved { pid }
            | Event::WindowResized { pid }
            | Event::WindowMiniaturized { pid }
            | Event::WindowDeminiaturized { pid } => {
                self.sync_pid(*pid, window_infos);
            },
            Event::FocusedWindowChanged { .. } | Event::ApplicationActivated { .. } => {
                self.sync_focused_window(focus);
            },
            Event::ApplicationDeactivated { .. }
            | Event::ApplicationHidden { .. }
            | Event::ApplicationShown { .. } => {},
        }
    }

    /// Replace the window set wholesale from a full OS enumeration and
    /// re-resolve the focused window, as one step.
    pub fn sync_all(&mut self, window_infos: &Vec<WindowInfo>, focus: Option<FocusReport>)
        requires
            old(self).wf(),
        ensures
            final(self)@.windows == sync_fold(
                old(self)@.windows,
                old(self).default_tag,
                info_views(window_infos@),
            ),
            final(self).visible_tags == old(self).visible_tags,
            final(self).default_tag == old(self).default_tag,
            final(self).focused == match focus {
                Some(r) => resolve_focus(final(self)@.windows, r),
                None => None,
            },
            final(self).wf(),
    {
        self.sync_with_window_infos(window_infos);
        self.sync_focused_window(focus);
    }
}

impl Default for State {
    fn default() -> (s: State)
        ensures
            s@.windows == Seq::<WindowV>::empty(),
            s.focused is None,
            s.visible_tags@ == 1u32,
            s.default_tag@ == 1u32,
            s.wf(),
    {
        State::new()
    }
}

/// The index of the first enumeration entry reporting `id` for `pid`.
fn find_pid_entry(infos: &Vec<WindowInfo>, pid: i32, id: WindowId) -> (r: Option<usize>)
    ensures
        match r {
            Some(j) => j < infos@.len() && pid_info_match(infos@[j as int]@, pid, id) && forall|
                k: int,
            |
                0 <= k < j ==> !pid_info_match(infos@[k]@, pid, id),
            None => forall|k: int| 0 <= k < infos@.len() ==> !pid_info_match(infos@[k]@, pid, id),
        },
{
    let mut j: usize = 0;
    while j < infos.len()
        invariant
            j <= infos.len(),
            forall|k: int| 0 <= k < j ==> !pid_info_match(infos@[k]@, pid, id),
        decreases infos.len() - j,
    {
        if infos[j].pid == pid && infos[j].window_id == id {
            return Some(j);
        }
        j = j + 1;
    }
    None
}

/// Equality of two optional window ids.
fn option_id_eq(a: &Option<WindowId>, b: &Option<WindowId>) -> (r: bool)
    ensures
        r == (a == b),
{
    match (a, b) {
        (Some(x), Some(y)) => x == y,
        (None, None) => true,
        _ => false,
    }
}

/// The index of the first tracked window carrying the id, if any.
fn index_of_id(ws: &Vec<Window>, id: WindowId) -> (r: Option<usize>)
    ensures
        match r {
            Some(j) => j < ws@.len() && ws@[j as int]@.id == id && forall|k: int|
                0 <= k < j ==> ws@[k]@.id != id,
            None => !has_id(window_views(ws@), id),
        },
{
    let mut j: usize = 0;
    while j < ws.len()
        invariant
            j <= ws.len(),
            forall|k: int| 0 <= k < j ==> ws@[k]@.id != id,
        decreases ws.len() - j,
    {
        if ws[j].id == id {
            return Some(j);
        }
        j = j + 1;
    }
    proof {
        assert forall|k: int| 0 <= k < window_views(ws@).len() implies window_views(ws@)[k].id
            != id by {
            assert(window_views(ws@)[k] == ws@[k]@);
        }
    }
    None
}

} // verus!
