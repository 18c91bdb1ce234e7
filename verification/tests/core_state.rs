use yashiki::event::Event;
use yashiki::state::{Extent, FocusReport, Point, State};
use yashiki::tag::Tag;
use yashiki::window::{Bounds, Rect, Window, WindowInfo};

fn info(id: u32, pid: i32, title: &str, x: i32, y: i32, w: u32, h: u32) -> WindowInfo {
    WindowInfo {
        window_id: id,
        pid,
        name: Some(title.to_string()),
        owner_name: "app".to_string(),
        bounds: Bounds { x, y, width: w, height: h },
    }
}

fn window(id: u32, pid: i32, tags: Tag, title: &str) -> Window {
    Window {
        id,
        pid,
        tags,
        title: title.to_string(),
        app_name: "app".to_string(),
        frame: Rect { x: 0, y: 0, width: 100, height: 100 },
        is_minimized: false,
    }
}

#[test]
fn tag_masks() {
    assert_eq!(Tag::new(1).mask(), 1);
    assert_eq!(Tag::new(32).mask(), 0x8000_0000);
    assert_eq!(Tag::new(5).mask(), 0b10000);
    assert_eq!(Tag::from_mask(0).mask(), 0);
}

#[test]
fn tag_operations() {
    let a = Tag::new(1);
    let b = Tag::new(2);
    assert!(!a.intersects(b));
    let ab = a.union(b);
    assert!(ab.intersects(a) && ab.intersects(b));
    assert_eq!(ab.toggle(b).mask(), a.mask());
    assert_eq!(ab.first_tag(), Some(1));
    assert_eq!(b.first_tag(), Some(2));
    assert_eq!(Tag::from_mask(0).first_tag(), None);
    assert_eq!(Tag::from_mask(0x8000_0000).first_tag(), Some(32));
}

#[test]
fn sync_diff_correctness() {
    // old set {1, 2, 3} for pid 7; new set {2, 3, 4}
    let special = Tag::new(3);
    let mut st = State::new();
    st.windows.push(window(1, 7, Tag::new(1), "one"));
    st.windows.push(window(2, 7, special, "two"));
    st.windows.push(window(3, 7, Tag::new(1), "three"));
    st.focused = Some(2);

    let infos = vec![
        info(2, 7, "two renamed", 5, 5, 200, 200),
        info(3, 7, "three", 0, 0, 100, 100),
        info(4, 7, "four", 1, 1, 50, 50),
    ];
    st.sync_pid(7, &infos);

    let ids: Vec<u32> = st.windows.iter().map(|w| w.id).collect();
    assert_eq!(ids, vec![2, 3, 4]);

    // window 2 kept its tags, title and frame refreshed
    assert_eq!(st.windows[0].tags.mask(), special.mask());
    assert_eq!(st.windows[0].title, "two renamed");
    assert_eq!(st.windows[0].frame, Rect { x: 5, y: 5, width: 200, height: 200 });

    // window 3 untouched in substance
    assert_eq!(st.windows[1].title, "three");

    // window 4 added with the default tag
    assert_eq!(st.windows[2].tags.mask(), Tag::new(1).mask());
    assert_eq!(st.windows[2].title, "four");
    assert!(!st.windows[2].is_minimized);

    // the focused window survived the diff
    assert_eq!(st.focused, Some(2));
}

#[test]
fn sync_is_idempotent() {
    let mut st = State::new();
    st.windows.push(window(1, 7, Tag::new(2), "one"));
    let infos = vec![
        info(1, 7, "one", 0, 0, 100, 100),
        info(2, 8, "two", 10, 10, 100, 100),
    ];
    st.sync_with_window_infos(&infos);
    let first: Vec<(u32, i32, String, u32)> = st
        .windows
        .iter()
        .map(|w| (w.id, w.pid, w.title.clone(), w.tags.mask()))
        .collect();

    st.sync_with_window_infos(&infos);
    let second: Vec<(u32, i32, String, u32)> = st
        .windows
        .iter()
        .map(|w| (w.id, w.pid, w.title.clone(), w.tags.mask()))
        .collect();

    assert_eq!(first, second);
    assert_eq!(st.windows.len(), 2);
    // tags survived the first sync too
    assert_eq!(first[0].3, Tag::new(2).mask());
}

#[test]
fn removing_the_focused_window_clears_focus() {
    let mut st = State::new();
    st.windows.push(window(1, 7, Tag::new(1), "one"));
    st.windows.push(window(2, 7, Tag::new(1), "two"));
    st.focused = Some(1);

    // the report no longer lists window 1
    let infos = vec![info(2, 7, "two", 0, 0, 100, 100)];
    st.sync_pid(7, &infos);

    assert_eq!(st.windows.len(), 1);
    assert_eq!(st.windows[0].id, 2);
    assert_eq!(st.focused, None);
}

#[test]
fn sync_pid_leaves_other_processes_alone() {
    let mut st = State::new();
    st.windows.push(window(1, 7, Tag::new(1), "seven"));
    st.windows.push(window(9, 8, Tag::new(2), "eight"));
    let infos: Vec<WindowInfo> = vec![];
    st.sync_pid(7, &infos);
    assert_eq!(st.windows.len(), 1);
    assert_eq!(st.windows[0].id, 9);
    assert_eq!(st.windows[0].tags.mask(), Tag::new(2).mask());
}

#[test]
fn focus_resolution_prefers_matching_geometry() {
    let mut st = State::new();
    let mut a = window(1, 7, Tag::new(1), "a");
    a.frame = Rect { x: 0, y: 0, width: 100, height: 100 };
    let mut b = window(2, 7, Tag::new(1), "b");
    b.frame = Rect { x: 500, y: 500, width: 300, height: 300 };
    st.windows.push(a);
    st.windows.push(b);

    let report = FocusReport {
        pid: 7,
        position: Some(Point { x: 501, y: 499 }),
        size: Some(Extent { width: 300, height: 301 }),
    };
    st.sync_focused_window(Some(report));
    assert_eq!(st.focused, Some(2));

    // a missing report clears focus
    st.sync_focused_window(None);
    assert_eq!(st.focused, None);

    // without position and size, the first window of the pid wins
    let loose = FocusReport { pid: 7, position: None, size: None };
    st.sync_focused_window(Some(loose));
    assert_eq!(st.focused, Some(1));

    // an unknown pid clears focus
    let other = FocusReport { pid: 99, position: None, size: None };
    st.sync_focused_window(Some(other));
    assert_eq!(st.focused, None);
}

#[test]
fn visible_windows_follow_tags() {
    let mut st = State::new();
    st.windows.push(window(1, 7, Tag::new(1), "shown"));
    st.windows.push(window(2, 7, Tag::new(2), "hidden"));
    st.windows.push(window(3, 7, Tag::new(1).union(Tag::new(2)), "both"));
    st.visible_tags = Tag::new(1);
    let visible = st.visible_windows();
    let ids: Vec<u32> = visible.iter().map(|w| w.id).collect();
    assert_eq!(ids, vec![1, 3]);
}

#[test]
fn window_from_info_defaults() {
    let i = info(12, 3, "hello", 4, -5, 640, 480);
    let w = Window::from_window_info(&i, Tag::new(1));
    assert_eq!(w.id, 12);
    assert_eq!(w.pid, 3);
    assert_eq!(w.title, "hello");
    assert_eq!(w.app_name, "app");
    assert_eq!(w.frame, Rect { x: 4, y: -5, width: 640, height: 480 });
    assert_eq!(w.tags.mask(), 1);
    assert!(!w.is_minimized);

    let untitled = WindowInfo {
        window_id: 13,
        pid: 3,
        name: None,
        owner_name: "app".to_string(),
        bounds: Bounds { x: 0, y: 0, width: 1, height: 1 },
    };
    let w2 = Window::from_window_info(&untitled, Tag::new(1));
    assert_eq!(w2.title, "");
}

#[test]
fn rect_from_bounds_copies_fields() {
    let b = Bounds { x: -3, y: 9, width: 20, height: 30 };
    assert_eq!(Rect::from_bounds(&b), Rect { x: -3, y: 9, width: 20, height: 30 });
}

#[test]
fn sync_all_replaces_and_resolves_focus() {
    let mut st = State::new();
    st.windows.push(window(1, 7, Tag::new(1), "old"));
    let infos = vec![
        info(2, 7, "left", 0, 0, 100, 100),
        info(3, 8, "right", 200, 0, 100, 100),
    ];
    let report = FocusReport { pid: 8, position: None, size: None };
    st.sync_all(&infos, Some(report));

    let ids: Vec<u32> = st.windows.iter().map(|w| w.id).collect();
    assert_eq!(ids, vec![2, 3]);
    assert_eq!(st.focused, Some(3));
}

#[test]
fn handle_event_dispatches_by_kind() {
    let mut st = State::new();
    let infos = vec![info(1, 7, "one", 0, 0, 100, 100)];

    // a window event re-syncs that pid
    st.handle_event(&Event::WindowCreated { pid: 7 }, &infos, None);
    assert_eq!(st.windows.len(), 1);

    // a focus event resolves against the report
    let report = FocusReport { pid: 7, position: None, size: None };
    st.handle_event(&Event::FocusedWindowChanged { pid: 7 }, &infos, Some(report));
    assert_eq!(st.focused, Some(1));

    // deactivation changes nothing
    st.handle_event(&Event::ApplicationDeactivated { pid: 7 }, &infos, None);
    assert_eq!(st.focused, Some(1));
    assert_eq!(st.windows.len(), 1);

    // destroying the window via its event clears focus too
    let gone: Vec<WindowInfo> = vec![];
    st.handle_event(&Event::WindowDestroyed { pid: 7 }, &gone, None);
    assert!(st.windows.is_empty());
    assert_eq!(st.focused, None);
}

#[test]
fn set_focused_records_resolved_ids() {
    let mut st = State::new();
    st.windows.push(window(4, 7, Tag::new(1), "w"));
    st.set_focused(Some(4));
    assert_eq!(st.focused, Some(4));
    st.set_focused(None);
    assert_eq!(st.focused, None);
    assert_eq!(State::default().windows.len(), 0);
}
