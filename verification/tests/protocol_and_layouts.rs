use yashiki::display::Display;
use yashiki::effect::{CommandResult, Effect};
use yashiki::master_stack;
use yashiki::protocol::{accept_command_reply, accept_layout_reply, LayoutResult, WindowGeometry};
use yashiki::state::State;
use yashiki::tag::Tag;
use yashiki::translate;
use yashiki::window::Rect;
use yashiki::command::Response;

#[test]
fn master_stack_splits_at_the_ratio() {
    // width 1000, height 800, two windows, one main, ratio 0.6
    let r = master_stack::generate_layout(1000, 800, 2, 1, 600);
    assert_eq!(r.len(), 2);
    assert_eq!(r[0], Rect { x: 0, y: 0, width: 600, height: 800 });
    assert_eq!(r[1], Rect { x: 600, y: 0, width: 400, height: 800 });
}

#[test]
fn master_stack_empty_input_gives_empty_result() {
    let r = master_stack::generate_layout(1000, 800, 0, 1, 600);
    assert!(r.is_empty());
}

#[test]
fn master_stack_divides_rows_evenly() {
    let r = master_stack::generate_layout(900, 900, 4, 2, 500);
    assert_eq!(r.len(), 4);
    // two main rows of 450 each
    assert_eq!(r[0], Rect { x: 0, y: 0, width: 450, height: 450 });
    assert_eq!(r[1], Rect { x: 0, y: 450, width: 450, height: 450 });
    // two stack rows beside them
    assert_eq!(r[2], Rect { x: 450, y: 0, width: 450, height: 450 });
    assert_eq!(r[3], Rect { x: 450, y: 450, width: 450, height: 450 });
}

#[test]
fn layout_reply_must_be_a_layout() {
    // protocol conformance: `Okay` in answer to a layout request fails the call
    assert!(accept_layout_reply(LayoutResult::Okay).is_err());
    assert!(accept_layout_reply(LayoutResult::NeedsRetile).is_err());
    let geoms = vec![WindowGeometry { id: 1, x: 0, y: 0, width: 10, height: 10 }];
    assert_eq!(accept_layout_reply(LayoutResult::Layout { windows: geoms.clone() }), Ok(geoms));
    assert_eq!(
        accept_layout_reply(LayoutResult::Error { message: "boom".to_string() }),
        Err("boom".to_string())
    );
}

#[test]
fn command_reply_must_acknowledge() {
    assert_eq!(accept_command_reply(LayoutResult::Okay), Ok(false));
    assert_eq!(accept_command_reply(LayoutResult::NeedsRetile), Ok(true));
    assert!(accept_command_reply(LayoutResult::Layout { windows: vec![] }).is_err());
    assert_eq!(
        accept_command_reply(LayoutResult::Error { message: "boom".to_string() }),
        Err("boom".to_string())
    );
}

#[test]
fn display_starts_on_workspace_one() {
    let d = Display::new(3, Rect { x: 0, y: 0, width: 1920, height: 1080 });
    assert_eq!(d.id, 3);
    assert_eq!(d.visible_tags.mask(), 1);
    assert_eq!(d.previous_visible_tags.mask(), 1);
    assert!(d.window_order.is_empty());
    assert!(d.current_layout.is_none());
    assert!(d.previous_layout.is_none());
}

#[test]
fn tag_view_last_swaps_and_retiles() {
    let mut d = Display::new(3, Rect { x: 0, y: 0, width: 100, height: 100 });
    d.visible_tags = Tag::new(2);
    d.previous_visible_tags = Tag::new(5);
    let r = translate::tag_view_last(&mut d);
    assert_eq!(d.visible_tags.mask(), Tag::new(5).mask());
    assert_eq!(d.previous_visible_tags.mask(), Tag::new(2).mask());
    assert_eq!(r.response, Response::Okay);
    assert_eq!(r.effects, vec![Effect::RetileDisplay(3)]);
}

#[test]
fn layout_set_stores_the_override() {
    let mut d = Display::new(1, Rect { x: 0, y: 0, width: 100, height: 100 });
    let r = translate::layout_set(&mut d, "tatami".to_string());
    assert_eq!(d.current_layout.as_deref(), Some("tatami"));
    assert_eq!(d.previous_layout, None);
    assert_eq!(r.effects, vec![Effect::RetileDisplay(1)]);

    let r2 = translate::layout_set(&mut d, "byobu".to_string());
    assert_eq!(d.current_layout.as_deref(), Some("byobu"));
    assert_eq!(d.previous_layout.as_deref(), Some("tatami"));
    assert_eq!(r2.response, Response::Okay);
}

#[test]
fn move_to_tag_needs_a_focused_window() {
    let mut st = State::new();
    let r = translate::window_move_to_tag(&mut st, 4);
    match r.response {
        Response::Error { message } => assert_eq!(message, "no focused window"),
        _ => panic!("moving without focus must fail"),
    }
    assert!(r.effects.is_empty());
}

#[test]
fn move_to_tag_rewrites_the_focused_tags() {
    let mut st = State::new();
    st.windows.push(yashiki::window::Window {
        id: 5,
        pid: 1,
        tags: Tag::new(1),
        title: "t".to_string(),
        app_name: "a".to_string(),
        frame: Rect { x: 0, y: 0, width: 10, height: 10 },
        is_minimized: false,
    });
    st.focused = Some(5);
    let r = translate::window_move_to_tag(&mut st, 0b100);
    assert_eq!(st.windows[0].tags.mask(), 0b100);
    assert_eq!(r.response, Response::Okay);
    assert_eq!(r.effects, vec![Effect::FocusVisibleWindowIfNeeded, Effect::Retile]);
}

#[test]
fn toggle_tag_flips_the_focused_tags() {
    let mut st = State::new();
    st.windows.push(yashiki::window::Window {
        id: 6,
        pid: 1,
        tags: Tag::from_mask(0b011),
        title: "t".to_string(),
        app_name: "a".to_string(),
        frame: Rect { x: 0, y: 0, width: 10, height: 10 },
        is_minimized: false,
    });
    st.focused = Some(6);
    let r = translate::window_toggle_tag(&mut st, 0b110);
    assert_eq!(st.windows[0].tags.mask(), 0b101);
    assert_eq!(r.response, Response::Okay);
}

#[test]
fn command_results_carry_their_effects() {
    let ok = CommandResult::ok();
    assert_eq!(ok.response, Response::Okay);
    assert!(ok.effects.is_empty());

    let err = CommandResult::error("nope".to_string());
    assert_eq!(err.response, Response::Error { message: "nope".to_string() });

    let with = CommandResult::with_response(Response::WindowId { id: Some(3) });
    assert_eq!(with.response, Response::WindowId { id: Some(3) });

    let eff = CommandResult::ok_with_effects(vec![Effect::Retile]);
    assert_eq!(eff.effects, vec![Effect::Retile]);
}
