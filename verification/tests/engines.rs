use yashiki::cascade::{self, CascadeState, Orientation};
use yashiki::hybrid::{self, HybridState};
use yashiki::protocol::LayoutResult;

#[test]
fn test_single_window() {
    let state = CascadeState::default();
    let windows = cascade::generate_layout(&state, 1920, 1080, &vec![1]);
    assert_eq!(windows.len(), 1);
    assert_eq!(windows[0].x, 0);
    assert_eq!(windows[0].y, 0);
    assert_eq!(windows[0].width, 1920);
    assert_eq!(windows[0].height, 1080);
}

#[test]
fn test_two_windows_horizontal() {
    let mut state = CascadeState::default();
    state.padding = 30;
    state.focused_window_id = Some(1);

    let windows = cascade::generate_layout(&state, 1920, 1080, &vec![1, 2]);
    assert_eq!(windows.len(), 2);

    // Window 0 (first, focused at index 0): (0, padding)
    assert_eq!(windows[0].x, 0);
    assert_eq!(windows[0].width, 1920 - 30);

    // Window 1 (last, adjacent to the focused one): (2*padding, 0)
    assert_eq!(windows[1].x, 60);
    assert_eq!(windows[1].width, 1920 - 60);
}

#[test]
fn test_three_windows_middle_focused() {
    let mut state = CascadeState::default();
    state.padding = 30;
    state.focused_window_id = Some(2);

    let windows = cascade::generate_layout(&state, 1920, 1080, &vec![1, 2, 3]);

    // Window 0 (first, before the focused one): (0, 2*padding)
    assert_eq!(windows[0].x, 0);
    assert_eq!(windows[0].width, 1920 - 60);

    // Window 1 (focused, middle): (padding, padding)
    assert_eq!(windows[1].x, 30);
    assert_eq!(windows[1].width, 1920 - 60);

    // Window 2 (last, after the focused one): (2*padding, 0)
    assert_eq!(windows[2].x, 60);
    assert_eq!(windows[2].width, 1920 - 60);
}

#[test]
fn test_vertical_orientation() {
    let mut state = CascadeState::default();
    state.padding = 30;
    state.orientation = Orientation::Vertical;
    state.focused_window_id = Some(1);

    let windows = cascade::generate_layout(&state, 1920, 1080, &vec![1, 2]);

    assert_eq!(windows[0].x, 0);
    assert_eq!(windows[0].y, 0);
    assert_eq!(windows[0].width, 1920);
    assert_eq!(windows[0].height, 1080 - 30);

    assert_eq!(windows[1].x, 0);
    assert_eq!(windows[1].y, 60);
    assert_eq!(windows[1].width, 1920);
    assert_eq!(windows[1].height, 1080 - 60);
}

#[test]
fn test_focus_changed_command() {
    let mut state = CascadeState::default();
    let result = cascade::handle_command(&mut state, "focus-changed", &vec!["42".to_string()]);
    assert!(matches!(result, LayoutResult::Okay));
    assert_eq!(state.focused_window_id, Some(42));
}

#[test]
fn test_set_padding_command() {
    let mut state = CascadeState::default();
    let result = cascade::handle_command(&mut state, "set-padding", &vec!["50".to_string()]);
    assert!(matches!(result, LayoutResult::Okay));
    assert_eq!(state.padding, 50);
}

#[test]
fn test_toggle_orientation_command() {
    let mut state = CascadeState::default();
    assert_eq!(state.orientation, Orientation::Horizontal);

    cascade::handle_command(&mut state, "toggle-orientation", &vec![]);
    assert_eq!(state.orientation, Orientation::Vertical);

    cascade::handle_command(&mut state, "toggle-orientation", &vec![]);
    assert_eq!(state.orientation, Orientation::Horizontal);
}

#[test]
fn test_generate_layout_single_window() {
    let state = HybridState::default();
    let windows = vec![123];
    let geometries = hybrid::generate_layout(&state, 1000, 800, &windows);

    assert_eq!(geometries.len(), 1);
    assert_eq!(geometries[0].id, 123);
    assert_eq!(geometries[0].x, 0);
    assert_eq!(geometries[0].y, 0);
    assert_eq!(geometries[0].width, 1000);
    assert_eq!(geometries[0].height, 800);
}

#[test]
fn test_hybrid_layout_two_windows() {
    let mut state = HybridState::default();
    state.main_ratio_permille = 600;
    state.inner_gap = 10;
    state.byobu_padding = 30;

    let window_ids = vec![1, 2];
    let geometries = hybrid::generate_layout(&state, 1010, 800, &window_ids);

    assert_eq!(geometries.len(), 2);

    // main window: available = 1010 - 10 = 1000, main width = 1000 * 0.6 = 600
    assert_eq!(geometries[0].id, 1);
    assert_eq!(geometries[0].x, 0);
    assert_eq!(geometries[0].width, 600);
    assert_eq!(geometries[0].height, 800);

    // stack window: x = 600 + 10, width = 1000 - 600, no offset
    assert_eq!(geometries[1].id, 2);
    assert_eq!(geometries[1].x, 610);
    assert_eq!(geometries[1].width, 400);
    assert_eq!(geometries[1].height, 800);
}

#[test]
fn test_hybrid_layout_three_windows() {
    let mut state = HybridState::default();
    state.main_ratio_permille = 600;
    state.inner_gap = 10;
    state.byobu_padding = 30;
    state.focused_window_id = Some(2);

    let window_ids = vec![1, 2, 3];
    let geometries = hybrid::generate_layout(&state, 1010, 800, &window_ids);

    assert_eq!(geometries.len(), 3);

    assert_eq!(geometries[0].id, 1);
    assert_eq!(geometries[0].width, 600);

    // stack ordered [3, 2] because window 2 is focused
    assert_eq!(geometries[1].id, 3);
    assert_eq!(geometries[1].x, 610);
    assert_eq!(geometries[1].width, 400 - 30);

    assert_eq!(geometries[2].id, 2);
    assert_eq!(geometries[2].x, 610 + 30);
    assert_eq!(geometries[2].width, 400 - 30);
}

#[test]
fn set_main_ratio_rejects_out_of_range() {
    let mut state = HybridState::default();
    let low = hybrid::handle_command(&mut state, "set-main-ratio", &vec!["0.05".to_string()]);
    assert!(matches!(low, LayoutResult::Error { .. }));
    assert_eq!(state.main_ratio_permille, 500);

    let high = hybrid::handle_command(&mut state, "set-main-ratio", &vec!["0.95".to_string()]);
    assert!(matches!(high, LayoutResult::Error { .. }));
    assert_eq!(state.main_ratio_permille, 500);
}

#[test]
fn inc_main_ratio_clamps_at_the_top() {
    let mut state = HybridState::default();
    let set = hybrid::handle_command(&mut state, "set-main-ratio", &vec!["0.9".to_string()]);
    assert!(matches!(set, LayoutResult::Okay));
    assert_eq!(state.main_ratio_permille, 900);

    let inc = hybrid::handle_command(&mut state, "inc-main-ratio", &vec![]);
    assert!(matches!(inc, LayoutResult::Okay));
    assert_eq!(state.main_ratio_permille, 900);
}

#[test]
fn ratio_commands_step_by_permille() {
    let mut state = HybridState::default();
    hybrid::handle_command(&mut state, "inc-main-ratio", &vec![]);
    assert_eq!(state.main_ratio_permille, 550);
    hybrid::handle_command(&mut state, "dec-main-ratio", &vec!["0.2".to_string()]);
    assert_eq!(state.main_ratio_permille, 350);
    hybrid::handle_command(&mut state, "dec-main-ratio", &vec!["0.3".to_string()]);
    assert_eq!(state.main_ratio_permille, 100);
}

#[test]
fn hybrid_zoom_pins_a_window_first() {
    let mut state = HybridState::default();
    let z = hybrid::handle_command(&mut state, "zoom", &vec!["7".to_string()]);
    assert!(matches!(z, LayoutResult::Okay));
    assert_eq!(state.main_window_id, Some(7));

    let geometries = hybrid::generate_layout(&state, 1000, 800, &vec![5, 7]);
    assert_eq!(geometries[0].id, 7);
    assert_eq!(geometries[1].id, 5);
}

#[test]
fn hybrid_zoom_without_focus_fails() {
    let mut state = HybridState::default();
    let z = hybrid::handle_command(&mut state, "zoom", &vec![]);
    match z {
        LayoutResult::Error { message } => {
            assert_eq!(message, "no window to zoom (use: zoom <window_id> or focus a window first)")
        },
        _ => panic!("zoom without a target must fail"),
    }
    assert_eq!(state.main_window_id, None);
}

#[test]
fn unknown_engine_command_is_named() {
    let mut state = CascadeState::default();
    match cascade::handle_command(&mut state, "swizzle", &vec![]) {
        LayoutResult::Error { message } => assert_eq!(message, "unknown command: swizzle"),
        _ => panic!("unknown commands must fail"),
    }
    let mut hstate = HybridState::default();
    match hybrid::handle_command(&mut hstate, "swizzle", &vec![]) {
        LayoutResult::Error { message } => assert_eq!(message, "unknown command: swizzle"),
        _ => panic!("unknown commands must fail"),
    }
}

#[test]
fn hybrid_focus_changed_demands_retile() {
    let mut state = HybridState::default();
    let r = hybrid::handle_command(&mut state, "focus-changed", &vec!["9".to_string()]);
    assert!(matches!(r, LayoutResult::NeedsRetile));
    assert_eq!(state.focused_window_id, Some(9));
}
