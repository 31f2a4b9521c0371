use wsclient::fixed::FP_ONE;
use wsclient::interaction::InteractionMode;
use wsclient::interaction::InteractionState;
use wsclient::interaction::MouseButton;
use wsclient::view_state::ViewState;
use wsclient::view_state::Zoom;

#[test]
fn interaction_test() {
    let a: Option<InteractionMode> = Some(InteractionMode::Pan);
    let b: Option<InteractionMode> = None;
    let same = a.map_or(b.is_none(), |new_mode| b.map_or(false, |prev| new_mode == prev));
    assert_eq!(same, false);
}

fn state_with_frames(count: usize, frame: u32) -> InteractionState {
    let mut s = InteractionState::new();
    s.set_image_count(count);
    let mut vs = ViewState::new();
    vs.set_frame(Some(frame));
    s.set_render_state(vs);
    s
}

#[test]
fn mode_precedence_follows_table() {
    // left & right wins over everything
    let mut s = InteractionState::new();
    s.handle_mouse_input(MouseButton::Left, true);
    s.handle_mouse_input(MouseButton::Right, true);
    s.handle_mouse_input(MouseButton::Middle, true);
    s.handle_modifiers(true);
    s.update();
    assert_eq!(s.mode, Some(InteractionMode::FastScroll));

    // left & ctrl zooms
    let mut s = InteractionState::new();
    s.handle_mouse_input(MouseButton::Left, true);
    s.handle_modifiers(true);
    s.update();
    assert_eq!(s.mode, Some(InteractionMode::Zoom));

    // left alone pans
    let mut s = InteractionState::new();
    s.handle_mouse_input(MouseButton::Left, true);
    s.update();
    assert_eq!(s.mode, Some(InteractionMode::Pan));

    // a pending wheel delta scrolls
    let mut s = InteractionState::new();
    s.handle_mouse_wheel(FP_ONE);
    s.update();
    assert_eq!(s.mode, Some(InteractionMode::Scroll));

    // middle & ctrl adjusts the variate
    let mut s = InteractionState::new();
    s.handle_mouse_input(MouseButton::Middle, true);
    s.handle_modifiers(true);
    s.update();
    assert_eq!(s.mode, Some(InteractionMode::Variate));

    // middle alone adjusts window/level
    let mut s = InteractionState::new();
    s.handle_mouse_input(MouseButton::Middle, true);
    s.update();
    assert_eq!(s.mode, Some(InteractionMode::Wl));

    // nothing held derives no mode
    let mut s = InteractionState::new();
    s.update();
    assert_eq!(s.mode, None);
}

#[test]
fn scroll_clamps_without_cine() {
    // frame 5 of a 10-frame case; a scroll of +7 frames clamps to the last
    // index, 9 (the wheel convention negates the delta).
    let mut s = state_with_frames(10, 5);
    s.handle_mouse_wheel(-7 * FP_ONE);
    let (updated, _) = s.update();
    assert!(updated);
    assert_eq!(s.viewstate.frame, Some(9));
}

#[test]
fn scroll_wraps_under_cine() {
    // the same +7 under cine wraps: (5 + 7) mod 10 == 2.
    let mut s = state_with_frames(10, 5);
    s.toggle_cine();
    s.handle_mouse_wheel(-7 * FP_ONE);
    let (updated, _) = s.update();
    assert!(updated);
    assert_eq!(s.viewstate.frame, Some(2));
}

#[test]
fn scroll_backward_wraps_under_cine() {
    let mut s = state_with_frames(10, 1);
    s.toggle_cine();
    s.handle_mouse_wheel(3 * FP_ONE);
    s.update();
    assert_eq!(s.viewstate.frame, Some(8));
}

#[test]
fn scroll_backward_clamps_to_zero() {
    let mut s = state_with_frames(10, 1);
    s.handle_mouse_wheel(3 * FP_ONE);
    s.update();
    assert_eq!(s.viewstate.frame, Some(0));
}

#[test]
fn mode_switch_resets_anchor() {
    // pan for a while, then switch to zoom mid-drag: the first post-switch
    // update must not apply a transform from the stale anchor.
    let mut s = InteractionState::new();
    s.handle_move((100, 100), 1);
    s.handle_mouse_input(MouseButton::Left, true);
    s.update();
    s.handle_move((120, 160), 1);
    s.update();
    // switching to zoom with a large pending movement
    s.handle_modifiers(true);
    s.handle_move((120, 30), 1);
    let (_updated, _) = s.update();
    assert_eq!(s.mode, Some(InteractionMode::Zoom));
    // the magnification is untouched by the switch itself
    assert_eq!(s.viewstate.zoom, Zoom::Fit(FP_ONE));
    // a further drag now zooms from the new anchor: dy = +26 from (120, 30)
    s.handle_move((120, 56), 1);
    s.update();
    // factor = FP_ONE - 26 * 256
    let expected = (FP_ONE - 26 * 256) as i128 * FP_ONE as i128 / FP_ONE as i128;
    assert_eq!(s.viewstate.zoom, Zoom::Fit(expected as i64));
}

#[test]
fn pan_accumulates_and_sets_cursor() {
    let mut s = InteractionState::new();
    s.handle_move((10, 10), 1);
    s.handle_mouse_input(MouseButton::Left, true);
    s.update();
    s.handle_move((25, 4), 1);
    s.update();
    match s.viewstate.pos {
        wsclient::view_state::Position::Relative((x, y)) => {
            assert_eq!(x, 15 * FP_ONE);
            assert_eq!(y, -6 * FP_ONE);
        }
        _ => panic!("pan keeps the relative position mode"),
    }
    assert_eq!(s.viewstate.cursor, Some((25, 4)));
    // releasing the button leaves pan mode and clears the cursor
    s.handle_mouse_input(MouseButton::Left, false);
    s.update();
    assert_eq!(s.viewstate.cursor, None);
}

#[test]
fn variate_clamps_to_unit_interval() {
    let mut s = InteractionState::new();
    // middle + ctrl, pane height 100: a drag of +150 pixels saturates at 1.
    s.handle_move((0, 0), 100);
    s.handle_mouse_input(MouseButton::Middle, true);
    s.handle_modifiers(true);
    s.update();
    s.handle_move((0, 150), 100);
    s.update();
    assert_eq!(s.viewstate.variate, Some(FP_ONE));
    // and a large negative drag saturates at 0.
    s.handle_move((0, -400), 100);
    s.update();
    assert_eq!(s.viewstate.variate, Some(0));
}

#[test]
fn wl_factors_scale_center_and_width() {
    let mut s = InteractionState::new();
    s.handle_move((0, 0), 1);
    s.handle_mouse_input(MouseButton::Middle, true);
    s.update();
    // dx = 256 doubles the width; dy = -128 halves the center.
    s.handle_move((256, -128), 1);
    s.update();
    assert_eq!(s.viewstate.wl.width, 2 * FP_ONE);
    assert_eq!(s.viewstate.wl.center, FP_ONE / 2);
}

#[test]
fn hide_cursor_only_while_panning() {
    let mut s = InteractionState::new();
    assert!(!s.hide_cursor());
    s.handle_mouse_input(MouseButton::Left, true);
    assert!(s.hide_cursor());
    s.handle_modifiers(true);
    assert!(!s.hide_cursor());
}

#[test]
fn cine_step_injects_whole_frames() {
    let mut s = state_with_frames(10, 0);
    s.toggle_cine();
    // 10 fps: 250 ms yields 2.5 frames, injected as a negative wheel delta.
    assert!(s.cine_step(250));
    assert_eq!(s.scroll_delta, Some(-(5 * FP_ONE) / 2));
    // 50 ms yields only half a frame: no injection.
    let mut s = state_with_frames(10, 0);
    s.toggle_cine();
    assert!(!s.cine_step(50));
    assert_eq!(s.scroll_delta, None);
}
