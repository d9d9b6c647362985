use paneru::mouse::{
    mission_control_inactive, mouse_down_action, mouse_held_timeout, mouse_moved_focus, mouse_moved_needs_lookup, mouse_up,
    resize_frame, FocusFollowsMouse, Frame, MouseDownAction, MouseHeld, MouseMoveFocus,
    MouseResizeState, Origin, ResizePlan, MOUSE_HELD_TIMEOUT_MS,
};

#[test]
fn mouse_moved_lookup_only_when_following_focus() {
    assert!(mouse_moved_needs_lookup(false, true, false));
    assert!(!mouse_moved_needs_lookup(true, true, false));
    assert!(!mouse_moved_needs_lookup(false, false, false));
    assert!(!mouse_moved_needs_lookup(false, true, true));
}

#[test]
fn mouse_moved_focuses_unfocused_window() {
    assert_eq!(mouse_moved_focus(None, Some(3), Some(30)), MouseMoveFocus::Keep);
    assert_eq!(mouse_moved_focus(Some(3), Some(3), Some(30)), MouseMoveFocus::Keep);
    assert_eq!(mouse_moved_focus(Some(4), Some(3), None), MouseMoveFocus::Keep);
    assert_eq!(
        mouse_moved_focus(Some(4), Some(3), Some(40)),
        MouseMoveFocus::Focus { window_id: 4, entity: 40 }
    );
    assert_eq!(
        mouse_moved_focus(Some(4), None, Some(40)),
        MouseMoveFocus::Focus { window_id: 4, entity: 40 }
    );
}

#[test]
fn mouse_down_holds_clicked_window() {
    assert_eq!(mouse_down_action(None, false), MouseDownAction::Ignore);
    assert_eq!(
        mouse_down_action(Some(9), false),
        MouseDownAction::StopScrolling { hold: Some(9) }
    );
    assert_eq!(
        mouse_down_action(Some(9), true),
        MouseDownAction::StopScrolling { hold: None }
    );
}

#[test]
fn resize_state_tracks_pointer_while_modifier_held() {
    let mut state = MouseResizeState::new();
    assert_eq!(state.pointer_moved(true, Origin { x: 10, y: 0 }), None);
    assert_eq!(state.last_point, Some(Origin { x: 10, y: 0 }));
    assert_eq!(state.pointer_moved(true, Origin { x: 13, y: 5 }), Some(15));
    assert_eq!(state.pointer_moved(true, Origin { x: 13, y: 9 }), None);
    assert_eq!(state.pointer_moved(true, Origin { x: 11, y: 9 }), Some(-10));
    assert!(state.claim_window(5));
    assert!(!state.claim_window(6));
    assert_eq!(state.window_id, Some(5));
    assert!(state.claim_window(5));
    assert_eq!(state.pointer_moved(false, Origin { x: 0, y: 0 }), None);
    assert_eq!(state, MouseResizeState::new());
}

#[test]
fn resize_moves_the_edge_nearest_the_pointer() {
    let frame = Frame { min: Origin { x: 100, y: 20 }, max: Origin { x: 300, y: 220 } };
    let strip = Origin { x: -50, y: 0 };
    assert_eq!(
        resize_frame(frame, strip, 150, 15),
        ResizePlan { strip_origin: Some(Origin { x: -35, y: 0 }), width: 185, height: 200 }
    );
    assert_eq!(
        resize_frame(frame, strip, 250, 15),
        ResizePlan { strip_origin: None, width: 215, height: 200 }
    );
    assert_eq!(
        resize_frame(frame, strip, 200, -10),
        ResizePlan { strip_origin: None, width: 190, height: 200 }
    );
}

#[test]
fn resize_center_rounds_toward_zero() {
    let frame = Frame { min: Origin { x: -3, y: 0 }, max: Origin { x: 0, y: 10 } };
    let strip = Origin { x: 0, y: 0 };
    // The center is -1 (-3 / 2 rounded toward zero): -2 is left of it.
    assert_eq!(resize_frame(frame, strip, -2, 5).strip_origin, Some(Origin { x: 5, y: 0 }));
    assert_eq!(resize_frame(frame, strip, -1, 5).strip_origin, None);
}

#[test]
fn focus_follows_mouse_once_while_pending() {
    let mut ffm = FocusFollowsMouse { pending: None, skip_reshuffle: false };
    assert!(ffm.needs_lookup(false, true));
    assert_eq!(ffm.mouse_moved(false, true, Some(3), Some(3), Some(30)), MouseMoveFocus::Keep);
    assert_eq!(ffm, FocusFollowsMouse { pending: None, skip_reshuffle: false });
    assert_eq!(
        ffm.mouse_moved(false, true, Some(4), Some(3), Some(40)),
        MouseMoveFocus::Focus { window_id: 4, entity: 40 }
    );
    assert_eq!(ffm, FocusFollowsMouse { pending: Some(4), skip_reshuffle: true });
    assert!(!ffm.needs_lookup(false, true));
    assert_eq!(ffm.mouse_moved(false, true, Some(5), Some(4), Some(50)), MouseMoveFocus::Keep);
    assert_eq!(ffm.pending, Some(4));
    ffm.pending = None;
    assert_eq!(ffm.mouse_moved(true, true, Some(5), Some(4), Some(50)), MouseMoveFocus::Keep);
    assert_eq!(ffm.mouse_moved(false, false, Some(5), Some(4), Some(50)), MouseMoveFocus::Keep);
}

#[test]
fn held_window_is_reshuffled_once_on_release() {
    let mut held = MouseHeld::new();
    assert_eq!(mouse_up(&mut held), None);
    held.hold(7, 1000);
    assert_eq!(mouse_up(&mut held), Some(7));
    assert_eq!(mouse_up(&mut held), None);
}

#[test]
fn held_window_expires_after_a_minute() {
    let mut held = MouseHeld::new();
    held.hold(7, 1000);
    mouse_held_timeout(&mut held, 1000 + MOUSE_HELD_TIMEOUT_MS);
    assert_eq!(held.held, Some((7, 1000)));
    mouse_held_timeout(&mut held, 1001 + MOUSE_HELD_TIMEOUT_MS);
    assert_eq!(held.held, None);
    held.hold(8, 5000);
    mouse_held_timeout(&mut held, 10);
    assert_eq!(held.held, Some((8, 5000)));
}

#[test]
fn right_edge_resize_does_not_need_the_strip_shift_to_fit() {
    let frame = Frame { min: Origin { x: 0, y: 0 }, max: Origin { x: 100, y: 50 } };
    let strip = Origin { x: i32::MAX, y: 0 };
    assert_eq!(
        resize_frame(frame, strip, 80, 10),
        ResizePlan { strip_origin: None, width: 110, height: 50 }
    );
}

#[test]
fn mouse_handlers_run_only_outside_mission_control() {
    assert!(mission_control_inactive(None));
    assert!(mission_control_inactive(Some(false)));
    assert!(!mission_control_inactive(Some(true)));
}

#[test]
fn mouse_resize_step_resizes_claimed_window() {
    let frame = Frame { min: Origin { x: 0, y: 0 }, max: Origin { x: 100, y: 50 } };
    let strip = Origin { x: 0, y: 0 };
    let mut state = MouseResizeState::new();
    // The first movement with the modifier only remembers the pointer.
    assert_eq!(state.mouse_moved(true, Origin { x: 10, y: 0 }, Some(7), Some(frame), strip), None);
    assert_eq!(state.last_point, Some(Origin { x: 10, y: 0 }));
    assert_eq!(state.window_id, None);
    // From the left half: the strip moves and the left edge follows.
    assert_eq!(
        state.mouse_moved(true, Origin { x: 12, y: 0 }, Some(7), Some(frame), strip),
        Some(ResizePlan { strip_origin: Some(Origin { x: 10, y: 0 }), width: 90, height: 50 })
    );
    assert_eq!(state.window_id, Some(7));
    // Another window under the pointer is refused.
    assert_eq!(state.mouse_moved(true, Origin { x: 14, y: 0 }, Some(8), Some(frame), strip), None);
    assert_eq!(state.window_id, Some(7));
    assert_eq!(state.last_point, Some(Origin { x: 14, y: 0 }));
    // From the right half only the right edge moves.
    assert_eq!(
        state.mouse_moved(true, Origin { x: 80, y: 0 }, Some(7), Some(frame), strip),
        Some(ResizePlan { strip_origin: None, width: 430, height: 50 })
    );
    // No horizontal movement: nothing is resized.
    assert_eq!(state.mouse_moved(true, Origin { x: 80, y: 9 }, Some(7), Some(frame), strip), None);
    // A window outside the strip is claimed but not resized.
    let mut other = MouseResizeState { last_point: Some(Origin { x: 0, y: 0 }), window_id: None };
    assert_eq!(other.mouse_moved(true, Origin { x: 1, y: 0 }, Some(9), None, strip), None);
    assert_eq!(other.window_id, Some(9));
    // Releasing the modifier resets the state.
    assert_eq!(state.mouse_moved(false, Origin { x: 90, y: 0 }, Some(7), Some(frame), strip), None);
    assert_eq!(state, MouseResizeState::new());
}
