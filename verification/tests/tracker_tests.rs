use mouse_tracker::{
    calculate_motion, capture, create_mouse_event, get_target_info, Button, EventType,
    ExtraFields, KeyState, LastEvent, Motion, RawInput, RawTarget, TargetInfo, TrackingState,
    Viewport,
};

fn no_target() -> TargetInfo {
    get_target_info(None)
}

fn viewport() -> Viewport {
    Viewport { width: 1280, height: 720 }
}

fn key_state() -> KeyState {
    KeyState {
        key: "a".to_string(),
        code: "KeyA".to_string(),
        ctrl_key: true,
        shift_key: false,
        alt_key: false,
        meta_key: true,
    }
}

#[test]
fn new_session_starts_empty() {
    let s = TrackingState::new(1700000000000);
    assert_eq!(s.session_id, "session_1700000000000");
    assert_eq!(s.event_counter, 0);
    assert_eq!(s.last_event, None);
    assert_eq!(s.drag_state, None);
}

#[test]
fn session_at_epoch_zero() {
    let s = TrackingState::new(0);
    assert_eq!(s.session_id, "session_0");
}

#[test]
fn event_ids_count_up_from_zero() {
    let mut s = TrackingState::new(42);
    assert_eq!(s.generate_event_id(), "event_session_42_0");
    assert_eq!(s.generate_event_id(), "event_session_42_1");
    assert_eq!(s.generate_event_id(), "event_session_42_2");
    assert_eq!(s.event_counter, 3);
}

#[test]
fn event_ids_are_pairwise_distinct() {
    let mut s = TrackingState::new(5);
    let mut ids: Vec<String> = Vec::new();
    for _ in 0..120 {
        ids.push(s.generate_event_id());
    }
    for i in 0..ids.len() {
        assert_eq!(ids[i], format!("event_session_5_{}", i));
        for j in (i + 1)..ids.len() {
            assert_ne!(ids[i], ids[j]);
        }
    }
}

#[test]
fn event_counter_is_shared_by_all_kinds() {
    let mut s = TrackingState::new(9);
    let a = capture(&mut s, RawInput::MouseMove { buttons: 0 }, 1, 1, no_target(), viewport(), 10);
    let b = capture(&mut s, RawInput::KeyDown(key_state()), 0, 0, no_target(), viewport(), 20);
    let c = capture(&mut s, RawInput::Wheel { delta_x: 0, delta_y: 0 }, 2, 2, no_target(), viewport(), 30);
    assert_eq!(a.event_id, "event_session_9_0");
    assert_eq!(b.event_id, "event_session_9_1");
    assert_eq!(c.event_id, "event_session_9_2");
    assert_eq!(a.session_id, "session_9");
    assert_eq!(c.session_id, "session_9");
}

#[test]
fn mousedown_then_mouseup_in_place() {
    let mut s = TrackingState::new(1000);
    let down = capture(
        &mut s,
        RawInput::MouseDown { button: 0, buttons: 1 },
        10,
        20,
        no_target(),
        viewport(),
        5000,
    );
    let up = capture(
        &mut s,
        RawInput::MouseUp { button: 0, buttons: 0 },
        10,
        20,
        no_target(),
        viewport(),
        5100,
    );
    assert_eq!(down.event_type, EventType::MouseDown);
    assert_eq!(down.event_type.as_str(), "mousedown");
    assert_eq!(up.event_type.as_str(), "mouseup");
    assert_eq!(down.motion, None);
    let m = up.motion.expect("time has passed since the press");
    assert_eq!(m, Motion { dx: 0, dy: 0, dt_ms: 100 });
    assert_eq!(m.distance_squared(), 0);
    assert!(m.is_still());
    let distance = (m.distance_squared() as f64).sqrt();
    let velocity_x = m.dx as f64 / m.dt_ms as f64;
    let velocity_y = m.dy as f64 / m.dt_ms as f64;
    assert_eq!(distance, 0.0);
    assert_eq!(velocity_x, 0.0);
    assert_eq!(velocity_y, 0.0);
    assert_eq!(down.button, Some(Button::Left));
    assert_eq!(down.buttons, Some(1));
    assert_eq!(up.buttons, Some(0));
    assert_eq!(up.timestamp, 5100);
    assert_eq!((up.x, up.y), (10, 20));
}

#[test]
fn motion_of_a_three_four_five_move() {
    let last = Some(LastEvent { x: 10, y: 20, time: 1000 });
    let m = calculate_motion(&last, 13, 16, 1002).unwrap();
    assert_eq!(m, Motion { dx: 3, dy: -4, dt_ms: 2 });
    assert_eq!(m.distance_squared(), 25);
    assert!(!m.is_still());
    assert_eq!((m.distance_squared() as f64).sqrt(), 5.0);
    assert_eq!(m.dx as f64 / m.dt_ms as f64, 1.5);
    assert_eq!(m.dy as f64 / m.dt_ms as f64, -2.0);
}

#[test]
fn motion_absent_without_predecessor() {
    assert_eq!(calculate_motion(&None, 1, 2, 3), None);
}

#[test]
fn motion_absent_when_no_time_passed() {
    let last = Some(LastEvent { x: 0, y: 0, time: 1000 });
    assert_eq!(calculate_motion(&last, 5, 5, 1000), None);
}

#[test]
fn motion_absent_when_time_went_back() {
    let last = Some(LastEvent { x: 0, y: 0, time: 1000 });
    assert_eq!(calculate_motion(&last, 5, 5, 999), None);
}

#[test]
fn motion_at_the_ends_of_the_coordinate_range() {
    let last = Some(LastEvent { x: i32::MIN, y: i32::MAX, time: 0 });
    let m = calculate_motion(&last, i32::MAX, i32::MIN, u64::MAX).unwrap();
    assert_eq!(m.dx, 4294967295);
    assert_eq!(m.dy, -4294967295);
    assert_eq!(m.dt_ms, u64::MAX);
    assert_eq!(m.distance_squared(), 2 * 4294967295u128 * 4294967295u128);
}

#[test]
fn distance_squared_of_extreme_displacements() {
    let m = Motion { dx: i64::MIN, dy: i64::MIN, dt_ms: 1 };
    assert_eq!(m.distance_squared(), 1u128 << 127);
}

#[test]
fn same_timestamp_records_have_no_motion() {
    let mut s = TrackingState::new(1);
    let _ = capture(&mut s, RawInput::MouseMove { buttons: 0 }, 0, 0, no_target(), viewport(), 77);
    let b = capture(&mut s, RawInput::MouseMove { buttons: 0 }, 9, 9, no_target(), viewport(), 77);
    assert_eq!(b.motion, None);
    assert_eq!(s.last_event, Some(LastEvent { x: 9, y: 9, time: 77 }));
}

#[test]
fn drag_records_point_at_their_drag_start() {
    let mut s = TrackingState::new(3);
    let before = capture(&mut s, RawInput::MouseMove { buttons: 0 }, 0, 0, no_target(), viewport(), 1);
    let start = capture(&mut s, RawInput::DragStart, 1, 1, no_target(), viewport(), 2);
    assert_eq!(s.drag_state, Some("event_session_3_1".to_string()));
    let drag1 = capture(&mut s, RawInput::Drag, 2, 2, no_target(), viewport(), 3);
    let drag2 = capture(&mut s, RawInput::Drag, 3, 3, no_target(), viewport(), 4);
    let end = capture(&mut s, RawInput::DragEnd, 4, 4, no_target(), viewport(), 5);
    assert_eq!(s.drag_state, None);
    let after = capture(&mut s, RawInput::MouseMove { buttons: 0 }, 5, 5, no_target(), viewport(), 6);
    assert_eq!(before.parent_event_id, None);
    assert_eq!(start.parent_event_id, None);
    assert_eq!(start.event_id, "event_session_3_1");
    assert_eq!(drag1.parent_event_id, Some("event_session_3_1".to_string()));
    assert_eq!(drag2.parent_event_id, Some("event_session_3_1".to_string()));
    assert_eq!(end.parent_event_id, Some("event_session_3_1".to_string()));
    assert_eq!(after.parent_event_id, None);
}

#[test]
fn second_drag_points_at_second_drag_start() {
    let mut s = TrackingState::new(3);
    let _ = capture(&mut s, RawInput::DragStart, 1, 1, no_target(), viewport(), 1);
    let _ = capture(&mut s, RawInput::DragEnd, 1, 1, no_target(), viewport(), 2);
    let start = capture(&mut s, RawInput::DragStart, 1, 1, no_target(), viewport(), 3);
    let drag = capture(&mut s, RawInput::Drag, 2, 2, no_target(), viewport(), 4);
    assert_eq!(start.event_id, "event_session_3_2");
    assert_eq!(drag.parent_event_id, Some("event_session_3_2".to_string()));
}

#[test]
fn mouse_move_supplies_buttons_only() {
    let mut s = TrackingState::new(1);
    let e = capture(&mut s, RawInput::MouseMove { buttons: 5 }, 7, 8, no_target(), viewport(), 10);
    assert_eq!(e.event_type.as_str(), "mousemove");
    assert_eq!(e.buttons, Some(5));
    assert_eq!(e.button, None);
    assert_eq!(e.scroll_x, None);
    assert_eq!(e.scroll_y, None);
    assert_eq!(e.key, None);
    assert_eq!(e.code, None);
    assert_eq!(e.ctrl_key, None);
    assert_eq!(e.screen_x, Some(7));
    assert_eq!(e.screen_y, Some(8));
    assert_eq!(e.page_x, Some(7));
    assert_eq!(e.page_y, Some(8));
    assert_eq!(e.viewport_width, Some(1280));
    assert_eq!(e.viewport_height, Some(720));
    assert_eq!(e.metadata, None);
    assert_eq!(e.target, None);
}

#[test]
fn wheel_supplies_both_deltas() {
    let mut s = TrackingState::new(1);
    let dx = 1.5f64.to_bits();
    let dy = (-120.0f64).to_bits();
    let e = capture(&mut s, RawInput::Wheel { delta_x: dx, delta_y: dy }, 0, 0, no_target(), viewport(), 10);
    assert_eq!(e.event_type.as_str(), "wheel");
    assert_eq!(e.scroll_x.map(f64::from_bits), Some(1.5));
    assert_eq!(e.scroll_y.map(f64::from_bits), Some(-120.0));
    assert_eq!(e.buttons, None);
    assert_eq!(e.button, None);
    assert_eq!(e.key, None);
}

#[test]
fn key_events_supply_key_code_and_modifiers_at_origin() {
    let mut s = TrackingState::new(1);
    let down = capture(&mut s, RawInput::KeyDown(key_state()), 55, 66, no_target(), viewport(), 10);
    let up = capture(&mut s, RawInput::KeyUp(key_state()), 55, 66, no_target(), viewport(), 11);
    assert_eq!(down.event_type.as_str(), "keydown");
    assert_eq!(up.event_type.as_str(), "keyup");
    assert_eq!((down.x, down.y), (0, 0));
    assert_eq!(down.key, Some("a".to_string()));
    assert_eq!(down.code, Some("KeyA".to_string()));
    assert_eq!(down.ctrl_key, Some(true));
    assert_eq!(down.shift_key, Some(false));
    assert_eq!(down.alt_key, Some(false));
    assert_eq!(down.meta_key, Some(true));
    assert_eq!(down.buttons, None);
    assert_eq!(down.scroll_x, None);
    assert_eq!(s.last_event, Some(LastEvent { x: 0, y: 0, time: 11 }));
}

#[test]
fn drag_events_supply_no_extra_fields() {
    assert_eq!(ExtraFields::from_input(RawInput::DragStart), None);
    assert_eq!(ExtraFields::from_input(RawInput::Drag), None);
    assert_eq!(ExtraFields::from_input(RawInput::DragEnd), None);
    let mut s = TrackingState::new(1);
    let e = capture(&mut s, RawInput::DragStart, 3, 4, no_target(), viewport(), 10);
    assert_eq!(e.event_type.as_str(), "dragstart");
    assert_eq!(e.button, None);
    assert_eq!(e.buttons, None);
    assert_eq!(e.key, None);
    assert_eq!(e.scroll_y, None);
}

#[test]
fn button_codes() {
    assert_eq!(Button::from_code(0), Button::Left);
    assert_eq!(Button::from_code(1), Button::Middle);
    assert_eq!(Button::from_code(2), Button::Right);
    assert_eq!(Button::from_code(3), Button::Unknown);
    assert_eq!(Button::from_code(-1), Button::Unknown);
    assert_eq!(Button::Left.as_str(), "left");
    assert_eq!(Button::Middle.as_str(), "middle");
    assert_eq!(Button::Right.as_str(), "right");
    assert_eq!(Button::Unknown.as_str(), "unknown");
}

#[test]
fn event_type_tags() {
    assert_eq!(EventType::MouseMove.as_str(), "mousemove");
    assert_eq!(EventType::MouseDown.as_str(), "mousedown");
    assert_eq!(EventType::MouseUp.as_str(), "mouseup");
    assert_eq!(EventType::Wheel.as_str(), "wheel");
    assert_eq!(EventType::DragStart.as_str(), "dragstart");
    assert_eq!(EventType::Drag.as_str(), "drag");
    assert_eq!(EventType::DragEnd.as_str(), "dragend");
    assert_eq!(EventType::KeyDown.as_str(), "keydown");
    assert_eq!(EventType::KeyUp.as_str(), "keyup");
}

#[test]
fn create_mouse_event_without_extra_fields() {
    let mut s = TrackingState::new(8);
    s.drag_state = Some("event_session_8_77".to_string());
    s.last_event = Some(LastEvent { x: 0, y: 0, time: 100 });
    let e = create_mouse_event(EventType::Drag, 6, 8, &mut s, None, no_target(), viewport(), 104);
    assert_eq!(e.event_id, "event_session_8_0");
    assert_eq!(e.parent_event_id, Some("event_session_8_77".to_string()));
    assert_eq!(e.motion, Some(Motion { dx: 6, dy: 8, dt_ms: 4 }));
    assert_eq!(e.motion.unwrap().distance_squared(), 100);
    assert_eq!(e.buttons, None);
    assert_eq!(s.drag_state, Some("event_session_8_77".to_string()));
    assert_eq!(s.last_event, Some(LastEvent { x: 6, y: 8, time: 104 }));
    assert_eq!(s.event_counter, 1);
}

#[test]
fn create_mouse_event_folds_extra_fields() {
    let mut s = TrackingState::new(8);
    let mut extra = ExtraFields::empty();
    extra.button = Some(Button::Right);
    extra.buttons = Some(2);
    let e = create_mouse_event(EventType::MouseDown, 1, 2, &mut s, Some(extra), no_target(), viewport(), 5);
    assert_eq!(e.button, Some(Button::Right));
    assert_eq!(e.buttons, Some(2));
    assert_eq!(e.motion, None);
}

#[test]
fn target_of_an_element() {
    let info = get_target_info(Some(RawTarget {
        tag_name: "DIV".to_string(),
        id: Some("Box".to_string()),
        class_name: Some("Big Red".to_string()),
        inner_text: Some("Drag me".to_string()),
    }));
    assert_eq!(info.tag, Some("div".to_string()));
    assert_eq!(info.id, Some("Box".to_string()));
    assert_eq!(info.class_name, Some("Big Red".to_string()));
    assert_eq!(info.text, Some("Drag me".to_string()));
}

#[test]
fn target_without_attributes_or_text() {
    let info = get_target_info(Some(RawTarget {
        tag_name: "svg".to_string(),
        id: None,
        class_name: None,
        inner_text: None,
    }));
    assert_eq!(info.tag, Some("svg".to_string()));
    assert_eq!(info.id, None);
    assert_eq!(info.class_name, None);
    assert_eq!(info.text, None);
}

#[test]
fn target_with_empty_text_has_no_text() {
    let info = get_target_info(Some(RawTarget {
        tag_name: "P".to_string(),
        id: None,
        class_name: None,
        inner_text: Some(String::new()),
    }));
    assert_eq!(info.tag, Some("p".to_string()));
    assert_eq!(info.text, None);
}

#[test]
fn no_target_gives_empty_descriptor() {
    let info = get_target_info(None);
    assert_eq!(info, TargetInfo { tag: None, id: None, class_name: None, text: None });
}

#[test]
fn target_lands_in_the_record() {
    let mut s = TrackingState::new(1);
    let info = get_target_info(Some(RawTarget {
        tag_name: "BUTTON".to_string(),
        id: Some("go".to_string()),
        class_name: None,
        inner_text: Some("x".repeat(60)),
    }));
    let e = capture(&mut s, RawInput::MouseMove { buttons: 0 }, 1, 1, info, viewport(), 10);
    assert_eq!(e.target_tag, Some("button".to_string()));
    assert_eq!(e.target_id, Some("go".to_string()));
    assert_eq!(e.target_class, None);
    assert_eq!(e.target_text, Some(format!("{}...", "x".repeat(50))));
}

#[test]
fn other_kinds_carry_no_parent_during_a_drag() {
    let mut s = TrackingState::new(3);
    let start = capture(&mut s, RawInput::DragStart, 1, 1, no_target(), viewport(), 1);
    let moved = capture(&mut s, RawInput::MouseMove { buttons: 1 }, 2, 2, no_target(), viewport(), 2);
    let key = capture(&mut s, RawInput::KeyDown(key_state()), 0, 0, no_target(), viewport(), 3);
    let wheel = capture(&mut s, RawInput::Wheel { delta_x: 0, delta_y: 0 }, 2, 2, no_target(), viewport(), 4);
    let down = capture(&mut s, RawInput::MouseDown { button: 0, buttons: 1 }, 2, 2, no_target(), viewport(), 5);
    let up = capture(&mut s, RawInput::MouseUp { button: 0, buttons: 0 }, 2, 2, no_target(), viewport(), 6);
    let released = capture(&mut s, RawInput::KeyUp(key_state()), 0, 0, no_target(), viewport(), 7);
    assert_eq!(s.drag_state, Some("event_session_3_0".to_string()));
    let drag = capture(&mut s, RawInput::Drag, 3, 3, no_target(), viewport(), 8);
    assert_eq!(start.parent_event_id, None);
    assert_eq!(moved.parent_event_id, None);
    assert_eq!(key.parent_event_id, None);
    assert_eq!(wheel.parent_event_id, None);
    assert_eq!(down.parent_event_id, None);
    assert_eq!(up.parent_event_id, None);
    assert_eq!(released.parent_event_id, None);
    assert_eq!(drag.parent_event_id, Some("event_session_3_0".to_string()));
}

#[test]
fn second_drag_start_during_a_drag_carries_no_parent() {
    let mut s = TrackingState::new(3);
    let _ = capture(&mut s, RawInput::DragStart, 1, 1, no_target(), viewport(), 1);
    let _ = capture(&mut s, RawInput::MouseMove { buttons: 1 }, 2, 2, no_target(), viewport(), 2);
    let second = capture(&mut s, RawInput::DragStart, 3, 3, no_target(), viewport(), 3);
    assert_eq!(second.parent_event_id, None);
    assert_eq!(second.event_id, "event_session_3_2");
    assert_eq!(s.drag_state, Some("event_session_3_2".to_string()));
    let drag = capture(&mut s, RawInput::Drag, 4, 4, no_target(), viewport(), 4);
    let end = capture(&mut s, RawInput::DragEnd, 4, 4, no_target(), viewport(), 5);
    assert_eq!(drag.parent_event_id, Some("event_session_3_2".to_string()));
    assert_eq!(end.parent_event_id, Some("event_session_3_2".to_string()));
    assert_eq!(s.drag_state, None);
}

#[test]
fn create_mouse_event_reads_the_open_drag_for_drag_kinds_only() {
    let kinds = [
        (EventType::MouseMove, false),
        (EventType::MouseDown, false),
        (EventType::MouseUp, false),
        (EventType::Wheel, false),
        (EventType::DragStart, false),
        (EventType::Drag, true),
        (EventType::DragEnd, true),
        (EventType::KeyDown, false),
        (EventType::KeyUp, false),
    ];
    for (kind, carries) in kinds {
        let mut s = TrackingState::new(8);
        s.drag_state = Some("event_session_8_77".to_string());
        let e = create_mouse_event(kind, 1, 2, &mut s, None, no_target(), viewport(), 5);
        let expected = if carries { Some("event_session_8_77".to_string()) } else { None };
        assert_eq!(e.parent_event_id, expected);
        assert_eq!(s.drag_state, Some("event_session_8_77".to_string()));
    }
}

#[test]
fn drag_without_an_open_drag_has_no_parent() {
    let mut s = TrackingState::new(3);
    let _ = capture(&mut s, RawInput::DragStart, 1, 1, no_target(), viewport(), 1);
    let _ = capture(&mut s, RawInput::DragEnd, 1, 1, no_target(), viewport(), 2);
    let stray = capture(&mut s, RawInput::Drag, 2, 2, no_target(), viewport(), 3);
    assert_eq!(stray.parent_event_id, None);
}
