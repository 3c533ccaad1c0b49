use pixel_renderer::input::{InputContext, KeyCode, KeyModifier, KeyboardContext, MouseButton, MouseContext};

#[test]
fn key_pressed_test() {
    let mut kc = KeyboardContext::default();

    kc.set_key(KeyCode::KeyA);

    assert!(kc.key_pressed(KeyCode::KeyA));
    assert!(!kc.key_pressed(KeyCode::KeyB));

    kc.save_keys();
    kc.set_key(KeyCode::KeyB);

    assert!(kc.key_pressed(KeyCode::KeyA));
    assert!(kc.key_pressed(KeyCode::KeyB));

    kc.save_keys();
    kc.release_key(KeyCode::KeyA);

    assert!(!kc.key_pressed(KeyCode::KeyA));
    assert!(kc.key_pressed(KeyCode::KeyB));
}

#[test]
fn key_just_pressed_test() {
    let mut kc = KeyboardContext::default();
    kc.set_key(KeyCode::KeyA);

    assert!(kc.key_just_pressed(KeyCode::KeyA));

    kc.save_keys();
    kc.set_key(KeyCode::KeyA);

    assert!(!kc.key_just_pressed(KeyCode::KeyA));
}

#[test]
fn key_released_test() {
    let mut kc = KeyboardContext::default();
    kc.set_key(KeyCode::KeyA);

    assert!(!kc.key_released(KeyCode::KeyA));

    kc.save_keys();
    kc.release_key(KeyCode::KeyA);

    assert!(kc.key_released(KeyCode::KeyA));
}

#[test]
fn modifer_pressed_test() {
    let mut kc = KeyboardContext::default();

    // Press Shift
    kc.modifiers_changed(true, false, false, false);

    assert!(kc.modifier_pressed(KeyModifier::Shift));
    assert!(!kc.modifier_pressed(KeyModifier::Ctrl));

    kc.save_modifiers();

    // Press Shift and Ctrl
    kc.modifiers_changed(true, false, true, false);

    assert!(kc.modifier_pressed(KeyModifier::Shift));
    assert!(kc.modifier_pressed(KeyModifier::Ctrl));

    kc.save_modifiers();

    // Release Shift
    kc.modifiers_changed(false, false, true, false);

    assert!(!kc.modifier_pressed(KeyModifier::Shift));
    assert!(kc.modifier_pressed(KeyModifier::Ctrl));
}

#[test]
fn modifier_just_pressed_test() {
    let mut kc = KeyboardContext::default();
    // Press shift
    kc.modifiers_changed(true, false, false, false);

    assert!(kc.modifier_just_pressed(KeyModifier::Shift));

    kc.save_modifiers();

    // Release shift
    kc.modifiers_changed(false, false, false, false);

    assert!(!kc.modifier_just_pressed(KeyModifier::Shift));
}

#[test]
fn modifier_released_test() {
    let mut kc = KeyboardContext::default();

    // Press shift
    kc.modifiers_changed(true, false, false, false);

    assert!(!kc.modifier_released(KeyModifier::Shift));
    assert!(!kc.modifier_released(KeyModifier::Ctrl));

    kc.save_modifiers();

    // Release shift
    kc.modifiers_changed(false, false, false, false);

    assert!(kc.modifier_released(KeyModifier::Shift));
    assert!(!kc.modifier_released(KeyModifier::Ctrl));
}

#[test]
fn modifiers_replace_wholesale() {
    let mut kc = KeyboardContext::default();
    kc.modifiers_changed(true, true, true, true);
    assert!(kc.modifier_pressed(KeyModifier::Shift));
    assert!(kc.modifier_pressed(KeyModifier::Alt));
    assert!(kc.modifier_pressed(KeyModifier::Ctrl));
    assert!(kc.modifier_pressed(KeyModifier::Super));

    kc.modifiers_changed(false, true, false, false);
    assert!(!kc.modifier_pressed(KeyModifier::Shift));
    assert!(kc.modifier_pressed(KeyModifier::Alt));
    assert!(!kc.modifier_pressed(KeyModifier::Ctrl));
    assert!(!kc.modifier_pressed(KeyModifier::Super));
}

#[test]
fn button_edges_test() {
    let mut mc = MouseContext::default();

    mc.press_button(MouseButton::Left);
    assert!(mc.button_pressed(MouseButton::Left));
    assert!(mc.button_just_pressed(MouseButton::Left));
    assert!(!mc.button_pressed(MouseButton::Right));
    assert!(!mc.button_just_pressed(MouseButton::Other(7)));

    mc.save_buttons();
    assert!(mc.button_pressed(MouseButton::Left));
    assert!(!mc.button_just_pressed(MouseButton::Left));
    assert!(!mc.button_released(MouseButton::Left));

    mc.release_button(MouseButton::Left);
    assert!(!mc.button_pressed(MouseButton::Left));
    assert!(mc.button_released(MouseButton::Left));
}

#[test]
fn input_edge_detection_across_frames() {
    let mut input = InputContext::default();

    // A key pressed this frame is both pressed and just pressed.
    input.keyboard.set_key(KeyCode::KeyA);
    assert!(input.keyboard.key_pressed(KeyCode::KeyA));
    assert!(input.keyboard.key_just_pressed(KeyCode::KeyA));
    assert!(!input.keyboard.key_released(KeyCode::KeyA));

    // Still held after the frame boundary: pressed, no longer an edge.
    input.advance_frame();
    assert!(input.keyboard.key_pressed(KeyCode::KeyA));
    assert!(!input.keyboard.key_just_pressed(KeyCode::KeyA));

    // Released: the release edge shows against the previous generation,
    // and disappears once the next boundary snapshots the empty set.
    input.keyboard.release_key(KeyCode::KeyA);
    assert!(input.keyboard.key_released(KeyCode::KeyA));
    input.advance_frame();
    assert!(!input.keyboard.key_released(KeyCode::KeyA));
}

#[test]
fn advance_frame_twice_erases_edges() {
    let mut input = InputContext::default();
    input.keyboard.set_key(KeyCode::Space);
    input.advance_frame();
    input.keyboard.release_key(KeyCode::Space);
    // Two boundaries with no queries in between: the release edge is gone.
    input.advance_frame();
    input.advance_frame();
    assert!(!input.keyboard.key_released(KeyCode::Space));
}

#[test]
fn pointer_delta_accumulates_and_resets() {
    let mut input = InputContext::default();

    input.mouse.accumulate_pointer_delta(3, 4);
    input.mouse.accumulate_pointer_delta(10, -1);
    assert_eq!(input.mouse.mouse_delta(), (13, 3));

    input.mouse.accumulate_scroll_delta(0, 2);
    input.mouse.accumulate_scroll_delta(1, 2);
    assert_eq!(input.mouse.scroll_delta(), (1, 4));

    input.advance_frame();
    assert_eq!(input.mouse.mouse_delta(), (0, 0));
    assert_eq!(input.mouse.scroll_delta(), (0, 0));
}

#[test]
fn delta_reset_test() {
    let mut input = InputContext::default();
    input.mouse.accumulate_pointer_delta(3, 4);
    input.advance_frame();
    assert_eq!(input.mouse.mouse_delta(), (0, 0));
}

#[test]
fn pointer_position_and_surface_state() {
    let mut mc = MouseContext::default();
    assert!(!mc.on_screen());

    mc.set_on_screen(true);
    mc.set_pos(120, 37);
    assert!(mc.on_screen());
    assert_eq!(mc.mouse_pos_physical(), (120, 37));

    // Position updates do not touch the surface flag, and vice versa.
    mc.set_pos(-5, 2);
    assert!(mc.on_screen());
    mc.set_on_screen(false);
    assert_eq!(mc.mouse_pos_physical(), (-5, 2));
}

#[test]
fn pointer_pixel_mapping() {
    let mut mc = MouseContext::default();

    mc.set_pos(256, 128);
    assert_eq!(mc.mouse_pos_pixel(512, 512, 256, 256), (128, 64));

    // The mapping truncates downward.
    mc.set_pos(511, 1);
    assert_eq!(mc.mouse_pos_pixel(512, 512, 256, 256), (255, 0));

    // Beyond the drawable edge the mapping can name a pixel outside the
    // canvas; it does not clamp to the canvas.
    mc.set_pos(600, 512);
    assert_eq!(mc.mouse_pos_pixel(512, 512, 256, 256), (300, 256));

    // A negative position maps to zero.
    mc.set_pos(-40, 3);
    assert_eq!(mc.mouse_pos_pixel(512, 512, 256, 256), (0, 1));
}
