use sanji_engine::input::gamepad::{GamepadButton, GamepadButtonState, GamepadManager, GamepadState};
use sanji_engine::input::input_manager::{InputManager, MOUSE_LEFT, MOUSE_RIGHT};
use sanji_engine::input::input_map::{
    evaluate_action, mouse_axis_for_name, ActionConfig, ActionQuery, InputBinding, InputMap, MouseAxisType,
};
use sanji_engine::input::keyboard::{
    CommonKeyCombinations, KeyCombination, KeyboardState, ALT_LEFT, CONTROL_LEFT, F4, KEY_A, KEY_C, KEY_W, KEY_Z,
    SPACE,
};
use sanji_engine::input::mouse::{MouseButtonState, MouseButtons};

#[test]
fn key_press_then_release_round_trip() {
    let mut k = KeyboardState::new();
    k.simulate_key_press(KEY_W);
    assert!(k.is_key_down(KEY_W));
    assert!(k.is_key_just_pressed(KEY_W));
    k.simulate_key_press(KEY_W);
    assert_eq!(k.pressed_keys(), vec![KEY_W]);
    k.simulate_key_release(KEY_W);
    assert!(k.is_key_up(KEY_W));
    assert!(k.is_key_just_released(KEY_W));
    assert!(k.is_key_just_pressed(KEY_W));
    k.update();
    assert!(!k.is_key_just_pressed(KEY_W));
    assert!(!k.is_key_just_released(KEY_W));
    assert!(!k.any_key_down());
    assert!(!k.any_key_just_pressed());
}

#[test]
fn update_remembers_previous_keys() {
    let mut k = KeyboardState::new();
    k.handle_key_event(SPACE, true);
    k.update();
    assert!(k.was_key_down(SPACE));
    assert!(k.is_key_down(SPACE));
    assert!(k.just_pressed_keys().is_empty());
    k.handle_key_event(SPACE, false);
    assert_eq!(k.just_released_keys(), vec![SPACE]);
    k.reset();
    assert!(!k.was_key_down(SPACE));
}

#[test]
fn key_groups() {
    let mut k = KeyboardState::new();
    k.simulate_key_press(KEY_A);
    k.simulate_key_press(KEY_C);
    assert!(k.are_keys_down(&[KEY_A, KEY_C]));
    assert!(!k.are_keys_down(&[KEY_A, KEY_W]));
    assert!(k.are_keys_down(&[]));
    assert!(k.any_keys_down(&[KEY_W, KEY_C]));
    assert!(!k.any_keys_down(&[]));
}

#[test]
fn combinations() {
    let mut k = KeyboardState::new();
    k.simulate_key_press(CONTROL_LEFT);
    k.simulate_key_press(KEY_C);
    let copy = CommonKeyCombinations::copy();
    assert_eq!(copy.keys, vec![CONTROL_LEFT, KEY_C]);
    assert!(copy.is_triggered(&k));
    assert!(copy.is_just_triggered(&k));
    assert!(KeyCombination::exact(vec![KEY_C, CONTROL_LEFT]).is_triggered(&k));
    k.simulate_key_press(KEY_A);
    assert!(!KeyCombination::exact(vec![KEY_C, CONTROL_LEFT]).is_triggered(&k));
    assert!(KeyCombination::new(vec![KEY_C, CONTROL_LEFT]).is_triggered(&k));
    k.update();
    assert!(!copy.is_just_triggered(&k));
    assert!(!KeyCombination::new(vec![]).is_just_triggered(&k));
    assert_eq!(KeyCombination::single(KEY_W).keys, vec![KEY_W]);
    assert_eq!(CommonKeyCombinations::alt_f4().keys, vec![ALT_LEFT, F4]);
    assert_eq!(CommonKeyCombinations::redo().len(), 2);
    assert_eq!(CommonKeyCombinations::function_keys().len(), 12);
    assert_eq!(CommonKeyCombinations::number_keys().len(), 10);
    let letters = CommonKeyCombinations::letter_keys();
    assert_eq!(letters.len(), 26);
    assert_eq!(letters[0], KEY_A);
    assert_eq!(letters[25], KEY_Z);
    assert_eq!(CommonKeyCombinations::wasd_keys()[0], KEY_W);
    assert_eq!(CommonKeyCombinations::arrow_keys().len(), 4);
}

#[test]
fn mouse_phases() {
    assert_eq!(MouseButtonState::Released.after_press(), MouseButtonState::JustPressed);
    assert_eq!(MouseButtonState::JustPressed.after_press(), MouseButtonState::Pressed);
    assert_eq!(MouseButtonState::Pressed.after_release(), MouseButtonState::JustReleased);
    assert_eq!(MouseButtonState::Released.after_release(), MouseButtonState::Released);
    assert_eq!(MouseButtonState::JustPressed.settled(), MouseButtonState::Pressed);
    assert_eq!(MouseButtonState::JustReleased.settled(), MouseButtonState::Released);
}

#[test]
fn mouse_press_release_cycle() {
    let mut m = MouseButtons::new();
    assert_eq!(m.state(MOUSE_LEFT), MouseButtonState::Released);
    m.handle_button_input(MOUSE_LEFT, true);
    assert!(m.is_button_just_pressed(MOUSE_LEFT));
    assert!(m.is_button_pressed(MOUSE_LEFT));
    assert!(m.any_button_pressed());
    assert!(m.any_button_just_pressed());
    assert_eq!(m.pressed_buttons(), vec![MOUSE_LEFT]);
    m.update();
    assert_eq!(m.state(MOUSE_LEFT), MouseButtonState::Pressed);
    m.handle_button_input(MOUSE_LEFT, false);
    assert!(m.is_button_just_released(MOUSE_LEFT));
    m.update();
    assert_eq!(m.state(MOUSE_LEFT), MouseButtonState::Released);
    assert!(!m.any_button_pressed());
    m.reset();
    assert!(m.pressed_buttons().is_empty());
}

#[test]
fn gamepad_button_phases() {
    assert_eq!(GamepadButtonState::Released.next(true), GamepadButtonState::JustPressed);
    assert_eq!(GamepadButtonState::JustPressed.next(true), GamepadButtonState::Pressed);
    assert_eq!(GamepadButtonState::Pressed.next(false), GamepadButtonState::JustReleased);
    assert_eq!(GamepadButtonState::JustReleased.next(false), GamepadButtonState::Released);
    assert_eq!(GamepadButtonState::JustPressed.settled(), GamepadButtonState::Pressed);
    assert_ne!(GamepadButton::South.code(), GamepadButton::East.code());
}

#[test]
fn gamepad_state_tracks_buttons() {
    let mut g = GamepadState::new(3, "pad");
    assert_eq!(g.id(), 3);
    assert_eq!(g.name(), "pad");
    assert!(g.is_connected());
    g.set_button_state(GamepadButton::South, true);
    assert!(g.is_button_just_pressed(GamepadButton::South));
    assert!(g.is_button_pressed(GamepadButton::South));
    g.update();
    assert_eq!(g.button_state(GamepadButton::South), GamepadButtonState::Pressed);
    g.set_button_state(GamepadButton::South, false);
    assert!(g.is_button_just_released(GamepadButton::South));
    g.set_connected(false);
    assert!(!g.is_connected());
    g.reset();
    assert_eq!(g.button_state(GamepadButton::South), GamepadButtonState::Released);
}

#[test]
fn gamepad_manager_ids() {
    let mut m = GamepadManager::new();
    assert!(!m.has_gamepad());
    let a = m.connect_gamepad("first");
    let b = m.connect_gamepad("second");
    assert_eq!((a, b), (0, 1));
    assert_eq!(m.connected_count(), 2);
    assert!(m.set_button_state(b, GamepadButton::North, true));
    assert!(!m.set_button_state(9, GamepadButton::North, true));
    assert!(m.get_gamepad(b).unwrap().is_button_pressed(GamepadButton::North));
    m.disconnect_gamepad(a);
    assert_eq!(m.connected_ids(), vec![1]);
    assert_eq!(m.first_gamepad(), Some(1));
    assert_eq!(m.connected_gamepads().len(), 1);
    let mut ids = m.gamepad_ids();
    ids.sort();
    assert_eq!(ids, vec![0, 1]);
    m.remove_gamepad(b);
    assert_eq!(m.connected_count(), 0);
    assert_eq!(m.first_gamepad(), None);
}

#[test]
fn mouse_axis_names() {
    assert_eq!(mouse_axis_for_name("look_x"), MouseAxisType::X);
    assert_eq!(mouse_axis_for_name("look_y"), MouseAxisType::Y);
    assert_eq!(mouse_axis_for_name("xy"), MouseAxisType::X);
    assert_eq!(mouse_axis_for_name("zoom"), MouseAxisType::X);
}

#[test]
fn actions_fire_by_any_or_all_bindings() {
    let mut k = KeyboardState::new();
    let mut m = MouseButtons::new();
    k.simulate_key_press(KEY_W);
    m.handle_button_input(MOUSE_RIGHT, true);
    let any = ActionConfig::new().add_binding(InputBinding::Key(KEY_A)).add_binding(InputBinding::Key(KEY_W));
    assert!(evaluate_action(&any, ActionQuery::Triggered, &k, &m, None));
    let all = any.clone().require_all(true);
    assert!(!evaluate_action(&all, ActionQuery::Triggered, &k, &m, None));
    let none = ActionConfig::new().require_all(true);
    assert!(evaluate_action(&none, ActionQuery::Triggered, &k, &m, None));
    assert!(!evaluate_action(&ActionConfig::new(), ActionQuery::Triggered, &k, &m, None));
    let mouse = ActionConfig::new().add_binding(InputBinding::Mouse(MOUSE_RIGHT));
    assert!(evaluate_action(&mouse, ActionQuery::JustPressed, &k, &m, None));
    let axis = ActionConfig::new().add_binding(InputBinding::KeyAxis { negative_key: KEY_A, positive_key: KEY_W });
    assert!(!evaluate_action(&axis, ActionQuery::Triggered, &k, &m, None));
    let pad_action = ActionConfig::new().add_binding(InputBinding::GamepadButton(GamepadButton::South));
    let mut pad = GamepadState::new(0, "p");
    pad.set_button_state(GamepadButton::South, true);
    assert!(evaluate_action(&pad_action, ActionQuery::Triggered, &k, &m, Some(&pad)));
    assert!(!evaluate_action(&pad_action, ActionQuery::Triggered, &k, &m, None));
}

#[test]
fn input_map_bindings() {
    let mut map = InputMap::new();
    map.bind_key_action("jump", SPACE);
    map.bind_mouse_action("fire", MOUSE_LEFT);
    map.bind_gamepad_action("jump_pad", GamepadButton::South);
    let mut k = KeyboardState::new();
    let m = MouseButtons::new();
    assert!(!map.is_action_triggered("jump", &k, &m));
    k.simulate_key_press(SPACE);
    assert!(map.is_action_triggered("jump", &k, &m));
    assert!(map.is_action_just_pressed("jump", &k, &m));
    assert!(!map.is_action_just_released("jump", &k, &m));
    assert!(!map.is_action_triggered("unknown", &k, &m));
    let mut names = map.action_names();
    names.sort();
    assert_eq!(names, vec!["fire", "jump", "jump_pad"]);
    map.remove_action("fire");
    assert_eq!(map.action_names().len(), 2);
    map.clear();
    assert!(map.action_names().is_empty());
}

#[test]
fn default_map_drives_actions() {
    let mut im = InputManager::new();
    assert!(im.current_input_map().is_none());
    im.create_default_input_map();
    assert_eq!(im.input_map_names(), vec!["default"]);
    im.handle_keyboard_input(KEY_W, true);
    assert!(im.is_action_triggered("move_forward"));
    assert!(im.is_action_just_pressed("move_forward"));
    assert!(!im.is_action_triggered("jump"));
    im.handle_mouse_input(MOUSE_LEFT, true);
    assert!(im.is_action_triggered("primary_action"));
    im.update();
    assert!(!im.is_action_triggered("move_forward"));
    assert!(im.is_action_triggered("primary_action"));
    assert!(im.keyboard().is_key_down(KEY_W));
    assert!(im.mouse().is_button_pressed(MOUSE_LEFT));
    im.remove_input_map("default");
    assert!(im.current_input_map().is_none());
    assert!(!im.is_action_triggered("primary_action"));
    im.reset();
    assert!(!im.keyboard().is_key_down(KEY_W));
}
