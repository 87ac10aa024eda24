use glium_app::io::event::{ElementState, InputEvent, MouseButton, BUTTON_SLOTS};
use glium_app::io::mouse::{Mouse, MouseError};

fn moved(x: i32, y: i32) -> InputEvent {
    InputEvent::CursorMoved { x, y }
}

fn button(state: ElementState, button: MouseButton) -> InputEvent {
    InputEvent::MouseInput { state, button }
}

fn nothing_pressed_or_changed(mouse: &Mouse) -> bool {
    (0..BUTTON_SLOTS).all(|slot| {
        !mouse.is_pressed(slot)
            && !mouse.pressed_this_frame(slot)
            && !mouse.released_this_frame(slot)
    })
}

#[test]
fn fresh_mouse_is_at_rest() {
    let mouse = Mouse::new();
    assert_eq!(mouse.get_pos(), (0, 0));
    assert_eq!(mouse.get_delta(), (0, 0));
    assert!(nothing_pressed_or_changed(&mouse));
}

#[test]
fn move_sets_position_and_delta_until_next_frame() {
    let mut mouse = Mouse::new();
    mouse.handle_event(&moved(5, -3));
    assert_eq!(mouse.get_delta(), (5, -3));
    assert_eq!(mouse.get_pos(), (5, -3));

    mouse.next_frame();
    assert_eq!(mouse.get_delta(), (0, 0));
    assert_eq!(mouse.get_pos(), (5, -3));
}

#[test]
fn moves_of_one_frame_add_up() {
    let mut mouse = Mouse::new();
    mouse.handle_event(&moved(10, 10));
    mouse.next_frame();
    mouse.handle_event(&moved(13, 6));
    mouse.handle_event(&moved(20, 6));
    mouse.handle_event(&moved(18, 0));
    assert_eq!(mouse.get_pos(), (18, 0));
    assert_eq!(mouse.get_delta(), (8, -10));
}

#[test]
fn move_to_the_same_place_adds_nothing() {
    let mut mouse = Mouse::new();
    mouse.handle_event(&moved(7, 7));
    mouse.handle_event(&moved(7, 7));
    assert_eq!(mouse.get_delta(), (7, 7));
    assert_eq!(mouse.get_pos(), (7, 7));
}

#[test]
fn delta_wraps_at_the_ends_of_i32() {
    let mut mouse = Mouse::new();
    mouse.handle_event(&moved(i32::MAX, i32::MIN));
    assert_eq!(mouse.get_delta(), (i32::MAX, i32::MIN));
    // From MAX to MIN is -(2^32 - 1), which is 1 on 32 bits; MAX + 1 wraps
    // to MIN. The other way round: +(2^32 - 1) is -1, and MIN - 1 is MAX.
    mouse.handle_event(&moved(i32::MIN, i32::MAX));
    assert_eq!(mouse.get_pos(), (i32::MIN, i32::MAX));
    assert_eq!(mouse.get_delta(), (i32::MIN, i32::MAX));
}

#[test]
fn delta_is_displacement_since_frame_start_even_after_wrap() {
    let mut mouse = Mouse::new();
    mouse.handle_event(&moved(100, -100));
    mouse.next_frame();
    mouse.handle_event(&moved(i32::MAX, i32::MIN));
    mouse.handle_event(&moved(i32::MIN, i32::MAX));
    mouse.handle_event(&moved(90, -70));
    assert_eq!(mouse.get_delta(), (-10, 30));
}

#[test]
fn buttons_map_to_their_slots() {
    let mut mouse = Mouse::new();
    mouse.handle_event(&button(ElementState::Pressed, MouseButton::Left));
    assert!(mouse.is_pressed(0));
    assert!(!mouse.is_pressed(1));
    assert!(!mouse.is_pressed(2));
    mouse.handle_event(&button(ElementState::Pressed, MouseButton::Middle));
    assert!(mouse.is_pressed(1));
    assert!(!mouse.is_pressed(2));
    mouse.handle_event(&button(ElementState::Pressed, MouseButton::Right));
    assert!(mouse.is_pressed(2));
    mouse.handle_event(&button(ElementState::Pressed, MouseButton::Other(5)));
    assert!(mouse.is_pressed(5));
    mouse.handle_event(&button(ElementState::Pressed, MouseButton::Other(9)));
    assert!(mouse.is_pressed(9));
    for slot in [3usize, 4, 6, 7, 8] {
        assert!(!mouse.is_pressed(slot));
        assert!(!mouse.pressed_this_frame(slot));
    }
}

#[test]
fn slot_of_each_button() {
    assert_eq!(MouseButton::Left.slot(), Some(0));
    assert_eq!(MouseButton::Middle.slot(), Some(1));
    assert_eq!(MouseButton::Right.slot(), Some(2));
    assert_eq!(MouseButton::Other(0).slot(), Some(0));
    assert_eq!(MouseButton::Other(9).slot(), Some(9));
    assert_eq!(MouseButton::Other(10).slot(), None);
    assert_eq!(MouseButton::Other(11).slot(), None);
    assert_eq!(MouseButton::Other(u16::MAX).slot(), None);
    assert_eq!(BUTTON_SLOTS, 10);
}

#[test]
fn other_button_shares_the_slot_of_its_number() {
    let mut mouse = Mouse::new();
    mouse.handle_event(&button(ElementState::Pressed, MouseButton::Other(2)));
    assert!(mouse.is_pressed(2));
    mouse.handle_event(&button(ElementState::Released, MouseButton::Right));
    assert!(!mouse.is_pressed(2));
    assert!(mouse.released_this_frame(2));
}

#[test]
fn button_out_of_range_is_a_no_op() {
    let mut mouse = Mouse::new();
    mouse.handle_event(&moved(4, 5));
    mouse.handle_event(&button(ElementState::Pressed, MouseButton::Left));
    mouse.next_frame();
    mouse.handle_event(&moved(6, 6));

    mouse.handle_event(&button(ElementState::Pressed, MouseButton::Other(11)));
    mouse.handle_event(&button(ElementState::Released, MouseButton::Other(11)));
    mouse.handle_event(&button(ElementState::Pressed, MouseButton::Other(10)));
    mouse.handle_event(&button(ElementState::Pressed, MouseButton::Other(u16::MAX)));

    assert_eq!(mouse.get_pos(), (6, 6));
    assert_eq!(mouse.get_delta(), (2, 1));
    assert!(mouse.is_pressed(0));
    assert!(!mouse.pressed_this_frame(0));
    for slot in 1..BUTTON_SLOTS {
        assert!(!mouse.is_pressed(slot));
        assert!(!mouse.pressed_this_frame(slot));
        assert!(!mouse.released_this_frame(slot));
    }
}

#[test]
fn query_of_a_slot_that_does_not_exist() {
    let mut mouse = Mouse::new();
    mouse.handle_event(&button(ElementState::Pressed, MouseButton::Other(9)));
    for slot in [10usize, 11, 1000, usize::MAX] {
        assert!(!mouse.is_pressed(slot));
        assert!(!mouse.pressed_this_frame(slot));
        assert!(!mouse.released_this_frame(slot));
    }
}

#[test]
fn button_press_is_seen_in_its_frame_and_held_after() {
    let mut mouse = Mouse::new();
    mouse.handle_event(&button(ElementState::Pressed, MouseButton::Right));
    assert!(mouse.is_pressed(2));
    assert!(mouse.pressed_this_frame(2));
    assert!(!mouse.released_this_frame(2));

    mouse.next_frame();
    assert!(mouse.is_pressed(2));
    assert!(!mouse.pressed_this_frame(2));
    assert!(!mouse.released_this_frame(2));

    mouse.handle_event(&button(ElementState::Released, MouseButton::Right));
    assert!(!mouse.is_pressed(2));
    assert!(!mouse.pressed_this_frame(2));
    assert!(mouse.released_this_frame(2));

    mouse.next_frame();
    assert!(nothing_pressed_or_changed(&mouse));
}

#[test]
fn button_press_then_release_in_one_frame() {
    let mut mouse = Mouse::new();
    mouse.handle_event(&button(ElementState::Pressed, MouseButton::Left));
    mouse.handle_event(&button(ElementState::Released, MouseButton::Left));
    assert!(!mouse.is_pressed(0));
    assert!(mouse.released_this_frame(0));
    assert!(!mouse.pressed_this_frame(0));
}

#[test]
fn buttons_do_not_move_the_pointer() {
    let mut mouse = Mouse::new();
    mouse.handle_event(&moved(3, 4));
    mouse.handle_event(&button(ElementState::Pressed, MouseButton::Middle));
    assert_eq!(mouse.get_pos(), (3, 4));
    assert_eq!(mouse.get_delta(), (3, 4));
}

#[test]
fn mouse_ignores_what_is_not_a_mouse_event() {
    let mut mouse = Mouse::new();
    mouse.handle_event(&moved(1, 2));
    mouse.handle_event(&InputEvent::KeyboardInput {
        state: ElementState::Pressed,
        virtual_keycode: Some(0),
    });
    mouse.handle_event(&InputEvent::Other);
    assert_eq!(mouse.get_pos(), (1, 2));
    assert_eq!(mouse.get_delta(), (1, 2));
    assert!(nothing_pressed_or_changed(&mouse));
}

#[test]
fn set_pos_is_refused_and_changes_nothing() {
    let mut mouse = Mouse::new();
    mouse.handle_event(&moved(8, 9));
    mouse.handle_event(&button(ElementState::Pressed, MouseButton::Left));
    assert_eq!(mouse.set_pos((100, 200)), Err(MouseError::SetPositionUnsupported));
    assert_eq!(mouse.get_pos(), (8, 9));
    assert_eq!(mouse.get_delta(), (8, 9));
    assert!(mouse.pressed_this_frame(0));
    assert_eq!(mouse.set_pos((8, 9)), Err(MouseError::SetPositionUnsupported));
}
