use input_dispatch::plan::{click, press_key_combination};
use input_dispatch::{Direction, InputEvent, Key, KeyboardCombination, MouseButton, RequestError};

fn by_code(hold_ctrl: bool, hold_shift: bool, hold_alt: bool, key_code: u32) -> KeyboardCombination {
    KeyboardCombination {
        hold_ctrl,
        hold_shift,
        hold_alt,
        key_code,
        key_name: None,
        use_unicode: false,
    }
}

fn by_name(hold_ctrl: bool, hold_shift: bool, hold_alt: bool, name: char) -> KeyboardCombination {
    KeyboardCombination {
        hold_ctrl,
        hold_shift,
        hold_alt,
        key_code: 0,
        key_name: Some(name),
        use_unicode: true,
    }
}

fn count(events: &[InputEvent], wanted: &InputEvent) -> usize {
    events.iter().filter(|event| *event == wanted).count()
}

fn count_direction(events: &[InputEvent], wanted: Direction) -> usize {
    events
        .iter()
        .filter(|event| matches!(event, InputEvent::Key(_, direction) if *direction == wanted))
        .count()
}

#[test]
fn ctrl_with_key_code_65_is_ctrl_a() {
    let events = press_key_combination(&by_code(true, false, false, 65)).unwrap();
    assert_eq!(
        events,
        vec![
            InputEvent::Key(Key::Control, Direction::Press),
            InputEvent::Key(Key::Other(65), Direction::Click),
            InputEvent::Key(Key::Control, Direction::Release),
        ]
    );
}

#[test]
fn no_modifier_gives_the_click_alone() {
    let events = press_key_combination(&by_code(false, false, false, 13)).unwrap();
    assert_eq!(events, vec![InputEvent::Key(Key::Other(13), Direction::Click)]);
}

#[test]
fn all_modifiers_are_released_in_reverse_order() {
    let events = press_key_combination(&by_name(true, true, true, 'k')).unwrap();
    assert_eq!(
        events,
        vec![
            InputEvent::Key(Key::Control, Direction::Press),
            InputEvent::Key(Key::Shift, Direction::Press),
            InputEvent::Key(Key::Alt, Direction::Press),
            InputEvent::Key(Key::Unicode('k'), Direction::Click),
            InputEvent::Key(Key::Alt, Direction::Release),
            InputEvent::Key(Key::Shift, Direction::Release),
            InputEvent::Key(Key::Control, Direction::Release),
        ]
    );
}

#[test]
fn shift_and_alt_keep_their_order() {
    let events = press_key_combination(&by_code(false, true, true, 9)).unwrap();
    assert_eq!(
        events,
        vec![
            InputEvent::Key(Key::Shift, Direction::Press),
            InputEvent::Key(Key::Alt, Direction::Press),
            InputEvent::Key(Key::Other(9), Direction::Click),
            InputEvent::Key(Key::Alt, Direction::Release),
            InputEvent::Key(Key::Shift, Direction::Release),
        ]
    );
}

#[test]
fn every_subset_of_modifiers_is_pressed_and_released_once() {
    let modifiers = [Key::Control, Key::Shift, Key::Alt];
    for bits in 0u8..8 {
        let held = [bits & 1 != 0, bits & 2 != 0, bits & 4 != 0];
        let held_count = held.iter().filter(|flag| **flag).count();
        for combination in [
            by_code(held[0], held[1], held[2], 65),
            by_name(held[0], held[1], held[2], 'a'),
        ] {
            let target = combination.selector().unwrap();
            let events = press_key_combination(&combination).unwrap();
            assert_eq!(events.len(), 2 * held_count + 1);
            assert_eq!(count_direction(&events, Direction::Press), held_count);
            assert_eq!(count_direction(&events, Direction::Click), 1);
            assert_eq!(count_direction(&events, Direction::Release), held_count);
            assert_eq!(count(&events, &InputEvent::Key(target, Direction::Click)), 1);
            assert_eq!(events[held_count], InputEvent::Key(target, Direction::Click));
            for (modifier, is_held) in modifiers.iter().zip(held) {
                let expected = if is_held { 1 } else { 0 };
                assert_eq!(count(&events, &InputEvent::Key(*modifier, Direction::Press)), expected);
                assert_eq!(
                    count(&events, &InputEvent::Key(*modifier, Direction::Release)),
                    expected
                );
            }
            for i in 0..held_count {
                match (&events[i], &events[2 * held_count - i]) {
                    (
                        InputEvent::Key(pressed, Direction::Press),
                        InputEvent::Key(released, Direction::Release),
                    ) => assert_eq!(pressed, released),
                    other => panic!("not a press and its release: {:?}", other),
                }
            }
        }
    }
}

#[test]
fn unicode_request_never_uses_the_key_code() {
    let combination = KeyboardCombination {
        hold_ctrl: false,
        hold_shift: true,
        hold_alt: false,
        key_code: 65,
        key_name: Some('é'),
        use_unicode: true,
    };
    let events = press_key_combination(&combination).unwrap();
    assert_eq!(
        events,
        vec![
            InputEvent::Key(Key::Shift, Direction::Press),
            InputEvent::Key(Key::Unicode('é'), Direction::Click),
            InputEvent::Key(Key::Shift, Direction::Release),
        ]
    );
    assert!(!events.iter().any(|event| matches!(event, InputEvent::Key(Key::Other(_), _))));
}

#[test]
fn key_code_request_never_uses_the_character() {
    let combination = KeyboardCombination {
        hold_ctrl: false,
        hold_shift: false,
        hold_alt: true,
        key_code: 0xffbe,
        key_name: Some('x'),
        use_unicode: false,
    };
    let events = press_key_combination(&combination).unwrap();
    assert_eq!(
        events,
        vec![
            InputEvent::Key(Key::Alt, Direction::Press),
            InputEvent::Key(Key::Other(0xffbe), Direction::Click),
            InputEvent::Key(Key::Alt, Direction::Release),
        ]
    );
    assert!(!events.iter().any(|event| matches!(event, InputEvent::Key(Key::Unicode(_), _))));
}

#[test]
fn unicode_request_without_a_character_is_refused() {
    let combination = KeyboardCombination {
        hold_ctrl: true,
        hold_shift: true,
        hold_alt: true,
        key_code: 65,
        key_name: None,
        use_unicode: true,
    };
    assert_eq!(combination.selector(), Err(RequestError::MissingKeyName));
    assert_eq!(press_key_combination(&combination), Err(RequestError::MissingKeyName));
}

#[test]
fn selector_follows_use_unicode() {
    assert_eq!(by_code(false, false, false, 0).selector(), Ok(Key::Other(0)));
    assert_eq!(by_code(true, false, true, u32::MAX).selector(), Ok(Key::Other(u32::MAX)));
    assert_eq!(by_name(false, true, false, 'A').selector(), Ok(Key::Unicode('A')));
    let both = KeyboardCombination {
        hold_ctrl: false,
        hold_shift: false,
        hold_alt: false,
        key_code: 7,
        key_name: Some('z'),
        use_unicode: false,
    };
    assert_eq!(both.selector(), Ok(Key::Other(7)));
}

#[test]
fn click_left_moves_the_left_button_once_and_no_other() {
    let events = click(MouseButton::Left);
    assert_eq!(events, vec![InputEvent::Button(MouseButton::Left, Direction::Click)]);
    for direction in [Direction::Press, Direction::Release, Direction::Click] {
        assert_eq!(count(&events, &InputEvent::Button(MouseButton::Middle, direction)), 0);
        assert_eq!(count(&events, &InputEvent::Button(MouseButton::Right, direction)), 0);
    }
}

#[test]
fn click_names_the_button_that_was_asked_for() {
    assert_eq!(
        click(MouseButton::Middle),
        vec![InputEvent::Button(MouseButton::Middle, Direction::Click)]
    );
    assert_eq!(
        click(MouseButton::Right),
        vec![InputEvent::Button(MouseButton::Right, Direction::Click)]
    );
}

#[test]
fn write_of_nothing_hands_over_the_empty_text() {
    let events = input_dispatch::plan::write(String::new());
    assert_eq!(events, vec![InputEvent::Text(String::new())]);
    assert!(!events.iter().any(|event| matches!(event, InputEvent::Key(_, _))));
    assert!(!events.iter().any(|event| matches!(event, InputEvent::Button(_, _))));
}

#[test]
fn write_hands_the_text_over_whole() {
    assert_eq!(
        input_dispatch::plan::write(String::from("héllo\tworld\n")),
        vec![InputEvent::Text(String::from("héllo\tworld\n"))]
    );
    assert_eq!(
        input_dispatch::plan::write(String::from(" ")),
        vec![InputEvent::Text(String::from(" "))]
    );
}

#[test]
fn a_copy_of_an_event_equals_it() {
    for event in [
        InputEvent::Key(Key::Unicode('q'), Direction::Click),
        InputEvent::Button(MouseButton::Right, Direction::Press),
        InputEvent::Text(String::from("abc")),
    ] {
        assert_eq!(event.clone(), event);
    }
}
