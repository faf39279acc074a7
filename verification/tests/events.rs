use preval::state::types::UiAction;
use preval::ui::events::{handle_key_event, handle_resize, KeyPress, CONTROL, NO_MODIFIERS};
use preval::ui::layout::{content_height, LayoutError, FOOTER_HEIGHT, HEADER_HEIGHT, MIN_HEIGHT};

#[test]
fn test_quit_on_q_key() {
    let key_event = KeyPress { character: Some('q'), modifiers: NO_MODIFIERS };

    let action = handle_key_event(key_event);
    assert_eq!(action, Some(UiAction::Quit));
}

#[test]
fn test_quit_on_ctrl_c() {
    let key_event = KeyPress { character: Some('c'), modifiers: CONTROL };

    let action = handle_key_event(key_event);
    assert_eq!(action, Some(UiAction::Quit));
}

#[test]
fn test_toggle_pause_on_space() {
    let key_event = KeyPress { character: Some(' '), modifiers: NO_MODIFIERS };

    let action = handle_key_event(key_event);
    assert_eq!(action, Some(UiAction::TogglePause));
}

#[test]
fn other_keys_ask_for_nothing() {
    assert_eq!(
        handle_key_event(KeyPress { character: Some('l'), modifiers: CONTROL }),
        Some(UiAction::Refresh)
    );
    assert_eq!(handle_key_event(KeyPress { character: Some('q'), modifiers: CONTROL }), None);
    assert_eq!(handle_key_event(KeyPress { character: Some('q'), modifiers: 1 }), None);
    assert_eq!(handle_key_event(KeyPress { character: Some('c'), modifiers: NO_MODIFIERS }), None);
    assert_eq!(handle_key_event(KeyPress { character: Some('c'), modifiers: 3 }), None);
    assert_eq!(handle_key_event(KeyPress { character: Some(' '), modifiers: CONTROL }), None);
    assert_eq!(handle_key_event(KeyPress { character: Some('l'), modifiers: NO_MODIFIERS }), None);
    assert_eq!(handle_key_event(KeyPress { character: Some('Q'), modifiers: NO_MODIFIERS }), None);
    assert_eq!(handle_key_event(KeyPress { character: None, modifiers: NO_MODIFIERS }), None);
}

#[test]
fn a_new_size_is_taken_unless_it_is_empty() {
    match handle_resize(100, 30) {
        Some(UiAction::Resize(size)) => assert_eq!((size.width(), size.height()), (100, 30)),
        other => panic!("unexpected {:?}", other),
    }
    assert_eq!(handle_resize(0, 30), None);
    assert_eq!(handle_resize(100, 0), None);
}

#[test]
fn test_layout_minimum_size() {
    let content = content_height(5).unwrap();

    assert_eq!(HEADER_HEIGHT, 3);
    assert_eq!(content, 1);
    assert_eq!(FOOTER_HEIGHT, 1);
}

#[test]
fn test_layout_too_small() {
    let result = content_height(4);

    assert!(result.is_err());
}

#[test]
fn the_content_gets_the_rows_that_are_left() {
    assert_eq!(content_height(24), Ok(20));
    assert_eq!(content_height(u16::MAX), Ok(u16::MAX - 4));
    let error = content_height(4).unwrap_err();
    assert_eq!(error, LayoutError::TooSmall { required: MIN_HEIGHT, actual: 4 });
    assert_eq!(error.message(), "terminal too small: need at least 5 rows, got 4");
    assert!(content_height(0).is_err());
}
