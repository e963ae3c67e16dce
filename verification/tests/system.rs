use rift::sys::enhanced_ui::with_enhanced_ui_disabled;
use rift::sys::event::{get_mouse_state, set_mouse_state, MouseCell, MouseState};
use rift::sys::hotkey::{CGEventFlags, Modifiers};

#[test]
fn mouse_state_is_unknown_until_set() {
    let mut cell = MouseCell::new();
    assert_eq!(get_mouse_state(&cell), None);
    set_mouse_state(&mut cell, MouseState::Down);
    assert_eq!(get_mouse_state(&cell), Some(MouseState::Down));
    set_mouse_state(&mut cell, MouseState::Up);
    assert_eq!(get_mouse_state(&cell), Some(MouseState::Up));
}

#[test]
fn mouse_state_codes() {
    assert_eq!(u8::from(MouseState::Up), 1);
    assert_eq!(u8::from(MouseState::Down), 2);
    assert_eq!(MouseState::try_from(1u8), Ok(MouseState::Up));
    assert_eq!(MouseState::try_from(2u8), Ok(MouseState::Down));
    assert_eq!(MouseState::try_from(0u8), Err(()));
    assert_eq!(MouseState::try_from(3u8), Err(()));
}

#[test]
fn enhanced_ui_is_off_while_the_work_runs() {
    let set = |mut log: Vec<String>, on: bool| {
        log.push(format!("set {on}"));
        log
    };
    let (log, result) = with_enhanced_ui_disabled(Vec::new(), set, |mut log: Vec<String>| {
        log.push(format!("work"));
        (log, 42)
    });
    assert_eq!(result, 42);
    assert_eq!(log, vec!["set false", "work", "set true"]);
}

#[test]
fn flags_contain_whole_masks() {
    let flags = CGEventFlags { bits: 0b1010 };
    assert!(flags.contains(CGEventFlags { bits: 0b1000 }));
    assert!(!flags.contains(CGEventFlags { bits: 0b1100 }));
    assert!(flags.contains(CGEventFlags::empty()));
    assert!(!Modifiers::empty().shift_left);
}
