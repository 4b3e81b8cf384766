use kodo::mvu::{Action, KeyCode, KeyEvent};

#[test]
fn maps_navigation_and_mode_keys() {
    assert_eq!(Action::from_key(KeyEvent::new(KeyCode::Char('q'), false)), Action::Quit);
    assert_eq!(Action::from_key(KeyEvent::new(KeyCode::Esc, false)), Action::Quit);
    assert_eq!(Action::from_key(KeyEvent::new(KeyCode::Tab, false)), Action::NextChart);
    assert_eq!(Action::from_key(KeyEvent::new(KeyCode::Right, false)), Action::NextChart);
    assert_eq!(Action::from_key(KeyEvent::new(KeyCode::Char('l'), false)), Action::NextChart);
    assert_eq!(Action::from_key(KeyEvent::new(KeyCode::BackTab, false)), Action::PrevChart);
    assert_eq!(Action::from_key(KeyEvent::new(KeyCode::Left, false)), Action::PrevChart);
    assert_eq!(Action::from_key(KeyEvent::new(KeyCode::Char('h'), false)), Action::PrevChart);
    assert_eq!(Action::from_key(KeyEvent::new(KeyCode::Up, false)), Action::ScrollUp);
    assert_eq!(Action::from_key(KeyEvent::new(KeyCode::Char('k'), false)), Action::ScrollUp);
    assert_eq!(Action::from_key(KeyEvent::new(KeyCode::Down, false)), Action::ScrollDown);
    assert_eq!(Action::from_key(KeyEvent::new(KeyCode::Char('j'), false)), Action::ScrollDown);
    assert_eq!(Action::from_key(KeyEvent::new(KeyCode::Char('m'), false)), Action::ToggleMetricView);
}

#[test]
fn maps_force_quit_and_noop() {
    assert_eq!(Action::from_key(KeyEvent::new(KeyCode::Char('c'), true)), Action::ForceQuit);
    assert_eq!(Action::from_key(KeyEvent::new(KeyCode::Enter, false)), Action::Noop);
    assert_eq!(Action::from_key(KeyEvent::new(KeyCode::Char('c'), false)), Action::Noop);
}
