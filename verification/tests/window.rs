use vantage::codec::DecodedFrame;
use vantage::viewer::ViewerEvent;
use vantage::window::{
    map_button, map_cursor, map_key, map_scroll, render, Axis, Button, Direction, Display,
    DisplayAction, InputToken, Key, LogicalKey, MouseButton, NamedKey, Viewer, ViewerAction,
    WindowEvent,
};

#[test]
fn the_mouse_stays_on_the_hosts_screen() {
    let place = |x, y| match map_cursor(Some((800, 600)), (400, 300), x, y) {
        Some(InputToken::MoveMouse(x, y)) => (x, y),
        other => panic!("{other:?}"),
    };
    assert_eq!(place(10, 20), (10, 20));
    assert_eq!(place(-5, 599), (0, 599));
    assert_eq!(place(800, 600), (799, 599));
    assert_eq!(place(i32::MAX, i32::MIN), (799, 0));
}

#[test]
fn without_a_screen_or_a_window_the_mouse_does_nothing() {
    assert!(map_cursor(None, (400, 300), 1, 1).is_none());
    assert!(map_cursor(Some((800, 600)), (0, 300), 1, 1).is_none());
    assert!(map_cursor(Some((800, 600)), (400, 0), 1, 1).is_none());
}

#[test]
fn buttons_are_pressed_and_let_go() {
    let pairs = [
        (MouseButton::Left, Button::Left),
        (MouseButton::Right, Button::Right),
        (MouseButton::Middle, Button::Middle),
        (MouseButton::Back, Button::Back),
        (MouseButton::Forward, Button::Forward),
    ];
    for (button, expected) in pairs {
        match map_button(true, button) {
            Some(InputToken::Button(pressed, Direction::Press)) => assert_eq!(pressed, expected),
            other => panic!("{other:?}"),
        }
        match map_button(false, button) {
            Some(InputToken::Button(freed, Direction::Release)) => assert_eq!(freed, expected),
            other => panic!("{other:?}"),
        }
    }
    assert!(map_button(true, MouseButton::Other).is_none());
}

#[test]
fn up_and_down_come_before_left_and_right() {
    assert!(matches!(map_scroll(0, 3), Some(InputToken::Scroll(-3, Axis::Vertical))));
    assert!(matches!(map_scroll(7, -2), Some(InputToken::Scroll(2, Axis::Vertical))));
    assert!(matches!(map_scroll(7, 0), Some(InputToken::Scroll(7, Axis::Horizontal))));
    assert!(matches!(map_scroll(-7, 0), Some(InputToken::Scroll(-7, Axis::Horizontal))));
    assert!(map_scroll(0, 0).is_none());
}

#[test]
fn named_keys_have_their_counterparts() {
    let pairs = [
        (NamedKey::Enter, Key::Return),
        (NamedKey::Backspace, Key::Backspace),
        (NamedKey::Tab, Key::Tab),
        (NamedKey::Escape, Key::Escape),
        (NamedKey::Space, Key::Space),
        (NamedKey::Delete, Key::Delete),
        (NamedKey::ArrowUp, Key::UpArrow),
        (NamedKey::ArrowDown, Key::DownArrow),
        (NamedKey::ArrowLeft, Key::LeftArrow),
        (NamedKey::ArrowRight, Key::RightArrow),
        (NamedKey::Home, Key::Home),
        (NamedKey::End, Key::End),
        (NamedKey::PageUp, Key::PageUp),
        (NamedKey::PageDown, Key::PageDown),
    ];
    for (named, expected) in pairs {
        match map_key(true, LogicalKey::Named(named)) {
            Some(InputToken::Key(key, Direction::Click)) => assert_eq!(key, expected),
            other => panic!("{other:?}"),
        }
        assert!(map_key(false, LogicalKey::Named(named)).is_none());
    }
    assert!(map_key(true, LogicalKey::Named(NamedKey::Other)).is_none());
    assert!(map_key(true, LogicalKey::Other).is_none());
}

#[test]
fn other_keys_write_their_text() {
    match map_key(true, LogicalKey::Character("é".to_string())) {
        Some(InputToken::Text(text)) => assert_eq!(text, "é"),
        other => panic!("{other:?}"),
    }
    assert!(map_key(false, LogicalKey::Character("a".to_string())).is_none());
}

#[test]
fn the_display_comes_whole_and_the_connection_is_started_once() {
    let mut display: Display<u8, u16, u32> = Display::new();
    assert!(display.is_wanted());
    match display.resumed(Err("no surface")) {
        DisplayAction::Exit(reason) => assert_eq!(reason, "no surface"),
        other => panic!("{other:?}"),
    }
    assert!(display.is_wanted() && !display.net_started);
    assert_eq!((display.window, display.context, display.surface), (None, None, None));
    let action = display.resumed(Ok::<_, &str>((1, 2, 3)));
    assert!(matches!(action, DisplayAction::StartNetwork));
    assert!(!display.is_wanted() && display.net_started);
    assert!(matches!(display.resumed(Ok::<_, &str>((4, 5, 6))), DisplayAction::Nothing));
    assert!(matches!(display.resumed(Err("late")), DisplayAction::Nothing));
    assert_eq!((display.window, display.context, display.surface), (Some(1), Some(2), Some(3)));
}

#[test]
fn the_wheel_does_nothing_before_the_host_is_known() {
    let event = WindowEvent::MouseWheel { horizontal: 0, vertical: i32::MIN };
    assert!(matches!(Viewer::new().window_event(event), ViewerAction::Nothing));
}

#[test]
fn news_change_what_is_shown() {
    let mut viewer = Viewer::new();
    let action = viewer.user_event(ViewerEvent::Connected { width: 9, height: 8 });
    assert!(matches!(action, ViewerAction::Fit { width: 9, height: 8 }));
    assert_eq!(viewer.host_size, Some((9, 8)));
    let frame = DecodedFrame { width: 1, height: 1, rgb: vec![1, 2, 3] };
    assert!(matches!(viewer.user_event(ViewerEvent::Frame(frame)), ViewerAction::Redraw));
    assert_eq!(viewer.frame.as_ref().unwrap().rgb, vec![1, 2, 3]);
    match viewer.user_event(ViewerEvent::Disconnected("gone".to_string())) {
        ViewerAction::Exit(Some(reason)) => assert_eq!(reason, "gone"),
        other => panic!("{other:?}"),
    }
    assert_eq!(viewer.host_size, Some((9, 8)));
}

fn inputs() -> Vec<WindowEvent> {
    vec![
        WindowEvent::CursorMoved { window: (10, 10), x: 3, y: 4 },
        WindowEvent::MouseInput { pressed: true, button: MouseButton::Left },
        WindowEvent::MouseWheel { horizontal: 0, vertical: 1 },
        WindowEvent::KeyboardInput { pressed: true, key: LogicalKey::Named(NamedKey::Enter) },
    ]
}

#[test]
fn nothing_is_sent_before_the_host_is_known() {
    let mut viewer = Viewer::new();
    for event in inputs() {
        assert!(matches!(viewer.window_event(event), ViewerAction::Nothing));
    }
    viewer.user_event(ViewerEvent::Connected { width: 100, height: 100 });
    for event in inputs() {
        assert!(matches!(viewer.window_event(event), ViewerAction::Send(_)));
    }
}

#[test]
fn the_window_is_drawn_and_closed() {
    let viewer = Viewer::new();
    let reaction = |event| viewer.window_event(event);
    assert!(matches!(reaction(WindowEvent::CloseRequested), ViewerAction::Exit(None)));
    assert!(matches!(reaction(WindowEvent::Resized), ViewerAction::Redraw));
    assert!(matches!(reaction(WindowEvent::RedrawRequested), ViewerAction::Render));
    assert!(matches!(reaction(WindowEvent::Other), ViewerAction::Nothing));
}

fn two_by_two() -> DecodedFrame {
    DecodedFrame { width: 2, height: 2, rgb: vec![1, 2, 3, 4, 5, 6, 7, 8, 9, 10, 11, 12] }
}

#[test]
fn a_picture_in_its_own_size_is_shown_pixel_by_pixel() {
    let mut buffer = [0; 5];
    render(&two_by_two(), 2, 2, &mut buffer);
    assert_eq!(buffer, [0x010203, 0x040506, 0x070809, 0x0A0B0C, 0]);
}

#[test]
fn a_picture_is_stretched_and_shrunk() {
    let (a, b, c, d) = (0x010203, 0x040506, 0x070809, 0x0A0B0C);
    let mut wide = [0; 12];
    render(&two_by_two(), 4, 3, &mut wide);
    assert_eq!(wide, [a, a, b, b, a, a, b, b, c, c, d, d]);
    let mut small = [0; 1];
    render(&two_by_two(), 1, 1, &mut small);
    assert_eq!(small, [a]);
    let mut odd = [0; 3];
    render(&two_by_two(), 3, 1, &mut odd);
    assert_eq!(odd, [a, a, b]);
}

#[test]
fn a_window_without_area_is_left_alone() {
    let mut buffer = [7; 2];
    render(&two_by_two(), 0, 9, &mut buffer);
    render(&two_by_two(), 9, 0, &mut buffer);
    assert_eq!(buffer, [7, 7]);
}
