use tiler::gnome::event::Event;

#[test]
fn should_construct_window_opened_event() {
    let event = Event::WindowOpened {
        window_id: 42,
        title: "Terminal".into(),
        app_class: "gnome-terminal".into(),
        monitor_id: 0,
    };
    assert_eq!(event, Event::WindowOpened {
        window_id: 42,
        title: "Terminal".into(),
        app_class: "gnome-terminal".into(),
        monitor_id: 0,
    });
}

#[test]
fn should_construct_window_closed_event() {
    let event = Event::WindowClosed { window_id: 42 };
    assert_eq!(event, Event::WindowClosed { window_id: 42 });
}

#[test]
fn should_construct_window_focus_changed_event() {
    let event = Event::WindowFocusChanged { window_id: 42 };
    assert_eq!(event, Event::WindowFocusChanged { window_id: 42 });
}

#[test]
fn should_construct_workspace_changed_event() {
    let event = Event::WorkspaceChanged { workspace_id: 1 };
    assert_eq!(event, Event::WorkspaceChanged { workspace_id: 1 });
}

#[test]
fn should_construct_fullscreen_changed_event() {
    let event = Event::WindowFullscreenChanged { window_id: 42, is_fullscreen: true };
    assert_eq!(event, Event::WindowFullscreenChanged { window_id: 42, is_fullscreen: true });
}

#[test]
fn should_construct_geometry_changed_event() {
    let event = Event::WindowGeometryChanged { window_id: 42, x: 0, y: 0, width: 800, height: 600 };
    assert_eq!(event, Event::WindowGeometryChanged { window_id: 42, x: 0, y: 0, width: 800, height: 600 });
}

#[test]
fn should_construct_menu_key_pressed_event() {
    let event = Event::MenuKeyPressed { key: "1".into(), modifiers: "Super".into() };
    assert_eq!(event, Event::MenuKeyPressed { key: "1".into(), modifiers: "Super".into() });
}
