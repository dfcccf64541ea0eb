use tiler::gnome::dbus_proxy::{MockGnomeProxy, MonitorInfo, WindowInfo};
use tiler::gnome::event::Event;

#[test]
fn event_enum_has_all_signal_variants() {
    // Test that all event variants can be constructed
    let events = vec![
        Event::WindowOpened { window_id: 1, title: "t".into(), app_class: "c".into(), monitor_id: 0 },
        Event::WindowClosed { window_id: 1 },
        Event::WindowFocusChanged { window_id: 1 },
        Event::WorkspaceChanged { workspace_id: 0 },
        Event::WindowFullscreenChanged { window_id: 1, is_fullscreen: true },
        Event::WindowGeometryChanged { window_id: 1, x: 0, y: 0, width: 100, height: 100 },
        Event::MenuKeyPressed { key: "n".into(), modifiers: "shift".into() },
    ];
    assert_eq!(events.len(), 7);
}

#[test]
fn event_debug_impl() {
    let event = Event::WindowOpened {
        window_id: 42,
        title: "Test".into(),
        app_class: "test".into(),
        monitor_id: 0,
    };
    let debug = format!("{:?}", event);
    assert!(debug.contains("WindowOpened"));
    assert!(debug.contains("42"));
}

#[test]
fn window_info_clone_and_eq() {
    let w = WindowInfo {
        id: 1,
        title: "T".into(),
        app_class: "C".into(),
        monitor_id: 0,
        workspace_id: 0,
    };
    assert_eq!(w, w.clone());
}

#[test]
fn monitor_info_clone_and_eq() {
    let m = MonitorInfo {
        id: 0,
        name: "DP-1".into(),
        x: 0,
        y: 0,
        width: 2560,
        height: 1440,
    };
    assert_eq!(m, m.clone());
}

// The stand-in answers queries from what it was given and records requests.

#[test]
fn mock_proxy_list_windows_returns_set_windows() {
    let mut mock = MockGnomeProxy::new();
    mock.set_windows(vec![
        WindowInfo {
            id: 1,
            title: "Terminal".into(),
            app_class: "gnome-terminal".into(),
            monitor_id: 0,
            workspace_id: 0,
        },
        WindowInfo {
            id: 2,
            title: "Firefox".into(),
            app_class: "firefox".into(),
            monitor_id: 1,
            workspace_id: 0,
        },
    ]);

    let windows = mock.list_windows_snapshot();
    assert_eq!(windows.len(), 2);
    assert_eq!(windows[0].id, 1);
    assert_eq!(windows[1].title, "Firefox");
}

#[test]
fn mock_proxy_get_monitors() {
    let mut mock = MockGnomeProxy::new();
    mock.set_monitors(vec![MonitorInfo {
        id: 0,
        name: "HDMI-1".into(),
        x: 0,
        y: 0,
        width: 1920,
        height: 1080,
    }]);

    let monitors = mock.monitors_snapshot();
    assert_eq!(monitors.len(), 1);
    assert_eq!(monitors[0].name, "HDMI-1");
    assert_eq!(monitors[0].width, 1920);
}

#[test]
fn mock_proxy_move_resize_records_call() {
    let mut mock = MockGnomeProxy::new();
    mock.record_move_resize(42, 0, 0, 800, 600);

    let calls = mock.move_resize_calls();
    assert_eq!(calls.len(), 1);
    assert_eq!(calls[0], (42, 0, 0, 800, 600));
}

#[test]
fn mock_proxy_get_active_workspace() {
    let mut mock = MockGnomeProxy::new();
    mock.set_active_workspace(3);

    let ws = mock.active_workspace();
    assert_eq!(ws, 3);
}

#[test]
fn mock_proxy_get_window_type() {
    let mut mock = MockGnomeProxy::new();
    mock.set_window_type(1, "normal".into());

    let wt = mock.window_type_of(1);
    assert_eq!(wt, "normal");
}

#[test]
fn mock_proxy_is_fullscreen() {
    let mut mock = MockGnomeProxy::new();
    mock.set_fullscreen(1, true);

    assert!(mock.fullscreen_of(1));
    assert!(!mock.fullscreen_of(999));
}

#[test]
fn mock_proxy_show_menu_records_json() {
    let mut mock = MockGnomeProxy::new();
    mock.record_show_menu(r#"[{"id":0}]"#);

    let calls = mock.show_menu_calls();
    assert_eq!(calls.len(), 1);
    assert_eq!(calls[0], r#"[{"id":0}]"#);
}

#[test]
fn mock_proxy_hide_menu_increments_count() {
    let mut mock = MockGnomeProxy::new();
    mock.record_hide_menu();
    mock.record_hide_menu();

    assert_eq!(mock.hide_menu_count(), 2);
}

#[test]
fn mock_proxy_show_menu_zoomed_records_call() {
    let mut mock = MockGnomeProxy::new();
    mock.record_show_menu_zoomed(1, "[]");

    let calls = mock.show_menu_zoomed_calls();
    assert_eq!(calls.len(), 1);
    assert_eq!(calls[0], (1, "[]".to_string()));
}

#[test]
fn mock_move_log_in_call_order_law() {
    let mut mock = MockGnomeProxy::new();
    mock.record_move_resize(1, 0, 0, 10, 10);
    mock.set_active_workspace(2);
    mock.record_raise(1);
    mock.set_window_type(3, "dialog".into());
    mock.record_move_resize(3, 5, 6, 7, 8);
    mock.record_hide_menu();
    mock.record_show_menu("[]");
    mock.set_fullscreen(3, true);
    mock.record_move_resize(1, 1, 2, 3, 4);
    assert_eq!(
        mock.move_resize_calls(),
        &[(1, 0, 0, 10, 10), (3, 5, 6, 7, 8), (1, 1, 2, 3, 4)]
    );
}
