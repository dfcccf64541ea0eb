//! Window and monitor descriptions from the extension, and a recording
//! stand-in for the extension used to exercise the engine.

use std::collections::HashMap;
use vstd::prelude::*;
use vstd::std_specs::hash::group_hash_axioms;
use vstd::string::StringExecFns;

verus! {

broadcast use group_hash_axioms;

/// A window as listed by the extension.
#[derive(Debug, PartialEq, Eq)]
pub struct WindowInfo {
    pub id: u64,
    pub title: String,
    pub app_class: String,
    pub monitor_id: u32,
    pub workspace_id: u32,
}

/// The mathematical content of a [`WindowInfo`].
pub struct WindowInfoView {
    pub id: u64,
    pub title: Seq<char>,
    pub app_class: Seq<char>,
    pub monitor_id: u32,
    pub workspace_id: u32,
}

impl View for WindowInfo {
    type V = WindowInfoView;

    open spec fn view(&self) -> WindowInfoView {
        WindowInfoView {
            id: self.id,
            title: self.title@,
            app_class: self.app_class@,
            monitor_id: self.monitor_id,
            workspace_id: self.workspace_id,
        }
    }
}

impl Clone for WindowInfo {
    fn clone(&self) -> (r: Self)
        ensures
            r@ == self@,
    {
        WindowInfo {
            id: self.id,
            title: self.title.clone(),
            app_class: self.app_class.clone(),
            monitor_id: self.monitor_id,
            workspace_id: self.workspace_id,
        }
    }
}

/// A monitor's geometry as reported by the extension.
#[derive(Debug, PartialEq, Eq)]
pub struct MonitorInfo {
    pub id: u32,
    pub name: String,
    pub x: i32,
    pub y: i32,
    pub width: i32,
    pub height: i32,
}

/// The mathematical content of a [`MonitorInfo`].
pub struct MonitorInfoView {
    pub id: u32,
    pub name: Seq<char>,
    pub x: i32,
    pub y: i32,
    pub width: i32,
    pub height: i32,
}

impl View for MonitorInfo {
    type V = MonitorInfoView;

    open spec fn view(&self) -> MonitorInfoView {
        MonitorInfoView {
            id: self.id,
            name: self.name@,
            x: self.x,
            y: self.y,
            width: self.width,
            height: self.height,
        }
    }
}

impl Clone for MonitorInfo {
    fn clone(&self) -> (r: Self)
        ensures
            r@ == self@,
    {
        MonitorInfo {
            id: self.id,
            name: self.name.clone(),
            x: self.x,
            y: self.y,
            width: self.width,
            height: self.height,
        }
    }
}

/// The views of a sequence of windows.
pub open spec fn window_views(s: Seq<WindowInfo>) -> Seq<WindowInfoView> {
    s.map_values(|w: WindowInfo| w@)
}

/// The views of a sequence of monitors.
pub open spec fn monitor_views(s: Seq<MonitorInfo>) -> Seq<MonitorInfoView> {
    s.map_values(|m: MonitorInfo| m@)
}

/// A copy of a list of windows.
pub fn clone_windows(v: &Vec<WindowInfo>) -> (r: Vec<WindowInfo>)
    ensures
        window_views(r@) == window_views(v@),
{
    let mut r: Vec<WindowInfo> = Vec::new();
    for i in 0..v.len()
        invariant
            r@.len() == i,
            forall|j: int| 0 <= j < i ==> #[trigger] r@[j]@ == v@[j]@,
    {
        r.push(v[i].clone());
    }
    assert(window_views(r@) =~= window_views(v@));
    r
}

/// A copy of a list of monitors.
pub fn clone_monitors(v: &Vec<MonitorInfo>) -> (r: Vec<MonitorInfo>)
    ensures
        monitor_views(r@) == monitor_views(v@),
{
    let mut r: Vec<MonitorInfo> = Vec::new();
    for i in 0..v.len()
        invariant
            r@.len() == i,
            forall|j: int| 0 <= j < i ==> #[trigger] r@[j]@ == v@[j]@,
    {
        r.push(v[i].clone());
    }
    assert(monitor_views(r@) =~= monitor_views(v@));
    r
}

/// A scripted stand-in for the extension: it answers queries from the data
/// it was given and records every request made to it.
pub struct MockGnomeProxy {
    windows: Vec<WindowInfo>,
    monitors: Vec<MonitorInfo>,
    active_workspace: u32,
    window_types: HashMap<u64, String>,
    fullscreen_states: HashMap<u64, bool>,
    move_resize_log: Vec<(u64, i32, i32, i32, i32)>,
    raise_log: Vec<u64>,
    show_menu_log: Vec<String>,
    show_menu_zoomed_log: Vec<(u32, String)>,
    hide_menu_count: usize,
}

/// What a [`MockGnomeProxy`] was given and what it recorded.
#[verifier::ext_equal]
pub struct MockView {
    /// The windows it lists.
    pub windows: Seq<WindowInfoView>,
    /// The monitors it reports.
    pub monitors: Seq<MonitorInfoView>,
    /// The workspace it reports as active.
    pub active_workspace: u32,
    /// The window types it was given.
    pub window_types: Map<u64, Seq<char>>,
    /// The fullscreen states it was given.
    pub fullscreen: Map<u64, bool>,
    /// Every move/resize request so far, in order.
    pub move_resize_log: Seq<(u64, i32, i32, i32, i32)>,
    /// Every raise request so far, in order.
    pub raise_log: Seq<u64>,
    /// The JSON text of every show-menu request so far, in order.
    pub show_menu_log: Seq<Seq<char>>,
    /// Every zoomed-menu request so far, in order.
    pub show_menu_zoomed_log: Seq<(u32, Seq<char>)>,
    /// How many hide-menu requests were made.
    pub hide_menu_count: nat,
}

/// A request that changes a [`MockGnomeProxy`]: setting what it reports, or
/// one of the requests it records.
pub enum MockOp {
    SetWindows(Seq<WindowInfoView>),
    SetMonitors(Seq<MonitorInfoView>),
    SetActiveWorkspace(u32),
    SetWindowType(u64, Seq<char>),
    SetFullscreen(u64, bool),
    MoveResize(u64, i32, i32, i32, i32),
    Raise(u64),
    ShowMenu(Seq<char>),
    ShowMenuZoomed(u32, Seq<char>),
    HideMenu,
}

impl MockView {
    /// The stand-in after one request.
    pub open spec fn after(self, op: MockOp) -> MockView {
        match op {
            MockOp::SetWindows(w) => MockView { windows: w, ..self },
            MockOp::SetMonitors(m) => MockView { monitors: m, ..self },
            MockOp::SetActiveWorkspace(ws) => MockView { active_workspace: ws, ..self },
            MockOp::SetWindowType(id, t) => MockView { window_types: self.window_types.insert(id, t), ..self },
            MockOp::SetFullscreen(id, fs) => MockView { fullscreen: self.fullscreen.insert(id, fs), ..self },
            MockOp::MoveResize(id, x, y, w, h) => MockView {
                move_resize_log: self.move_resize_log.push((id, x, y, w, h)),
                ..self
            },
            MockOp::Raise(id) => MockView { raise_log: self.raise_log.push(id), ..self },
            MockOp::ShowMenu(json) => MockView { show_menu_log: self.show_menu_log.push(json), ..self },
            MockOp::ShowMenuZoomed(m, json) => MockView {
                show_menu_zoomed_log: self.show_menu_zoomed_log.push((m, json)),
                ..self
            },
            MockOp::HideMenu => MockView {
                hide_menu_count: if self.hide_menu_count < usize::MAX {
                    self.hide_menu_count + 1
                } else {
                    self.hide_menu_count
                },
                ..self
            },
        }
    }

    /// The stand-in after a series of requests, in order.
    pub open spec fn after_all(self, ops: Seq<MockOp>) -> MockView
        decreases ops.len(),
    {
        if ops.len() == 0 {
            self
        } else {
            self.after_all(ops.drop_last()).after(ops.last())
        }
    }
}

/// The move/resize requests among `ops`, in order.
pub open spec fn moves_in(ops: Seq<MockOp>) -> Seq<(u64, i32, i32, i32, i32)>
    decreases ops.len(),
{
    if ops.len() == 0 {
        Seq::empty()
    } else {
        match ops.last() {
            MockOp::MoveResize(id, x, y, w, h) => moves_in(ops.drop_last()).push((id, x, y, w, h)),
            _ => moves_in(ops.drop_last()),
        }
    }
}

/// The stand-in's move/resize log lists exactly the move/resize requests
/// made to it, in the order they were made; no other request adds to it.
pub proof fn law_move_log_in_call_order(v: MockView, ops: Seq<MockOp>)
    ensures
        v.after_all(ops).move_resize_log == v.move_resize_log + moves_in(ops),
    decreases ops.len(),
{
    if ops.len() == 0 {
        assert(v.move_resize_log + moves_in(ops) =~= v.move_resize_log);
    } else {
        law_move_log_in_call_order(v, ops.drop_last());
        match ops.last() {
            MockOp::MoveResize(id, x, y, w, h) => {
                assert(v.move_resize_log + moves_in(ops) =~= (v.move_resize_log + moves_in(ops.drop_last())).push((id, x, y, w, h)));
            },
            _ => {},
        }
    }
}

/// The views of a map of strings.
pub open spec fn string_views(m: Map<u64, String>) -> Map<u64, Seq<char>> {
    m.map_values(|s: String| s@)
}

impl View for MockGnomeProxy {
    type V = MockView;

    closed spec fn view(&self) -> MockView {
        MockView {
            windows: window_views(self.windows@),
            monitors: monitor_views(self.monitors@),
            active_workspace: self.active_workspace,
            window_types: string_views(self.window_types@),
            fullscreen: self.fullscreen_states@,
            move_resize_log: self.move_resize_log@,
            raise_log: self.raise_log@,
            show_menu_log: self.show_menu_log@.map_values(|s: String| s@),
            show_menu_zoomed_log: self.show_menu_zoomed_log@.map_values(|p: (u32, String)| (p.0, p.1@)),
            hide_menu_count: self.hide_menu_count as nat,
        }
    }
}

/// The window type the stand-in reports for a window: the one it was given,
/// else `"normal"`.
pub open spec fn reported_type(types: Map<u64, Seq<char>>, window_id: u64) -> Seq<char> {
    if types.contains_key(window_id) {
        types[window_id]
    } else {
        "normal"@
    }
}

impl MockGnomeProxy {
    /// A stand-in with no windows, no monitors, workspace 0 and empty logs.
    pub fn new() -> (r: Self)
        ensures
            r@ == (MockView {
                windows: Seq::empty(),
                monitors: Seq::empty(),
                active_workspace: 0,
                window_types: Map::empty(),
                fullscreen: Map::empty(),
                move_resize_log: Seq::empty(),
                raise_log: Seq::empty(),
                show_menu_log: Seq::empty(),
                show_menu_zoomed_log: Seq::empty(),
                hide_menu_count: 0,
            }),
    {
        let r = MockGnomeProxy {
            windows: Vec::new(),
            monitors: Vec::new(),
            active_workspace: 0,
            window_types: HashMap::new(),
            fullscreen_states: HashMap::new(),
            move_resize_log: Vec::new(),
            raise_log: Vec::new(),
            show_menu_log: Vec::new(),
            show_menu_zoomed_log: Vec::new(),
            hide_menu_count: 0,
        };
        assert(r@ =~= MockView {
            windows: Seq::empty(),
            monitors: Seq::empty(),
            active_workspace: 0,
            window_types: Map::empty(),
            fullscreen: Map::empty(),
            move_resize_log: Seq::empty(),
            raise_log: Seq::empty(),
            show_menu_log: Seq::empty(),
            show_menu_zoomed_log: Seq::empty(),
            hide_menu_count: 0,
        });
        r
    }

    /// Set the windows it lists.
    pub fn set_windows(&mut self, windows: Vec<WindowInfo>)
        ensures
            final(self)@ == old(self)@.after(MockOp::SetWindows(window_views(windows@))),
    {
        self.windows = windows;
    }

    /// Set the monitors it reports.
    pub fn set_monitors(&mut self, monitors: Vec<MonitorInfo>)
        ensures
            final(self)@ == old(self)@.after(MockOp::SetMonitors(monitor_views(monitors@))),
    {
        self.monitors = monitors;
    }

    /// Set the workspace it reports as active.
    pub fn set_active_workspace(&mut self, ws: u32)
        ensures
            final(self)@ == old(self)@.after(MockOp::SetActiveWorkspace(ws)),
    {
        self.active_workspace = ws;
    }

    /// Set the type it reports for a window.
    pub fn set_window_type(&mut self, window_id: u64, wtype: String)
        ensures
            final(self)@ == old(self)@.after(MockOp::SetWindowType(window_id, wtype@)),
    {
        let ghost before = self.window_types@;
        let ghost v = wtype@;
        self.window_types.insert(window_id, wtype);
        assert(string_views(self.window_types@) =~= string_views(before).insert(window_id, v));
    }

    /// Set whether it reports a window as fullscreen.
    pub fn set_fullscreen(&mut self, window_id: u64, fs: bool)
        ensures
            final(self)@ == old(self)@.after(MockOp::SetFullscreen(window_id, fs)),
    {
        self.fullscreen_states.insert(window_id, fs);
    }

    /// The move/resize requests made so far, in order.
    pub fn move_resize_calls(&self) -> (r: &[(u64, i32, i32, i32, i32)])
        ensures
            r@ == self@.move_resize_log,
    {
        self.move_resize_log.as_slice()
    }

    /// The raise requests made so far, in order.
    pub fn raise_calls(&self) -> (r: &[u64])
        ensures
            r@ == self@.raise_log,
    {
        self.raise_log.as_slice()
    }

    /// The JSON text of each show-menu request made so far, in order.
    pub fn show_menu_calls(&self) -> (r: &[String])
        ensures
            r@.map_values(|s: String| s@) == self@.show_menu_log,
    {
        self.show_menu_log.as_slice()
    }

    /// The zoomed-menu requests made so far, in order.
    pub fn show_menu_zoomed_calls(&self) -> (r: &[(u32, String)])
        ensures
            r@.map_values(|p: (u32, String)| (p.0, p.1@)) == self@.show_menu_zoomed_log,
    {
        self.show_menu_zoomed_log.as_slice()
    }

    /// How many hide-menu requests were made.
    pub fn hide_menu_count(&self) -> (r: usize)
        ensures
            r == self@.hide_menu_count,
    {
        self.hide_menu_count
    }

    /// A copy of the windows it lists.
    pub fn list_windows_snapshot(&self) -> (r: Vec<WindowInfo>)
        ensures
            window_views(r@) == self@.windows,
    {
        clone_windows(&self.windows)
    }

    /// A copy of the monitors it reports.
    pub fn monitors_snapshot(&self) -> (r: Vec<MonitorInfo>)
        ensures
            monitor_views(r@) == self@.monitors,
    {
        clone_monitors(&self.monitors)
    }

    /// The workspace it reports as active.
    pub fn active_workspace(&self) -> (r: u32)
        ensures
            r == self@.active_workspace,
    {
        self.active_workspace
    }

    /// The type it reports for a window: the configured one, else `"normal"`.
    pub fn window_type_of(&self, window_id: u64) -> (r: String)
        ensures
            r@ == reported_type(self@.window_types, window_id),
    {
        match self.window_types.get(&window_id) {
            Some(t) => t.clone(),
            None => String::from_str("normal"),
        }
    }

    /// Whether it reports a window as fullscreen: the configured state, else `false`.
    pub fn fullscreen_of(&self, window_id: u64) -> (r: bool)
        ensures
            r == (self@.fullscreen.contains_key(window_id) && self@.fullscreen[window_id]),
    {
        match self.fullscreen_states.get(&window_id) {
            Some(b) => *b,
            None => false,
        }
    }

    /// Record a move/resize request.
    pub fn record_move_resize(&mut self, window_id: u64, x: i32, y: i32, width: i32, height: i32)
        ensures
            final(self)@ == old(self)@.after(MockOp::MoveResize(window_id, x, y, width, height)),
    {
        self.move_resize_log.push((window_id, x, y, width, height));
    }

    /// Record a raise request.
    pub fn record_raise(&mut self, window_id: u64)
        ensures
            final(self)@ == old(self)@.after(MockOp::Raise(window_id)),
    {
        self.raise_log.push(window_id);
    }

    /// Record a show-menu request.
    pub fn record_show_menu(&mut self, monitors_json: &str)
        ensures
            final(self)@ == old(self)@.after(MockOp::ShowMenu(monitors_json@)),
    {
        let ghost before = self.show_menu_log@;
        self.show_menu_log.push(String::from_str(monitors_json));
        assert(self.show_menu_log@.map_values(|s: String| s@) =~= before.map_values(
            |s: String| s@,
        ).push(monitors_json@));
    }

    /// Record a zoomed-menu request.
    pub fn record_show_menu_zoomed(&mut self, monitor_id: u32, layouts_json: &str)
        ensures
            final(self)@ == old(self)@.after(MockOp::ShowMenuZoomed(monitor_id, layouts_json@)),
    {
        let ghost before = self.show_menu_zoomed_log@;
        self.show_menu_zoomed_log.push((monitor_id, String::from_str(layouts_json)));
        assert(self.show_menu_zoomed_log@.map_values(|p: (u32, String)| (p.0, p.1@))
            =~= before.map_values(|p: (u32, String)| (p.0, p.1@)).push(
            (monitor_id, layouts_json@),
        ));
    }

    /// Record a hide-menu request (the count saturates at `usize::MAX`).
    pub fn record_hide_menu(&mut self)
        ensures
            final(self)@ == old(self)@.after(MockOp::HideMenu),
    {
        if self.hide_menu_count < usize::MAX {
            self.hide_menu_count = self.hide_menu_count + 1;
        }
    }
}

} // verus!
