//! Tiling engine: tracks windows, workspaces and the menu, and decides which
//! compositor requests each event calls for.
//!
//! The engine does not talk to the compositor itself. Each handler makes the
//! state changes that come before any compositor request and returns the
//! list of [`Effect`]s the daemon must carry out, in order: compositor
//! requests, the begin/end markers of tiling batches (applied with
//! [`TilingEngine::begin_tiling`] and [`TilingEngine::finish_tiling`]), and
//! the state changes that follow a request (applied with
//! [`TilingEngine::apply_update`]). When a request fails, the daemon stops,
//! and the changes after it are not made. Each handler's contract states the
//! state it leaves, the effects, and the state once every effect is carried
//! out.

use std::collections::HashMap;
use std::collections::HashSet;
use std::time::Duration;
use std::time::Instant;
use vstd::prelude::*;
use vstd::std_specs::hash::group_hash_axioms;

use crate::config::schema::{picks, StackScreenPosition};
use crate::gnome::dbus_proxy::MonitorInfo;
use crate::menu::state::{menu_step, MenuAction, MenuInput, MenuState};
use crate::model::{
    differs_from, enforced_on, layout_of, member_of, restricted_to, without, DesktopView, LayoutPreset, Rect,
    VirtualDesktop,
};
use crate::seq_facts::{lemma_filter_take_step, lemma_take_full};
use crate::tiling::preset::{
    apply_fullscreen, apply_quadrants, apply_side_by_side, apply_top_bottom, assign_slots,
    fullscreen_slots, quadrant_slots, side_by_side_slots, splits_fit, top_bottom_slots,
};
use crate::tiling::stack::{screen_fits, stack_layout, stack_positions};
use crate::text::str_equals;

verus! {

broadcast use group_hash_axioms;

#[verifier::external_type_specification]
#[verifier::external_body]
pub struct ExInstant(Instant);

/// `Instant::now`: the current reading of the monotonic clock. Nothing is
/// stated of it, since it depends on when it is called.
#[verifier::external_body]
fn instant_now() -> Instant {
    Instant::now()
}

/// `Instant::elapsed`: the time since `start` by the monotonic clock.
/// Nothing is stated of it, since it depends on when it is called.
#[verifier::external_body]
fn elapsed_since(start: &Instant) -> Duration {
    start.elapsed()
}

/// `Duration::as_millis`: the whole milliseconds of a duration. Nothing is
/// stated of the result: a `Duration`'s contents are not visible here, and
/// the only duration measured is the clock's.
#[verifier::external_body]
fn whole_millis(d: &Duration) -> u128 {
    d.as_millis()
}

/// Geometry-change signals this soon after a tiling batch are ignored
/// (milliseconds): Mutter fires them asynchronously after our own moves.
const TILING_GRACE_MS: u128 = 500;

/// What the engine knows of a window.
#[derive(Clone, Copy, Debug, PartialEq, Eq, Structural)]
pub struct TrackedWindow {
    pub workspace_id: u32,
    pub monitor_id: u32,
    pub is_fullscreen: bool,
    pub is_toplevel: bool,
}

/// One thing the daemon must do, in the order given.
#[derive(Clone, Copy, Debug, PartialEq, Eq, Structural)]
pub enum Effect {
    /// Ask the compositor to move and resize a window.
    MoveResize { window_id: u64, x: i32, y: i32, width: i32, height: i32 },
    /// Ask the compositor to raise a window.
    Raise(u64),
    /// Show the menu overview (with the JSON list of monitors).
    ShowMenu,
    /// Show the layout picker for a monitor (with the JSON list of layouts).
    ShowMenuZoomed(u32),
    /// Hide the menu.
    HideMenu,
    /// A tiling batch starts: call [`TilingEngine::begin_tiling`].
    BeginTiling,
    /// A tiling batch ends: call [`TilingEngine::finish_tiling`].
    FinishTiling,
    /// Cut a workspace's stack down to the tracked windows; this and the
    /// variants below are state changes the daemon makes with
    /// [`TilingEngine::apply_update`] when it reaches them.
    Prune(u32),
    /// Record a tracked window as being on a monitor.
    Relocate { window_id: u64, monitor_id: u32 },
    /// Move a window to the front of a workspace's stack.
    PushFront { workspace_id: u32, window_id: u64 },
    /// Set the preset of a monitor on a workspace.
    SetLayout { workspace_id: u32, monitor_id: u32, preset: LayoutPreset },
    /// Turn layout enforcement on or off for a monitor on a workspace.
    SetEnforcement { workspace_id: u32, monitor_id: u32, enforced: bool },
}

/// The mathematical state of a [`TilingEngine`].
#[verifier::ext_equal]
pub struct EngineModel {
    pub stack_position: StackScreenPosition,
    pub stack_index: usize,
    pub monitors: Seq<MonitorInfo>,
    pub windows: Map<u64, TrackedWindow>,
    pub desktops: Map<u32, DesktopView>,
    pub active_workspace: u32,
    pub focused: Option<u64>,
    pub menu: MenuState,
    pub is_tiling: bool,
    pub visited: Set<u32>,
}

/// Core tiling engine.
///
/// Owns all window state, per-workspace virtual desktops, and the menu state
/// machine, and decides how to enforce layouts in response to compositor
/// events forwarded by the daemon. It also holds the compositor proxy `P`
/// through which the daemon carries out the engine's effects.
pub struct TilingEngine<P> {
    proxy: P,
    stack_position: StackScreenPosition,
    stack_screen_index: usize,
    monitors: Vec<MonitorInfo>,
    windows: HashMap<u64, TrackedWindow>,
    desktops: HashMap<u32, VirtualDesktop>,
    active_workspace: u32,
    focused_window_id: Option<u64>,
    menu: MenuState,
    is_tiling: bool,
    /// When the last tiling batch completed. Geometry-change signals
    /// arriving within a grace period after this are suppressed.
    last_tiling_end: Option<Instant>,
    /// Workspaces that have been tiled at least once.
    visited_workspaces: HashSet<u32>,
}

/// The views of a map of desktops.
pub open spec fn desktop_views(m: Map<u32, VirtualDesktop>) -> Map<u32, DesktopView> {
    m.map_values(|d: VirtualDesktop| d@)
}

proof fn lemma_desktop_views_insert(m: Map<u32, VirtualDesktop>, k: u32, d: VirtualDesktop)
    ensures
        desktop_views(m.insert(k, d)) == desktop_views(m).insert(k, d@),
{
    assert(desktop_views(m.insert(k, d)) =~= desktop_views(m).insert(k, d@));
}

/// A monitor's rectangle.
pub open spec fn rect_of(m: MonitorInfo) -> Rect {
    Rect { x: m.x, y: m.y, width: m.width, height: m.height }
}

/// A monitor's geometry can be split and stacked without leaving `i32`.
pub open spec fn geometry_fits(m: MonitorInfo) -> bool {
    splits_fit(rect_of(m)) && screen_fits(rect_of(m))
}

/// The first monitor with the given id, if any.
pub open spec fn find_monitor(ms: Seq<MonitorInfo>, id: u32) -> Option<MonitorInfo>
    decreases ms.len(),
{
    if ms.len() == 0 {
        None
    } else {
        match find_monitor(ms.drop_last(), id) {
            Some(m) => Some(m),
            None => if ms.last().id == id {
                Some(ms.last())
            } else {
                None
            },
        }
    }
}

/// The move/resize effect that puts a window at a rectangle.
pub open spec fn move_to(window_id: u64, r: Rect) -> Effect {
    Effect::MoveResize { window_id, x: r.x, y: r.y, width: r.width, height: r.height }
}

/// Move every positioned window to its rectangle, in order.
pub open spec fn moves(pos: Seq<(u64, Rect)>) -> Seq<Effect> {
    pos.map_values(|p: (u64, Rect)| move_to(p.0, p.1))
}

/// Raise the positioned windows last-to-first, so the first ends on top.
pub open spec fn raises_reversed(pos: Seq<(u64, Rect)>) -> Seq<Effect> {
    Seq::new(pos.len(), |i: int| Effect::Raise(pos[pos.len() - 1 - i].0))
}

/// The ids of positioned windows.
pub open spec fn ids_of(pos: Seq<(u64, Rect)>) -> Seq<u64> {
    pos.map_values(|p: (u64, Rect)| p.0)
}

/// The predicate "is not among `ids`".
pub open spec fn not_among(ids: Seq<u64>) -> spec_fn(u64) -> bool {
    |w: u64| !ids.contains(w)
}

/// The windows of `ids` that got no position.
pub open spec fn excess_of(ids: Seq<u64>, pos: Seq<(u64, Rect)>) -> Seq<u64> {
    ids.filter(not_among(ids_of(pos)))
}

/// Move each of `ids` to the same rectangle, in order.
pub open spec fn moves_all_to(ids: Seq<u64>, r: Rect) -> Seq<Effect> {
    ids.map_values(|w: u64| move_to(w, r))
}

/// Send each of `ids` to rectangle `r` and, once it is there, record it on
/// monitor `target`, in order.
pub open spec fn returns_to(ids: Seq<u64>, r: Rect, target: u32) -> Seq<Effect>
    decreases ids.len(),
{
    if ids.len() == 0 {
        Seq::empty()
    } else {
        returns_to(ids.drop_last(), r, target) + seq![
            move_to(ids.last(), r),
            Effect::Relocate { window_id: ids.last(), monitor_id: target },
        ]
    }
}

/// The predicate "is tracked on monitor `m`".
pub open spec fn tracked_on(windows: Map<u64, TrackedWindow>, m: u32) -> spec_fn(u64) -> bool {
    |w: u64| windows.contains_key(w) && windows[w].monitor_id == m
}

/// The tracked windows of `ids` moved to monitor `target`; the others unchanged.
pub open spec fn relocated(windows: Map<u64, TrackedWindow>, ids: Seq<u64>, target: u32) -> Map<
    u64,
    TrackedWindow,
> {
    Map::new(
        |k: u64| windows.contains_key(k),
        |k: u64|
            if ids.contains(k) {
                TrackedWindow { monitor_id: target, ..windows[k] }
            } else {
                windows[k]
            },
    )
}

/// The positions a preset gives `ids` on a monitor rectangle.
pub open spec fn preset_positions(preset: LayoutPreset, ids: Seq<u64>, r: Rect) -> Seq<(u64, Rect)> {
    match preset {
        LayoutPreset::Fullscreen => assign_slots(ids, fullscreen_slots(r)),
        LayoutPreset::SideBySide => assign_slots(ids, side_by_side_slots(r)),
        LayoutPreset::TopBottom => assign_slots(ids, top_bottom_slots(r)),
        LayoutPreset::Quadrants => assign_slots(ids, quadrant_slots(r)),
    }
}

/// Whether a tiling batch that ended `elapsed_ms` whole milliseconds ago
/// (`None`: none has) is still in its 500 ms grace period.
pub open spec fn in_grace_period(elapsed_ms: Option<u128>) -> bool {
    elapsed_ms matches Some(ms) && ms < 500
}

/// The layout preset for a digit of the layout picker.
pub open spec fn preset_for_digit(d: u8) -> Option<LayoutPreset> {
    if d == 1 {
        Some(LayoutPreset::Fullscreen)
    } else if d == 2 {
        Some(LayoutPreset::SideBySide)
    } else if d == 3 {
        Some(LayoutPreset::TopBottom)
    } else if d == 4 {
        Some(LayoutPreset::Quadrants)
    } else {
        None
    }
}

impl EngineModel {
    /// Every monitor's geometry fits.
    pub open spec fn wf(self) -> bool {
        forall|i: int| 0 <= i < self.monitors.len() ==> geometry_fits(#[trigger] self.monitors[i])
    }

    /// The stack screen's monitor id (the stack screen's index, as the engine uses it).
    pub open spec fn stack_id(self) -> u32 {
        self.stack_index as u32
    }

    /// The stack screen's rectangle, if the index names a monitor.
    pub open spec fn stack_rect(self) -> Option<Rect> {
        if self.stack_index < self.monitors.len() {
            Some(rect_of(self.monitors[self.stack_index as int]))
        } else {
            None
        }
    }

    /// The rectangle of the first monitor with id `m`.
    pub open spec fn monitor_rect(self, m: u32) -> Option<Rect> {
        match find_monitor(self.monitors, m) {
            Some(mi) => Some(rect_of(mi)),
            None => None,
        }
    }

    /// The desktop of a workspace, or a fresh one.
    pub open spec fn desktop_or_new(self, ws: u32) -> DesktopView {
        if self.desktops.contains_key(ws) {
            self.desktops[ws]
        } else {
            DesktopView {
                id: ws,
                layouts: Map::empty(),
                enforcement: Map::empty(),
                stack: Seq::empty(),
            }
        }
    }

    /// The layout preset of a monitor on a workspace, if the workspace has a desktop.
    pub open spec fn layout(self, ws: u32, m: u32) -> Option<LayoutPreset> {
        if self.desktops.contains_key(ws) {
            layout_of(self.desktops[ws], m)
        } else {
            None
        }
    }

    /// The workspace's stack windows that are tracked on monitor `m`, in stack order.
    pub open spec fn windows_on_monitor(self, ws: u32, m: u32) -> Seq<u64> {
        if self.desktops.contains_key(ws) {
            self.desktops[ws].stack.filter(tracked_on(self.windows, m))
        } else {
            Seq::empty()
        }
    }

    /// The state with the workspace's stack cut down to tracked windows.
    pub open spec fn pruned(self, ws: u32) -> EngineModel {
        if self.desktops.contains_key(ws) {
            EngineModel {
                desktops: self.desktops.insert(
                    ws,
                    DesktopView {
                        stack: restricted_to(self.desktops[ws].stack, self.windows.dom()),
                        ..self.desktops[ws]
                    },
                ),
                ..self
            }
        } else {
            self
        }
    }

    /// The state with the workspace's desktop replaced.
    pub open spec fn with_desktop(self, ws: u32, d: DesktopView) -> EngineModel {
        EngineModel { desktops: self.desktops.insert(ws, d), ..self }
    }

    /// The state with a tracked window's monitor changed (untracked: unchanged).
    pub open spec fn with_window_on(self, w: u64, m: u32) -> EngineModel {
        if self.windows.contains_key(w) {
            EngineModel {
                windows: self.windows.insert(w, TrackedWindow { monitor_id: m, ..self.windows[w] }),
                ..self
            }
        } else {
            self
        }
    }

    /// Tile the workspace's stack-screen windows: prune the stack, lay out
    /// the windows on the stack screen in stack order, stash the ones that
    /// get no tile at full screen size, then raise the tiled ones so the
    /// first ends on top. Nothing happens without a stack screen.
    pub open spec fn tile_stack(self, ws: u32) -> (EngineModel, Seq<Effect>) {
        match self.stack_rect() {
            None => (self, Seq::empty()),
            Some(screen) => {
                let s1 = self.pruned(ws);
                let ids = s1.windows_on_monitor(ws, self.stack_id());
                let pos = stack_positions(ids, screen);
                (
                    s1,
                    seq![Effect::BeginTiling, Effect::Prune(ws)] + moves(pos) + moves_all_to(
                        excess_of(ids, pos),
                        screen,
                    ) + raises_reversed(pos) + seq![Effect::FinishTiling],
                )
            },
        }
    }

    /// Apply the monitor's preset on the workspace: prune the stack; if the
    /// monitor has a preset, exists and has windows, put the windows in the
    /// preset's slots, send the ones without a slot to the stack screen (or
    /// stash them at full size when the monitor is the stack screen), raise
    /// the placed ones first-on-top, and retile the stack if windows were
    /// sent there.
    pub open spec fn apply_layout(self, ws: u32, m: u32) -> (EngineModel, Seq<Effect>) {
        let s1 = self.pruned(ws);
        let rest = s1.placed(ws, m);
        (rest.0, seq![Effect::Prune(ws)] + rest.1)
    }

    /// The part of [`EngineModel::apply_layout`] after the prune.
    pub open spec fn placed(self, ws: u32, m: u32) -> (EngineModel, Seq<Effect>) {
        let s1 = self;
        match s1.layout(ws, m) {
            None => (s1, Seq::empty()),
            Some(preset) => match s1.monitor_rect(m) {
                None => (s1, Seq::empty()),
                Some(r) => {
                    let ids = s1.windows_on_monitor(ws, m);
                    if ids.len() == 0 {
                        (s1, Seq::empty())
                    } else {
                        let pos = preset_positions(preset, ids, r);
                        let excess = excess_of(ids, pos);
                        let on_stack = m == s1.stack_id();
                        let excess_effects = if on_stack {
                            moves_all_to(excess, r)
                        } else {
                            match s1.stack_rect() {
                                Some(sr) => returns_to(excess, sr, s1.stack_id()),
                                None => Seq::empty(),
                            }
                        };
                        let s2 = if !on_stack && s1.stack_rect() is Some {
                            EngineModel {
                                windows: relocated(s1.windows, excess, s1.stack_id()),
                                ..s1
                            }
                        } else {
                            s1
                        };
                        let effects = seq![Effect::BeginTiling] + moves(pos) + excess_effects
                            + raises_reversed(pos) + seq![Effect::FinishTiling];
                        if !on_stack && excess.len() > 0 {
                            (s2.tile_stack(ws).0, effects + s2.tile_stack(ws).1)
                        } else {
                            (s2, effects)
                        }
                    }
                },
            },
        }
    }

    /// Move a window to fill the stack screen, record it there, and retile
    /// the stack. Nothing happens without a stack screen.
    pub open spec fn move_to_stack(self, w: u64, ws: u32) -> (EngineModel, Seq<Effect>) {
        match self.stack_rect() {
            None => (self, Seq::empty()),
            Some(r) => {
                let s1 = self.with_window_on(w, self.stack_id());
                (
                    s1.tile_stack(ws).0,
                    seq![move_to(w, r), Effect::Relocate { window_id: w, monitor_id: self.stack_id() }]
                        + s1.tile_stack(ws).1,
                )
            },
        }
    }
}

/// The first position given to window `w`, if any.
pub open spec fn position_of(pos: Seq<(u64, Rect)>, w: u64) -> Option<Rect>
    decreases pos.len(),
{
    if pos.len() == 0 {
        None
    } else {
        match position_of(pos.drop_last(), w) {
            Some(r) => Some(r),
            None => if pos.last().0 == w {
                Some(pos.last().1)
            } else {
                None
            },
        }
    }
}

/// A window as listed at startup, with its type and fullscreen state.
pub struct ListedWindow {
    pub id: u64,
    pub monitor_id: u32,
    pub workspace_id: u32,
    pub window_type: String,
    pub is_fullscreen: bool,
}

/// Why startup cannot go on.
#[derive(Clone, Copy, Debug, PartialEq, Eq, Structural)]
pub enum StartupError {
    /// The compositor reported no monitors.
    NoMonitors,
}

/// Whether a window type names a toplevel window.
pub open spec fn is_toplevel_name(wtype: Seq<char>) -> bool {
    wtype == "toplevel"@
}

impl EngineModel {
    /// The desktop of `ws` with `w` moved to the front of its stack.
    pub open spec fn pushed(self, ws: u32, w: u64) -> EngineModel {
        let d = self.desktop_or_new(ws);
        self.with_desktop(ws, DesktopView { stack: seq![w] + without(d.stack, w), ..d })
    }

    /// The desktop of `ws` with `w` moved to the back of its stack.
    pub open spec fn appended(self, ws: u32, w: u64) -> EngineModel {
        let d = self.desktop_or_new(ws);
        self.with_desktop(ws, DesktopView { stack: without(d.stack, w).push(w), ..d })
    }

    /// The desktop of `ws` with `w` taken out of its stack.
    pub open spec fn removed(self, ws: u32, w: u64) -> EngineModel {
        let d = self.desktop_or_new(ws);
        self.with_desktop(ws, DesktopView { stack: without(d.stack, w), ..d })
    }

    /// Track one window listed at startup: toplevel, non-fullscreen windows
    /// join the back of their workspace's stack.
    pub open spec fn registered(self, w: ListedWindow) -> EngineModel {
        let tl = is_toplevel_name(w.window_type@);
        let s1 = if tl && !w.is_fullscreen {
            self.appended(w.workspace_id, w.id)
        } else {
            self
        };
        EngineModel {
            windows: s1.windows.insert(
                w.id,
                TrackedWindow {
                    workspace_id: w.workspace_id,
                    monitor_id: w.monitor_id,
                    is_fullscreen: w.is_fullscreen,
                    is_toplevel: tl,
                },
            ),
            ..s1
        }
    }

    /// Track every window listed at startup, in order.
    pub open spec fn registered_all(self, ws: Seq<ListedWindow>) -> EngineModel
        decreases ws.len(),
    {
        if ws.len() == 0 {
            self
        } else {
            self.registered_all(ws.drop_last()).registered(ws.last())
        }
    }

    /// Record the active workspace found at startup and track the windows
    /// listed so far.
    pub open spec fn registered_at_startup(self, active: u32, ws: Seq<ListedWindow>) -> EngineModel {
        EngineModel { active_workspace: active, ..self }.registered_all(ws)
    }

    /// Complete startup: mark the active workspace visited and tile its stack.
    pub open spec fn startup_completed(self) -> (EngineModel, Seq<Effect>) {
        EngineModel { visited: self.visited.insert(self.active_workspace), ..self }.tile_stack(
            self.active_workspace,
        )
    }

    /// Finish startup: record the active workspace, track the listed
    /// windows, mark the workspace visited and tile its stack.
    pub open spec fn started(self, active: u32, ws: Seq<ListedWindow>) -> (EngineModel, Seq<Effect>) {
        self.registered_at_startup(active, ws).startup_completed()
    }

    /// A window opened on `monitor`: track it on the active workspace; if it
    /// is toplevel and not fullscreen, put it at the front of the stack and
    /// re-apply the monitor's preset if it has one, else retile the stack if
    /// it opened on the stack screen, else send it to the stack screen.
    pub open spec fn window_opened(self, w: u64, monitor: u32, toplevel: bool, fullscreen: bool) -> (
        EngineModel,
        Seq<Effect>,
    ) {
        let ws = self.active_workspace;
        let s1 = EngineModel {
            windows: self.windows.insert(
                w,
                TrackedWindow {
                    workspace_id: ws,
                    monitor_id: monitor,
                    is_fullscreen: fullscreen,
                    is_toplevel: toplevel,
                },
            ),
            ..self
        };
        if !toplevel || fullscreen {
            (s1, Seq::empty())
        } else {
            let s2 = s1.pushed(ws, w);
            if s2.layout(ws, monitor) is Some {
                s2.apply_layout(ws, monitor)
            } else if monitor == s2.stack_id() {
                s2.tile_stack(ws)
            } else {
                s2.move_to_stack(w, ws)
            }
        }
    }

    /// A window closed: forget it (and the focus on it), take it out of its
    /// workspace's stack, and if it was a tiled window re-apply its
    /// monitor's preset, or retile the stack if it was on the stack screen.
    pub open spec fn window_closed(self, w: u64) -> (EngineModel, Seq<Effect>) {
        if !self.windows.contains_key(w) {
            (self, Seq::empty())
        } else {
            let t = self.windows[w];
            let s1 = EngineModel {
                windows: self.windows.remove(w),
                focused: if self.focused == Some(w) {
                    None
                } else {
                    self.focused
                },
                ..self
            };
            let s2 = s1.removed(t.workspace_id, w);
            if !t.is_toplevel || t.is_fullscreen {
                (s2, Seq::empty())
            } else if s2.layout(t.workspace_id, t.monitor_id) is Some {
                s2.apply_layout(t.workspace_id, t.monitor_id)
            } else if t.monitor_id == s2.stack_id() {
                s2.tile_stack(t.workspace_id)
            } else {
                (s2, Seq::empty())
            }
        }
    }

    /// The active workspace changed; its stack is tiled on the first visit only.
    pub open spec fn workspace_changed(self, ws: u32) -> (EngineModel, Seq<Effect>) {
        let s1 = EngineModel { active_workspace: ws, ..self };
        if !self.visited.contains(ws) {
            EngineModel { visited: s1.visited.insert(ws), ..s1 }.tile_stack(ws)
        } else {
            (s1, Seq::empty())
        }
    }

    /// A tracked window entered or left fullscreen: record it; entering takes
    /// it out of the stack, leaving puts a toplevel window back at the front;
    /// then retile the stack if it is on the stack screen, and re-apply its
    /// monitor's preset if there is one.
    pub open spec fn fullscreen_changed(self, w: u64, fullscreen: bool) -> (EngineModel, Seq<Effect>) {
        if !self.windows.contains_key(w) {
            (self, Seq::empty())
        } else {
            let t = self.windows[w];
            let ws = t.workspace_id;
            let m = t.monitor_id;
            let s1 = EngineModel {
                windows: self.windows.insert(w, TrackedWindow { is_fullscreen: fullscreen, ..t }),
                ..self
            };
            let s2 = if fullscreen {
                s1.removed(ws, w)
            } else if t.is_toplevel {
                s1.pushed(ws, w)
            } else {
                s1
            };
            let s3 = if m == s2.stack_id() {
                s2.tile_stack(ws).0
            } else {
                s2
            };
            let e3 = if m == s2.stack_id() {
                s2.tile_stack(ws).1
            } else {
                Seq::empty()
            };
            if s3.layout(ws, m) is Some {
                (s3.apply_layout(ws, m).0, e3 + s3.apply_layout(ws, m).1)
            } else {
                (s3, e3)
            }
        }
    }

    /// The snap-back a geometry change calls for: none while tiling or in
    /// the grace period after a batch, or unless the window is tracked, its
    /// workspace has a desktop enforcing a preset on its monitor, the monitor
    /// exists, and the preset gives the window a slot that differs from the
    /// reported geometry; then one move back into the slot.
    pub open spec fn snap_back(self, in_grace: bool, w: u64, g: Rect) -> Seq<Effect> {
        if self.is_tiling || in_grace || !self.windows.contains_key(w) {
            Seq::empty()
        } else {
            let t = self.windows[w];
            let ws = t.workspace_id;
            let m = t.monitor_id;
            if !self.desktops.contains_key(ws) || !enforced_on(self.desktops[ws], m) {
                Seq::empty()
            } else {
                match (layout_of(self.desktops[ws], m), self.monitor_rect(m)) {
                    (Some(preset), Some(r)) => match position_of(
                        preset_positions(preset, self.windows_on_monitor(ws, m), r),
                        w,
                    ) {
                        Some(expected) => if expected == g {
                            Seq::empty()
                        } else {
                            seq![move_to(w, expected)]
                        },
                        None => Seq::empty(),
                    },
                    _ => Seq::empty(),
                }
            }
        }
    }

    /// Move the focused, tracked window to a different, existing monitor:
    /// fill that monitor and raise it, record it there, retile the stack if
    /// either monitor is the stack screen, and re-apply the target's preset
    /// if it has one.
    pub open spec fn moved_to_monitor(self, target: u32) -> (EngineModel, Seq<Effect>) {
        match (self.focused, self.monitor_rect(target)) {
            (Some(w), Some(r)) => if !self.windows.contains_key(w) || self.windows[w].monitor_id
                == target {
                (self, Seq::empty())
            } else {
                let t = self.windows[w];
                let ws = t.workspace_id;
                let src = t.monitor_id;
                let e1 = seq![
                    move_to(w, r),
                    Effect::Raise(w),
                    Effect::Relocate { window_id: w, monitor_id: target },
                ];
                let s1 = self.with_window_on(w, target);
                let retile = src == s1.stack_id() || target == s1.stack_id();
                let s2 = if retile {
                    s1.tile_stack(ws).0
                } else {
                    s1
                };
                let e2 = if retile {
                    s1.tile_stack(ws).1
                } else {
                    Seq::empty()
                };
                if s2.layout(ws, target) is Some {
                    (s2.apply_layout(ws, target).0, e1 + e2 + s2.apply_layout(ws, target).1)
                } else {
                    (s2, e1 + e2)
                }
            },
            _ => (self, Seq::empty()),
        }
    }

    /// Bring the focused, tracked window over to monitor `m` from another
    /// monitor before a preset is applied there: fill and raise it as a
    /// batch if the monitor exists, record it there, put it at the front of
    /// the stack, and retile the stack if it came from the stack screen.
    /// Nothing happens if no tracked window is focused or it is already on `m`.
    pub open spec fn focused_brought(self, m: u32) -> (EngineModel, Seq<Effect>) {
        let ws = self.active_workspace;
        let brings = match self.focused {
            Some(w) => self.windows.contains_key(w) && self.windows[w].monitor_id != m,
            None => false,
        };
        let w = self.focused->0;
        let e1 = if brings {
            match self.monitor_rect(m) {
                Some(r) => seq![
                    Effect::BeginTiling,
                    move_to(w, r),
                    Effect::Raise(w),
                    Effect::FinishTiling,
                ],
                None => Seq::empty(),
            }
        } else {
            Seq::empty()
        };
        let sb = self.with_window_on(w, m).pushed(ws, w);
        let from_stack = brings && self.windows[w].monitor_id == sb.stack_id();
        let s2 = if !brings {
            self
        } else if from_stack {
            sb.tile_stack(ws).0
        } else {
            sb
        };
        let e2 = if from_stack {
            sb.tile_stack(ws).1
        } else {
            Seq::empty()
        };
        let updates = if brings {
            seq![
                Effect::Relocate { window_id: w, monitor_id: m },
                Effect::PushFront { workspace_id: ws, window_id: w },
            ]
        } else {
            Seq::empty()
        };
        (s2, e1 + updates + e2)
    }

    /// Apply `preset` to monitor `m` from the menu: first bring the focused
    /// window over (see [`EngineModel::focused_brought`]), then set the
    /// preset on the active workspace and apply it.
    pub open spec fn layout_chosen(self, m: u32, preset: LayoutPreset) -> (EngineModel, Seq<Effect>) {
        let ws = self.active_workspace;
        let s2 = self.focused_brought(m).0;
        let d = s2.desktop_or_new(ws);
        let s3 = s2.with_desktop(ws, DesktopView { layouts: d.layouts.insert(m, preset), ..d });
        (
            s3.apply_layout(ws, m).0,
            self.focused_brought(m).1 + seq![
                Effect::SetLayout { workspace_id: ws, monitor_id: m, preset },
            ] + s3.apply_layout(ws, m).1,
        )
    }

    /// The effects and state an action from the menu leads to.
    pub open spec fn menu_action(self, action: MenuAction) -> (EngineModel, Seq<Effect>) {
        let ws = self.active_workspace;
        match action {
            MenuAction::MoveWindow(t) => self.moved_to_monitor(t),
            MenuAction::ApplyLayout(m, digit) => match preset_for_digit(digit) {
                Some(p) => self.layout_chosen(m, p),
                None => (self, Seq::empty()),
            },
            MenuAction::EnforceOn(m) => {
                let d = self.desktop_or_new(ws);
                (
                    self.with_desktop(
                        ws,
                        DesktopView { enforcement: d.enforcement.insert(m, true), ..d },
                    ),
                    seq![Effect::SetEnforcement { workspace_id: ws, monitor_id: m, enforced: true }],
                )
            },
            MenuAction::EnforceOff(m) => {
                let d = self.desktop_or_new(ws);
                (
                    self.with_desktop(
                        ws,
                        DesktopView { enforcement: d.enforcement.insert(m, false), ..d },
                    ),
                    seq![Effect::SetEnforcement { workspace_id: ws, monitor_id: m, enforced: false }],
                )
            },
            _ => (self, Seq::empty()),
        }
    }

    /// A menu input: step the menu; show the overview when it opens; when
    /// zooming into the stack screen, close the menu and send the focused
    /// window to the stack instead; when zooming elsewhere, show the layout
    /// picker; hide the menu whenever it closes; then carry out the action.
    pub open spec fn menu_input(self, input: MenuInput) -> (EngineModel, Seq<Effect>) {
        let old_state = self.menu;
        let new_state = menu_step(old_state, input).0;
        let action = menu_step(old_state, input).1;
        let s1 = EngineModel { menu: new_state, ..self };
        let e1: Seq<Effect> = if old_state == MenuState::Closed && new_state == MenuState::Overview {
            seq![Effect::ShowMenu]
        } else {
            Seq::empty()
        };
        match action {
            Some(MenuAction::ZoomIn(m)) => if m == s1.stack_id() {
                let s2 = EngineModel { menu: MenuState::Closed, ..s1 };
                match s2.focused {
                    Some(w) => (
                        s2.move_to_stack(w, s2.active_workspace).0,
                        e1.push(Effect::HideMenu) + s2.move_to_stack(w, s2.active_workspace).1,
                    ),
                    None => (s2, e1.push(Effect::HideMenu)),
                }
            } else {
                (s1, e1.push(Effect::ShowMenuZoomed(m)))
            },
            _ => {
                let e2 = if new_state == MenuState::Closed && old_state != MenuState::Closed {
                    e1.push(Effect::HideMenu)
                } else {
                    e1
                };
                match action {
                    Some(a) => (s1.menu_action(a).0, e2 + s1.menu_action(a).1),
                    None => (s1, e2),
                }
            },
        }
    }
}

impl EngineModel {
    /// What a window opening changes before any request is made: the window
    /// is tracked and, if tileable, put at the front of the stack.
    pub open spec fn window_opened_committed(self, w: u64, monitor: u32, toplevel: bool, fullscreen: bool) -> EngineModel {
        let ws = self.active_workspace;
        let s1 = EngineModel {
            windows: self.windows.insert(
                w,
                TrackedWindow {
                    workspace_id: ws,
                    monitor_id: monitor,
                    is_fullscreen: fullscreen,
                    is_toplevel: toplevel,
                },
            ),
            ..self
        };
        if !toplevel || fullscreen {
            s1
        } else {
            s1.pushed(ws, w)
        }
    }

    /// What a window closing changes before any request is made.
    pub open spec fn window_closed_committed(self, w: u64) -> EngineModel {
        if !self.windows.contains_key(w) {
            self
        } else {
            let t = self.windows[w];
            EngineModel {
                windows: self.windows.remove(w),
                focused: if self.focused == Some(w) {
                    None
                } else {
                    self.focused
                },
                ..self
            }.removed(t.workspace_id, w)
        }
    }

    /// What a workspace switch changes before any request is made.
    pub open spec fn workspace_changed_committed(self, ws: u32) -> EngineModel {
        let s1 = EngineModel { active_workspace: ws, ..self };
        if !self.visited.contains(ws) {
            EngineModel { visited: s1.visited.insert(ws), ..s1 }
        } else {
            s1
        }
    }

    /// What a fullscreen change changes before any request is made.
    pub open spec fn fullscreen_changed_committed(self, w: u64, fullscreen: bool) -> EngineModel {
        if !self.windows.contains_key(w) {
            self
        } else {
            let t = self.windows[w];
            let s1 = EngineModel {
                windows: self.windows.insert(w, TrackedWindow { is_fullscreen: fullscreen, ..t }),
                ..self
            };
            if fullscreen {
                s1.removed(t.workspace_id, w)
            } else if t.is_toplevel {
                s1.pushed(t.workspace_id, w)
            } else {
                s1
            }
        }
    }

    /// What completing startup changes before any request is made.
    pub open spec fn startup_committed(self) -> EngineModel {
        EngineModel { visited: self.visited.insert(self.active_workspace), ..self }
    }

    /// What a menu input changes before any request is made: the menu state.
    pub open spec fn menu_input_committed(self, input: MenuInput) -> EngineModel {
        let s1 = EngineModel { menu: menu_step(self.menu, input).0, ..self };
        match menu_step(self.menu, input).1 {
            Some(MenuAction::ZoomIn(m)) => if m == s1.stack_id() {
                EngineModel { menu: MenuState::Closed, ..s1 }
            } else {
                s1
            },
            _ => s1,
        }
    }
}

/// Whether an effect is a change of the engine's state rather than a
/// request to the compositor or a tiling-batch marker.
pub open spec fn is_update(e: Effect) -> bool {
    ||| e is Prune
    ||| e is Relocate
    ||| e is PushFront
    ||| e is SetLayout
    ||| e is SetEnforcement
}

/// No effect of `es` is a state change.
pub open spec fn all_plain(es: Seq<Effect>) -> bool {
    forall|i: int| 0 <= i < es.len() ==> !is_update(#[trigger] es[i])
}

impl EngineModel {
    /// The state after one effect: a state change is made, anything else
    /// leaves the state as it is.
    pub open spec fn updated(self, e: Effect) -> EngineModel {
        match e {
            Effect::Prune(ws) => self.pruned(ws),
            Effect::Relocate { window_id, monitor_id } => self.with_window_on(window_id, monitor_id),
            Effect::PushFront { workspace_id, window_id } => self.pushed(workspace_id, window_id),
            Effect::SetLayout { workspace_id, monitor_id, preset } => {
                let d = self.desktop_or_new(workspace_id);
                self.with_desktop(workspace_id, DesktopView { layouts: d.layouts.insert(monitor_id, preset), ..d })
            },
            Effect::SetEnforcement { workspace_id, monitor_id, enforced } => {
                let d = self.desktop_or_new(workspace_id);
                self.with_desktop(
                    workspace_id,
                    DesktopView { enforcement: d.enforcement.insert(monitor_id, enforced), ..d },
                )
            },
            _ => self,
        }
    }

    /// The state after carrying out `es` in order.
    pub open spec fn replayed(self, es: Seq<Effect>) -> EngineModel
        decreases es.len(),
    {
        if es.len() == 0 {
            self
        } else {
            self.replayed(es.drop_last()).updated(es.last())
        }
    }
}

/// Whether `w` is in `ids`.
fn contains_id(ids: &Vec<u64>, w: u64) -> (r: bool)
    ensures
        r == ids@.contains(w),
{
    let mut i: usize = 0;
    while i < ids.len()
        invariant
            i <= ids@.len(),
            forall|j: int| 0 <= j < i ==> ids@[j] != w,
        decreases ids@.len() - i,
    {
        if ids[i] == w {
            return true;
        }
        i = i + 1;
    }
    false
}

/// The ids of positioned windows.
fn positioned_ids(pos: &Vec<(u64, Rect)>) -> (r: Vec<u64>)
    ensures
        r@ == ids_of(pos@),
{
    let mut r: Vec<u64> = Vec::new();
    for i in 0..pos.len()
        invariant
            r@ == ids_of(pos@.take(i as int)),
    {
        r.push(pos[i].0);
        assert(ids_of(pos@.take(i + 1)) =~= ids_of(pos@.take(i as int)).push(pos@[i as int].0));
    }
    assert(pos@.take(pos@.len() as int) =~= pos@);
    r
}

/// The windows of `ids` without a position in `pos`.
fn excess_ids(ids: &Vec<u64>, pos: &Vec<(u64, Rect)>) -> (r: Vec<u64>)
    ensures
        r@ == excess_of(ids@, pos@),
{
    let placed = positioned_ids(pos);
    let mut r: Vec<u64> = Vec::new();
    for i in 0..ids.len()
        invariant
            placed@ == ids_of(pos@),
            r@ == ids@.take(i as int).filter(not_among(ids_of(pos@))),
    {
        proof {
            lemma_filter_take_step(ids@, not_among(ids_of(pos@)), i as int);
        }
        if !contains_id(&placed, ids[i]) {
            r.push(ids[i]);
        }
    }
    proof {
        lemma_take_full(ids@);
    }
    r
}

/// Append the moves of positioned windows.
fn push_moves(effects: &mut Vec<Effect>, pos: &Vec<(u64, Rect)>)
    ensures
        final(effects)@ == old(effects)@ + moves(pos@),
{
    let ghost start = effects@;
    for i in 0..pos.len()
        invariant
            effects@ == start + moves(pos@.take(i as int)),
    {
        let (id, r) = pos[i];
        effects.push(
            Effect::MoveResize { window_id: id, x: r.x, y: r.y, width: r.width, height: r.height },
        );
        assert(moves(pos@.take(i + 1)) =~= moves(pos@.take(i as int)).push(move_to(id, r)));
    }
    assert(pos@.take(pos@.len() as int) =~= pos@);
}

/// Append moves of every id to one rectangle.
fn push_moves_all_to(effects: &mut Vec<Effect>, ids: &Vec<u64>, r: Rect)
    ensures
        final(effects)@ == old(effects)@ + moves_all_to(ids@, r),
{
    let ghost start = effects@;
    for i in 0..ids.len()
        invariant
            effects@ == start + moves_all_to(ids@.take(i as int), r),
    {
        effects.push(
            Effect::MoveResize {
                window_id: ids[i],
                x: r.x,
                y: r.y,
                width: r.width,
                height: r.height,
            },
        );
        assert(moves_all_to(ids@.take(i + 1), r) =~= moves_all_to(ids@.take(i as int), r).push(
            move_to(ids@[i as int], r),
        ));
    }
    assert(ids@.take(ids@.len() as int) =~= ids@);
}

/// Append, for each of `ids` in order, its move to `r` and then its
/// relocation to monitor `target`.
fn push_returns_to(effects: &mut Vec<Effect>, ids: &Vec<u64>, r: Rect, target: u32)
    ensures
        final(effects)@ == old(effects)@ + returns_to(ids@, r, target),
{
    let ghost start = effects@;
    for i in 0..ids.len()
        invariant
            effects@ == start + returns_to(ids@.take(i as int), r, target),
    {
        let w = ids[i];
        effects.push(Effect::MoveResize { window_id: w, x: r.x, y: r.y, width: r.width, height: r.height });
        effects.push(Effect::Relocate { window_id: w, monitor_id: target });
        proof {
            assert(ids@.take(i + 1).drop_last() =~= ids@.take(i as int));
            assert(ids@.take(i + 1).last() == w);
            assert(effects@ =~= start + returns_to(ids@.take(i + 1), r, target));
        }
    }
    assert(ids@.take(ids@.len() as int) =~= ids@);
}

/// Append raises of the positioned windows, last to first.
fn push_raises_reversed(effects: &mut Vec<Effect>, pos: &Vec<(u64, Rect)>)
    ensures
        final(effects)@ == old(effects)@ + raises_reversed(pos@),
{
    let ghost start = effects@;
    let n = pos.len();
    let mut k: usize = 0;
    while k < n
        invariant
            n == pos@.len(),
            k <= n,
            effects@.len() == start.len() + k,
            forall|j: int| 0 <= j < start.len() ==> effects@[j] == start[j],
            forall|j: int|
                0 <= j < k ==> #[trigger] effects@[start.len() + j] == Effect::Raise(
                    pos@[n - 1 - j].0,
                ),
        decreases n - k,
    {
        effects.push(Effect::Raise(pos[n - 1 - k].0));
        k = k + 1;
    }
    assert forall|i: int| 0 <= i < effects@.len() implies effects@[i] == (start
        + raises_reversed(pos@))[i] by {
        if i >= start.len() {
            let j = i - start.len();
            assert(effects@[start.len() + j] == Effect::Raise(pos@[n - 1 - j].0));
        }
    }
    assert(effects@ =~= start + raises_reversed(pos@));
}

impl<P> View for TilingEngine<P> {
    type V = EngineModel;

    closed spec fn view(&self) -> EngineModel {
        EngineModel {
            stack_position: self.stack_position,
            stack_index: self.stack_screen_index,
            monitors: self.monitors@,
            windows: self.windows@,
            desktops: desktop_views(self.desktops@),
            active_workspace: self.active_workspace,
            focused: self.focused_window_id,
            menu: self.menu,
            is_tiling: self.is_tiling,
            visited: self.visited_workspaces@,
        }
    }
}

impl<P> TilingEngine<P> {
    /// The compositor proxy the engine holds.
    pub closed spec fn spec_proxy(&self) -> P {
        self.proxy
    }

    /// When the last tiling batch ended, if one did.
    pub closed spec fn spec_tiling_end(&self) -> Option<Instant> {
        self.last_tiling_end
    }

    /// The engine's state is well formed.
    pub open spec fn wf(&self) -> bool {
        self@.wf()
    }

    /// The stack screen's monitor ID.
    fn stack_monitor_id(&self) -> (r: u32)
        ensures
            r == self@.stack_id(),
    {
        self.stack_screen_index as u32
    }

    fn stack_screen_rect(&self) -> (r: Option<Rect>)
        ensures
            r == self@.stack_rect(),
    {
        if self.stack_screen_index < self.monitors.len() {
            let m = &self.monitors[self.stack_screen_index];
            Some(Rect { x: m.x, y: m.y, width: m.width, height: m.height })
        } else {
            None
        }
    }

    /// Look up a monitor's geometry by ID.
    fn monitor_rect(&self, monitor_id: u32) -> (r: Option<Rect>)
        ensures
            r == self@.monitor_rect(monitor_id),
    {
        let ghost ms = self.monitors@;
        let mut i: usize = 0;
        while i < self.monitors.len()
            invariant
                ms == self.monitors@,
                i <= ms.len(),
                find_monitor(ms.take(i as int), monitor_id) is None,
            decreases ms.len() - i,
        {
            assert(ms.take(i + 1).drop_last() =~= ms.take(i as int));
            let m = &self.monitors[i];
            if m.id == monitor_id {
                proof {
                    let t = ms.take(i + 1);
                    assert(t.last() == ms[i as int]);
                    assert(find_monitor(t, monitor_id) == Some(ms[i as int]));
                    lemma_find_monitor_extend(ms, monitor_id, i as int + 1);
                }
                return Some(Rect { x: m.x, y: m.y, width: m.width, height: m.height });
            }
            i = i + 1;
        }
        assert(ms.take(ms.len() as int) =~= ms);
        None
    }

    /// Collect window IDs from the desktop's stack that are currently tracked
    /// on `monitor_id`, preserving stack order.
    fn windows_on_monitor(&self, workspace_id: u32, monitor_id: u32) -> (r: Vec<u64>)
        ensures
            r@ == self@.windows_on_monitor(workspace_id, monitor_id),
    {
        let mut r: Vec<u64> = Vec::new();
        match self.desktops.get(&workspace_id) {
            None => r,
            Some(d) => {
                let ghost s = d.stack_windows@;
                let ghost p = tracked_on(self.windows@, monitor_id);
                for i in 0..d.stack_windows.len()
                    invariant
                        s == d.stack_windows@,
                        r@ == s.take(i as int).filter(p),
                        p == tracked_on(self.windows@, monitor_id),
                {
                    proof {
                        lemma_filter_take_step(s, p, i as int);
                    }
                    let wid = d.stack_windows[i];
                    match self.windows.get(&wid) {
                        Some(w) => {
                            if w.monitor_id == monitor_id {
                                r.push(wid);
                            }
                        },
                        None => {},
                    }
                }
                proof {
                    lemma_take_full(s);
                }
                r
            },
        }
    }

    /// Remove the workspace's desktop, or make a fresh one if it has none.
    fn take_desktop(&mut self, ws: u32) -> (d: VirtualDesktop)
        ensures
            d@ == old(self)@.desktop_or_new(ws),
            final(self)@ == (EngineModel { desktops: old(self)@.desktops.remove(ws), ..old(self)@ }),
            final(self).spec_proxy() == old(self).spec_proxy(),
            final(self)@.monitors == old(self)@.monitors,
            final(self)@.stack_index == old(self)@.stack_index,
            final(self).spec_tiling_end() == old(self).spec_tiling_end(),
    {
        let ghost before = self.desktops@;
        let r = match self.desktops.remove(&ws) {
            Some(d) => d,
            None => VirtualDesktop::new(ws),
        };
        assert(desktop_views(self.desktops@) =~= desktop_views(before).remove(ws));
        r
    }

    /// Store a desktop for the workspace.
    fn put_desktop(&mut self, ws: u32, d: VirtualDesktop)
        ensures
            final(self)@ == old(self)@.with_desktop(ws, d@),
            final(self).spec_proxy() == old(self).spec_proxy(),
            final(self)@.monitors == old(self)@.monitors,
            final(self)@.stack_index == old(self)@.stack_index,
            final(self).spec_tiling_end() == old(self).spec_tiling_end(),
    {
        let ghost before = self.desktops@;
        self.desktops.insert(ws, d);
        proof {
            lemma_desktop_views_insert(before, ws, d);
        }
    }

    /// Remove orphaned window IDs from the desktop's `stack_windows` that are
    /// no longer present in the engine's tracked windows map.
    fn prune_desktop(&mut self, workspace_id: u32)
        ensures
            final(self)@ == old(self)@.pruned(workspace_id),
            final(self).spec_proxy() == old(self).spec_proxy(),
            final(self)@.monitors == old(self)@.monitors,
            final(self)@.stack_index == old(self)@.stack_index,
            final(self).spec_tiling_end() == old(self).spec_tiling_end(),
    {
        let ghost before = self.desktops@;
        match self.desktops.remove(&workspace_id) {
            None => {
                assert(self.desktops@ =~= before);
            },
            Some(mut d) => {
                let ghost s = d.stack_windows@;
                let ghost p = member_of(self.windows@.dom());
                let mut kept: Vec<u64> = Vec::new();
                for i in 0..d.stack_windows.len()
                    invariant
                        s == d.stack_windows@,
                        kept@ == s.take(i as int).filter(p),
                        p == member_of(self.windows@.dom()),
                {
                    proof {
                        lemma_filter_take_step(s, p, i as int);
                    }
                    let wid = d.stack_windows[i];
                    if self.windows.contains_key(&wid) {
                        kept.push(wid);
                    }
                }
                proof {
                    lemma_take_full(s);
                }
                d.stack_windows = kept;
                self.desktops.insert(workspace_id, d);
                proof {
                    assert(self.desktops@ =~= before.insert(workspace_id, d));
                    lemma_desktop_views_insert(before, workspace_id, d);
                }
            },
        }
    }

    /// Record that a tracked window is now on monitor `m`.
    fn set_window_monitor(&mut self, w: u64, m: u32)
        ensures
            final(self)@ == old(self)@.with_window_on(w, m),
            final(self).spec_proxy() == old(self).spec_proxy(),
            final(self)@.monitors == old(self)@.monitors,
            final(self)@.stack_index == old(self)@.stack_index,
            final(self).spec_tiling_end() == old(self).spec_tiling_end(),
    {
        match self.windows.get(&w) {
            Some(t) => {
                let updated = TrackedWindow { monitor_id: m, ..*t };
                self.windows.insert(w, updated);
            },
            None => {},
        }
    }

    /// Record that each tracked window of `ids` is now on monitor `target`.
    fn relocate_windows(&mut self, ids: &Vec<u64>, target: u32)
        ensures
            final(self)@ == (EngineModel {
                windows: relocated(old(self)@.windows, ids@, target),
                ..old(self)@
            }),
            final(self).spec_proxy() == old(self).spec_proxy(),
            final(self)@.monitors == old(self)@.monitors,
            final(self)@.stack_index == old(self)@.stack_index,
            final(self).spec_tiling_end() == old(self).spec_tiling_end(),
    {
        let ghost w0 = self.windows@;
        assert(relocated(w0, ids@.take(0), target) =~= w0);
        for i in 0..ids.len()
            invariant
                self.windows@ == relocated(w0, ids@.take(i as int), target),
                self@ == (EngineModel {
                    windows: self.windows@,
                    ..old(self)@
                }),
                self.spec_proxy() == old(self).spec_proxy(),
                self.spec_tiling_end() == old(self).spec_tiling_end(),
        {
            let id = ids[i];
            let ghost cur = self.windows@;
            self.set_window_monitor(id, target);
            assert(ids@.take(i + 1) =~= ids@.take(i as int).push(id));
            assert forall|k: u64| #[trigger] self.windows@.contains_key(k) implies self.windows@[k]
                == relocated(w0, ids@.take(i + 1), target)[k] by {
                if k != id {
                    assert(ids@.take(i + 1).contains(k) == ids@.take(i as int).contains(k)) by {
                        if ids@.take(i + 1).contains(k) {
                            let j = choose|j: int| 0 <= j < i + 1 && #[trigger] ids@.take(i + 1)[j] == k;
                            assert(ids@.take(i as int)[j] == k);
                        }
                    }
                } else {
                    assert(ids@.take(i + 1)[i as int] == k);
                }
            }
            assert(self.windows@ =~= relocated(w0, ids@.take(i + 1), target));
        }
        assert(ids@.take(ids@.len() as int) =~= ids@);
    }

    /// Compute layout positions for a preset.
    fn compute_positions(preset: LayoutPreset, window_ids: &Vec<u64>, rect: Rect) -> (r: Vec<(u64, Rect)>)
        requires
            splits_fit(rect),
        ensures
            r@ == preset_positions(preset, window_ids@, rect),
    {
        match preset {
            LayoutPreset::Fullscreen => apply_fullscreen(window_ids.as_slice(), rect),
            LayoutPreset::SideBySide => apply_side_by_side(window_ids.as_slice(), rect),
            LayoutPreset::TopBottom => apply_top_bottom(window_ids.as_slice(), rect),
            LayoutPreset::Quadrants => apply_quadrants(window_ids.as_slice(), rect),
        }
    }

    /// Tile all stack windows for a given workspace.
    fn tile_stack(&mut self, workspace_id: u32, effects: &mut Vec<Effect>)
        requires
            old(self).wf(),
        ensures
            final(self)@ == old(self)@.tile_stack(workspace_id).0,
            final(effects)@ == old(effects)@ + old(self)@.tile_stack(workspace_id).1,
            final(self).spec_proxy() == old(self).spec_proxy(),
            final(self)@.monitors == old(self)@.monitors,
            final(self)@.stack_index == old(self)@.stack_index,
            final(self).spec_tiling_end() == old(self).spec_tiling_end(),
    {
        let screen = match self.stack_screen_rect() {
            None => return,
            Some(r) => r,
        };
        assert(geometry_fits(self.monitors@[self.stack_screen_index as int]));
        let ghost start = effects@;
        self.prune_desktop(workspace_id);
        let ids = self.windows_on_monitor(workspace_id, self.stack_monitor_id());
        let positions = stack_layout(ids.as_slice(), screen);
        effects.push(Effect::BeginTiling);
        effects.push(Effect::Prune(workspace_id));
        push_moves(effects, &positions);
        let excess = excess_ids(&ids, &positions);
        push_moves_all_to(effects, &excess, screen);
        push_raises_reversed(effects, &positions);
        effects.push(Effect::FinishTiling);
        proof {
            let pos = positions@;
            assert(effects@ =~= start + (seq![Effect::BeginTiling, Effect::Prune(workspace_id)] + moves(pos)
                + moves_all_to(excess_of(ids@, pos), screen) + raises_reversed(pos)
                + seq![Effect::FinishTiling]));
        }
    }

    /// Apply the current layout preset for a monitor, positioning all windows.
    fn apply_layout_to_monitor(&mut self, workspace_id: u32, monitor_id: u32, effects: &mut Vec<Effect>)
        requires
            old(self).wf(),
        ensures
            final(self)@ == old(self)@.apply_layout(workspace_id, monitor_id).0,
            final(effects)@ == old(effects)@ + old(self)@.apply_layout(workspace_id, monitor_id).1,
            final(self).spec_proxy() == old(self).spec_proxy(),
            final(self)@.monitors == old(self)@.monitors,
            final(self)@.stack_index == old(self)@.stack_index,
            final(self).spec_tiling_end() == old(self).spec_tiling_end(),
    {
        let ghost s0 = self@;
        let ghost start0 = effects@;
        self.prune_desktop(workspace_id);
        effects.push(Effect::Prune(workspace_id));
        let ghost start = effects@;
        let ghost s1 = self@;
        proof {
            assert(start =~= start0 + seq![Effect::Prune(workspace_id)]);
            assert(start + Seq::<Effect>::empty() =~= start);
        }
        let preset = match self.desktops.get(&workspace_id) {
            None => return,
            Some(d) => match d.get_layout(monitor_id) {
                None => return,
                Some(p) => p,
            },
        };
        let rect = match self.monitor_rect(monitor_id) {
            None => return,
            Some(r) => r,
        };
        proof {
            lemma_find_monitor_member(self.monitors@, monitor_id);
        }
        let ids = self.windows_on_monitor(workspace_id, monitor_id);
        if ids.len() == 0 {
            return;
        }
        let positions = Self::compute_positions(preset, &ids, rect);
        effects.push(Effect::BeginTiling);
        push_moves(effects, &positions);
        let excess = excess_ids(&ids, &positions);
        let stack_id = self.stack_monitor_id();
        let is_on_stack = monitor_id == stack_id;
        if is_on_stack {
            // On the stack screen itself, stash behind (can't return to self)
            push_moves_all_to(effects, &excess, rect);
        } else {
            match self.stack_screen_rect() {
                Some(stack_rect) => {
                    push_returns_to(effects, &excess, stack_rect, stack_id);
                    self.relocate_windows(&excess, stack_id);
                },
                None => {},
            }
        }
        push_raises_reversed(effects, &positions);
        effects.push(Effect::FinishTiling);
        let ghost mid = effects@;
        proof {
            let pos = positions@;
            let ex = excess_of(ids@, pos);
            let excess_effects = if is_on_stack {
                moves_all_to(ex, rect)
            } else {
                match s1.stack_rect() {
                    Some(sr) => returns_to(ex, sr, s1.stack_id()),
                    None => Seq::empty(),
                }
            };
            assert(mid =~= start + (seq![Effect::BeginTiling] + moves(pos) + excess_effects
                + raises_reversed(pos) + seq![Effect::FinishTiling]));
        }
        // If excess windows were returned to the stack, retile it
        if !is_on_stack && excess.len() > 0 {
            self.tile_stack(workspace_id, effects);
        }
        proof {
            assert(effects@ =~= start0 + (seq![Effect::Prune(workspace_id)] + effects@.subrange(
                start.len() as int,
                effects@.len() as int,
            )));
        }
    }

    /// Move a window to the front of a workspace's stack.
    fn push_to_desktop(&mut self, ws: u32, w: u64)
        ensures
            final(self)@ == old(self)@.pushed(ws, w),
            final(self).spec_proxy() == old(self).spec_proxy(),
            final(self)@.monitors == old(self)@.monitors,
            final(self)@.stack_index == old(self)@.stack_index,
            final(self).spec_tiling_end() == old(self).spec_tiling_end(),
    {
        let mut d = self.take_desktop(ws);
        d.push_window(w);
        self.put_desktop(ws, d);
        assert(self@ =~= old(self)@.pushed(ws, w));
    }

    /// Move a window to the back of a workspace's stack.
    fn append_to_desktop(&mut self, ws: u32, w: u64)
        ensures
            final(self)@ == old(self)@.appended(ws, w),
            final(self).spec_proxy() == old(self).spec_proxy(),
            final(self)@.monitors == old(self)@.monitors,
            final(self)@.stack_index == old(self)@.stack_index,
            final(self).spec_tiling_end() == old(self).spec_tiling_end(),
    {
        let mut d = self.take_desktop(ws);
        d.append_window(w);
        self.put_desktop(ws, d);
        assert(self@ =~= old(self)@.appended(ws, w));
    }

    /// Take a window out of a workspace's stack.
    fn remove_from_desktop(&mut self, ws: u32, w: u64)
        ensures
            final(self)@ == old(self)@.removed(ws, w),
            final(self).spec_proxy() == old(self).spec_proxy(),
            final(self)@.monitors == old(self)@.monitors,
            final(self)@.stack_index == old(self)@.stack_index,
            final(self).spec_tiling_end() == old(self).spec_tiling_end(),
    {
        let mut d = self.take_desktop(ws);
        d.remove_window(w);
        self.put_desktop(ws, d);
        assert(self@ =~= old(self)@.removed(ws, w));
    }

    /// Set enforcement on a monitor of a workspace.
    fn set_desktop_enforcement(&mut self, ws: u32, m: u32, on: bool)
        ensures
            final(self)@ == old(self)@.with_desktop(
                ws,
                DesktopView {
                    enforcement: old(self)@.desktop_or_new(ws).enforcement.insert(m, on),
                    ..old(self)@.desktop_or_new(ws)
                },
            ),
            final(self).spec_proxy() == old(self).spec_proxy(),
            final(self)@.monitors == old(self)@.monitors,
            final(self)@.stack_index == old(self)@.stack_index,
            final(self).spec_tiling_end() == old(self).spec_tiling_end(),
    {
        let mut d = self.take_desktop(ws);
        d.set_enforcement(m, on);
        self.put_desktop(ws, d);
        assert(self@ =~= old(self)@.with_desktop(
            ws,
            DesktopView {
                enforcement: old(self)@.desktop_or_new(ws).enforcement.insert(m, on),
                ..old(self)@.desktop_or_new(ws)
            },
        ));
    }

    /// Set the preset of a monitor on a workspace.
    fn set_desktop_layout(&mut self, ws: u32, m: u32, preset: LayoutPreset)
        ensures
            final(self)@ == old(self)@.with_desktop(
                ws,
                DesktopView {
                    layouts: old(self)@.desktop_or_new(ws).layouts.insert(m, preset),
                    ..old(self)@.desktop_or_new(ws)
                },
            ),
            final(self).spec_proxy() == old(self).spec_proxy(),
            final(self)@.monitors == old(self)@.monitors,
            final(self)@.stack_index == old(self)@.stack_index,
            final(self).spec_tiling_end() == old(self).spec_tiling_end(),
    {
        let mut d = self.take_desktop(ws);
        d.set_layout(m, preset);
        self.put_desktop(ws, d);
        assert(self@ =~= old(self)@.with_desktop(
            ws,
            DesktopView {
                layouts: old(self)@.desktop_or_new(ws).layouts.insert(m, preset),
                ..old(self)@.desktop_or_new(ws)
            },
        ));
    }

    /// Move a window to the stack screen, update tracking, and retile.
    fn move_to_stack(&mut self, window_id: u64, workspace_id: u32, effects: &mut Vec<Effect>)
        requires
            old(self).wf(),
        ensures
            final(self)@ == old(self)@.move_to_stack(window_id, workspace_id).0,
            final(effects)@ == old(effects)@ + old(self)@.move_to_stack(window_id, workspace_id).1,
            final(self).spec_proxy() == old(self).spec_proxy(),
            final(self)@.monitors == old(self)@.monitors,
            final(self)@.stack_index == old(self)@.stack_index,
            final(self).spec_tiling_end() == old(self).spec_tiling_end(),
    {
        let rect = match self.stack_screen_rect() {
            None => return,
            Some(r) => r,
        };
        let ghost start = effects@;
        effects.push(
            Effect::MoveResize {
                window_id,
                x: rect.x,
                y: rect.y,
                width: rect.width,
                height: rect.height,
            },
        );
        let stack_id = self.stack_monitor_id();
        effects.push(Effect::Relocate { window_id, monitor_id: stack_id });
        self.set_window_monitor(window_id, stack_id);
        let ghost mid = effects@;
        self.tile_stack(workspace_id, effects);
        assert(effects@ =~= start + (seq![
            move_to(window_id, rect),
            Effect::Relocate { window_id, monitor_id: stack_id },
        ] + (effects@.subrange(mid.len() as int, effects@.len() as int))));
    }
}

/// Well-formedness depends on the monitors alone.
proof fn lemma_wf_kept(a: EngineModel, b: EngineModel)
    requires
        a.wf(),
        a.monitors == b.monitors,
    ensures
        b.wf(),
{
}

/// The monitor found is one of the monitors.
proof fn lemma_find_monitor_member(ms: Seq<MonitorInfo>, id: u32)
    requires
        find_monitor(ms, id) is Some,
    ensures
        exists|i: int| 0 <= i < ms.len() && ms[i] == find_monitor(ms, id)->0,
    decreases ms.len(),
{
    if ms.len() > 0 {
        if find_monitor(ms.drop_last(), id) is Some {
            lemma_find_monitor_member(ms.drop_last(), id);
            let i = choose|i: int| 0 <= i < ms.drop_last().len() && ms.drop_last()[i] == find_monitor(ms.drop_last(), id)->0;
            assert(ms[i] == find_monitor(ms, id)->0);
        } else {
            assert(ms[ms.len() - 1] == find_monitor(ms, id)->0);
        }
    }
}

/// Once a prefix has a match, longer prefixes have the same one.
proof fn lemma_find_monitor_extend(ms: Seq<MonitorInfo>, id: u32, k: int)
    requires
        0 <= k <= ms.len(),
        find_monitor(ms.take(k), id) is Some,
    ensures
        find_monitor(ms, id) == find_monitor(ms.take(k), id),
    decreases ms.len() - k,
{
    if k < ms.len() {
        assert(ms.take(k + 1).drop_last() =~= ms.take(k));
        lemma_find_monitor_extend(ms, id, k + 1);
    } else {
        assert(ms.take(k) =~= ms);
    }
}

} // verus!

verus! {

impl<P> TilingEngine<P> {
    /// Create a new engine with no monitors, windows or desktops; call the
    /// startup steps before dispatching events.
    ///
    /// `stack_position` determines which monitor (by position) is used as the
    /// stack tiling screen. The actual index is resolved during startup
    /// once monitors are loaded.
    pub fn new(proxy: P, stack_position: StackScreenPosition) -> (r: Self)
        ensures
            r@ == (EngineModel {
                stack_position,
                stack_index: 0,
                monitors: Seq::empty(),
                windows: Map::empty(),
                desktops: Map::empty(),
                active_workspace: 0,
                focused: None,
                menu: MenuState::Closed,
                is_tiling: false,
                visited: Set::empty(),
            }),
            r.spec_proxy() == proxy,
            r.spec_tiling_end() is None,
            r.wf(),
    {
        let r = Self {
            proxy,
            stack_position,
            stack_screen_index: 0,
            monitors: Vec::new(),
            windows: HashMap::new(),
            desktops: HashMap::new(),
            active_workspace: 0,
            focused_window_id: None,
            menu: MenuState::Closed,
            is_tiling: false,
            last_tiling_end: None,
            visited_workspaces: HashSet::new(),
        };
        assert(desktop_views(r.desktops@) =~= Map::empty());
        r
    }

    /// Returns a reference to the underlying compositor proxy.
    pub fn proxy(&self) -> (r: &P)
        ensures
            *r == self.spec_proxy(),
    {
        &self.proxy
    }

    /// Returns a mutable reference to the underlying compositor proxy.
    pub fn proxy_mut(&mut self) -> (r: &mut P)
        ensures
            *r == old(self).spec_proxy(),
            final(self).spec_proxy() == *final(r),
            final(self)@ == old(self)@,
            final(self).spec_tiling_end() == old(self).spec_tiling_end(),
    {
        &mut self.proxy
    }

    /// Returns `true` while the engine is actively repositioning windows.
    pub fn is_tiling(&self) -> (r: bool)
        ensures
            r == self@.is_tiling,
    {
        self.is_tiling
    }

    /// Set the tiling guard. While `true`, geometry-change events are suppressed.
    pub fn set_tiling(&mut self, value: bool)
        ensures
            final(self)@ == (EngineModel { is_tiling: value, ..old(self)@ }),
            final(self).spec_proxy() == old(self).spec_proxy(),
            final(self).spec_tiling_end() == old(self).spec_tiling_end(),
    {
        self.is_tiling = value;
    }

    /// A tiling batch starts ([`Effect::BeginTiling`]).
    pub fn begin_tiling(&mut self)
        ensures
            final(self)@ == (EngineModel { is_tiling: true, ..old(self)@ }),
            final(self).spec_proxy() == old(self).spec_proxy(),
            final(self).spec_tiling_end() == old(self).spec_tiling_end(),
    {
        self.is_tiling = true;
    }

    /// Mark tiling as complete and record the time for the grace period
    /// ([`Effect::FinishTiling`]).
    pub fn finish_tiling(&mut self)
        ensures
            final(self)@ == (EngineModel { is_tiling: false, ..old(self)@ }),
            final(self).spec_proxy() == old(self).spec_proxy(),
            final(self).spec_tiling_end() is Some,
    {
        self.is_tiling = false;
        self.last_tiling_end = Some(instant_now());
    }

    /// Clear the post-tiling grace period so geometry enforcement resumes
    /// immediately. Useful in tests where there is no real async delay.
    pub fn clear_tiling_grace(&mut self)
        ensures
            final(self)@ == old(self)@,
            final(self).spec_proxy() == old(self).spec_proxy(),
            final(self).spec_tiling_end() is None,
    {
        self.last_tiling_end = None;
    }

    /// Make the state change an effect stands for ([`Effect::Prune`],
    /// [`Effect::Relocate`], [`Effect::PushFront`], [`Effect::SetLayout`],
    /// [`Effect::SetEnforcement`]); any other effect changes nothing here.
    /// The daemon calls this for each such effect when it reaches it, so a
    /// compositor request that fails leaves out the changes after it.
    pub fn apply_update(&mut self, e: Effect)
        ensures
            final(self)@ == old(self)@.updated(e),
            final(self)@.monitors == old(self)@.monitors,
            final(self).spec_proxy() == old(self).spec_proxy(),
            final(self).spec_tiling_end() == old(self).spec_tiling_end(),
    {
        match e {
            Effect::Prune(ws) => self.prune_desktop(ws),
            Effect::Relocate { window_id, monitor_id } => self.set_window_monitor(window_id, monitor_id),
            Effect::PushFront { workspace_id, window_id } => self.push_to_desktop(workspace_id, window_id),
            Effect::SetLayout { workspace_id, monitor_id, preset } => {
                self.set_desktop_layout(workspace_id, monitor_id, preset)
            },
            Effect::SetEnforcement { workspace_id, monitor_id, enforced } => {
                self.set_desktop_enforcement(workspace_id, monitor_id, enforced)
            },
            _ => {},
        }
    }

    /// Returns a mutable reference to the virtual desktop for `ws`, creating it if absent.
    pub fn desktop_mut(&mut self, ws: u32) -> (r: &mut VirtualDesktop)
        ensures
            r@ == old(self)@.desktop_or_new(ws),
            final(self)@ == old(self)@.with_desktop(ws, final(r)@),
            final(self).spec_proxy() == old(self).spec_proxy(),
            final(self).spec_tiling_end() == old(self).spec_tiling_end(),
    {
        let ghost before = self.desktops@;
        let r = self.desktops.entry(ws).or_insert(VirtualDesktop::new(ws));
        proof {
            lemma_desktop_views_insert(before, ws, *final(r));
        }
        r
    }

    /// Returns a read-only reference to the virtual desktop for `ws`, or `None`
    /// if it has not been created yet.
    pub fn desktop_ref(&self, ws: u32) -> (r: Option<&VirtualDesktop>)
        ensures
            match r {
                Some(d) => self@.desktops.contains_key(ws) && d@ == self@.desktops[ws],
                None => !self@.desktops.contains_key(ws),
            },
    {
        self.desktops.get(&ws)
    }

    /// The monitors loaded at startup.
    pub fn monitors(&self) -> (r: &Vec<MonitorInfo>)
        ensures
            r@ == self@.monitors,
    {
        &self.monitors
    }

    /// Returns the current menu state.
    pub fn menu_state(&self) -> (r: MenuState)
        ensures
            r == self@.menu,
    {
        self.menu
    }

    /// Override the menu state directly (used by CLI commands to bypass the menu UI).
    pub fn set_menu_state(&mut self, state: MenuState)
        ensures
            final(self)@ == (EngineModel { menu: state, ..old(self)@ }),
            final(self).spec_proxy() == old(self).spec_proxy(),
            final(self).spec_tiling_end() == old(self).spec_tiling_end(),
    {
        self.menu = state;
    }

    /// Returns the currently active workspace ID.
    pub fn active_workspace(&self) -> (r: u32)
        ensures
            r == self@.active_workspace,
    {
        self.active_workspace
    }

    /// Returns the currently focused window ID, or `None` if no window has focus.
    pub fn focused_window_id(&self) -> (r: Option<u64>)
        ensures
            r == self@.focused,
    {
        self.focused_window_id
    }

    /// Updates the focused window ID. Called when the compositor reports a focus change.
    ///
    /// Stores any window ID unconditionally: a focus signal may arrive before
    /// the corresponding window-opened event.
    pub fn handle_focus_changed(&mut self, window_id: u64)
        ensures
            final(self)@ == (EngineModel { focused: Some(window_id), ..old(self)@ }),
            final(self).spec_proxy() == old(self).spec_proxy(),
            final(self).spec_tiling_end() == old(self).spec_tiling_end(),
    {
        self.focused_window_id = Some(window_id);
    }
}

} // verus!

verus! {

impl<P> TilingEngine<P> {
    /// Check if a window type string represents a toplevel window.
    fn is_toplevel_type(wtype: &str) -> (r: bool)
        ensures
            r == is_toplevel_name(wtype@),
    {
        str_equals(wtype, "toplevel")
    }

    /// First startup step: load the monitors and resolve the stack screen.
    /// Fails when there are no monitors (the monitors are still recorded).
    pub fn begin_startup(&mut self, monitors: Vec<MonitorInfo>) -> (r: Result<(), StartupError>)
        requires
            forall|i: int| 0 <= i < monitors@.len() ==> geometry_fits(#[trigger] monitors@[i]),
        ensures
            final(self)@ == (EngineModel {
                monitors: monitors@,
                stack_index: final(self)@.stack_index,
                ..old(self)@
            }),
            r is Err <==> monitors@.len() == 0,
            r is Err ==> r == Err::<(), StartupError>(StartupError::NoMonitors)
                && final(self)@.stack_index == old(self)@.stack_index,
            r is Ok ==> picks(old(self)@.stack_position, monitors@, final(self)@.stack_index as int),
            final(self).wf(),
            final(self).spec_proxy() == old(self).spec_proxy(),
            final(self).spec_tiling_end() == old(self).spec_tiling_end(),
    {
        self.monitors = monitors;
        if self.monitors.len() == 0 {
            return Err(StartupError::NoMonitors);
        }
        match self.stack_position.resolve_index(self.monitors.as_slice()) {
            Some(i) => {
                self.stack_screen_index = i;
                Ok(())
            },
            None => Err(StartupError::NoMonitors),
        }
    }

    /// Record the active workspace found at startup and track the listed
    /// windows (toplevel, non-fullscreen ones join the back of their
    /// workspace's stack), without tiling. The daemon calls this alone when
    /// a compositor query fails part-way, with the windows queried so far.
    pub fn register_startup_windows(&mut self, active_workspace: u32, windows: &Vec<ListedWindow>)
        requires
            old(self).wf(),
        ensures
            final(self)@ == old(self)@.registered_at_startup(active_workspace, windows@),
            final(self).wf(),
            final(self).spec_proxy() == old(self).spec_proxy(),
            final(self).spec_tiling_end() == old(self).spec_tiling_end(),
    {
        self.active_workspace = active_workspace;
        let ghost s1 = self@;
        assert(self@.monitors == old(self)@.monitors);
        assert(self.wf());
        for i in 0..windows.len()
            invariant
                self@ == s1.registered_all(windows@.take(i as int)),
                self@.monitors == old(self)@.monitors,
                self.wf(),
                s1.wf(),
                self.spec_proxy() == old(self).spec_proxy(),
                self.spec_tiling_end() == old(self).spec_tiling_end(),
        {
            let w = &windows[i];
            let is_tl = Self::is_toplevel_type(w.window_type.as_str());
            if is_tl && !w.is_fullscreen {
                self.append_to_desktop(w.workspace_id, w.id);
            }
            self.windows.insert(
                w.id,
                TrackedWindow {
                    workspace_id: w.workspace_id,
                    monitor_id: w.monitor_id,
                    is_fullscreen: w.is_fullscreen,
                    is_toplevel: is_tl,
                },
            );
            assert(windows@.take(i + 1).drop_last() =~= windows@.take(i as int));
        }
        assert(windows@.take(windows@.len() as int) =~= windows@);
    }

    /// Complete startup: mark the active workspace visited and tile its stack.
    pub fn complete_startup(&mut self) -> (r: Vec<Effect>)
        requires
            old(self).wf(),
        ensures
            final(self)@ == old(self)@.startup_committed(),
            r@ == old(self)@.startup_completed().1,
            final(self)@.replayed(r@) == old(self)@.startup_completed().0,
            final(self).spec_proxy() == old(self).spec_proxy(),
            final(self).spec_tiling_end() == old(self).spec_tiling_end(),
    {
        let active = self.active_workspace;
        self.visited_workspaces.insert(active);
        let mut effects: Vec<Effect> = Vec::new();
        let ghost committed = self@;
        let saved_windows = self.windows.clone();
        let saved_desktops = self.desktops.clone();
        proof { lemma_wf_kept(old(self)@, self@); }
        self.tile_stack(active, &mut effects);
        self.windows = saved_windows;
        self.desktops = saved_desktops;
        proof {
            lemma_replay_startup(old(self)@);
            lemma_replay_frame(committed, effects@);
            assert(self@ =~= committed);
        }
        effects
    }

    /// Second startup step: record the active workspace, track every listed
    /// window (toplevel, non-fullscreen ones join the back of their
    /// workspace's stack), mark the workspace visited and tile its stack.
    pub fn finish_startup(&mut self, active_workspace: u32, windows: &Vec<ListedWindow>) -> (r: Vec<Effect>)
        requires
            old(self).wf(),
        ensures
            final(self)@ == old(self)@.registered_at_startup(active_workspace, windows@).startup_committed(),
            r@ == old(self)@.started(active_workspace, windows@).1,
            final(self)@.replayed(r@) == old(self)@.started(active_workspace, windows@).0,
            final(self).spec_proxy() == old(self).spec_proxy(),
            final(self).spec_tiling_end() == old(self).spec_tiling_end(),
    {
        self.register_startup_windows(active_workspace, windows);
        self.complete_startup()
    }

    /// Handle a new window opening on `monitor_id`, given the type the
    /// compositor reports for it and whether it is fullscreen.
    pub fn handle_window_opened(
        &mut self,
        window_id: u64,
        _title: String,
        _app_class: String,
        monitor_id: u32,
        window_type: &str,
        is_fullscreen: bool,
    ) -> (r: Vec<Effect>)
        requires
            old(self).wf(),
        ensures
            final(self)@ == old(self)@.window_opened_committed(window_id, monitor_id, is_toplevel_name(window_type@), is_fullscreen),
            r@ == old(self)@.window_opened(window_id, monitor_id, is_toplevel_name(window_type@), is_fullscreen).1,
            final(self)@.replayed(r@) == old(self)@.window_opened(window_id, monitor_id, is_toplevel_name(window_type@), is_fullscreen).0,
            final(self).spec_proxy() == old(self).spec_proxy(),
            final(self).spec_tiling_end() == old(self).spec_tiling_end(),
    {
        let is_tl = Self::is_toplevel_type(window_type);
        let mut effects: Vec<Effect> = Vec::new();
        self.windows.insert(
            window_id,
            TrackedWindow {
                workspace_id: self.active_workspace,
                monitor_id,
                is_fullscreen,
                is_toplevel: is_tl,
            },
        );
        if !is_tl || is_fullscreen {
            return effects;
        }
        let ws = self.active_workspace;
        self.push_to_desktop(ws, window_id);
        let ghost committed = self@;
        let saved_windows = self.windows.clone();
        let saved_desktops = self.desktops.clone();
        let has_preset = match self.desktops.get(&ws) {
            Some(d) => d.get_layout(monitor_id).is_some(),
            None => false,
        };
        if has_preset {
            // Presets take priority, on stack and non-stack monitors alike.
            proof { lemma_wf_kept(old(self)@, self@); }
            self.apply_layout_to_monitor(ws, monitor_id, &mut effects);
        } else if monitor_id == self.stack_monitor_id() {
            proof { lemma_wf_kept(old(self)@, self@); }
            self.tile_stack(ws, &mut effects);
        } else {
            // All new windows land on the stack screen.
            proof { lemma_wf_kept(old(self)@, self@); }
            self.move_to_stack(window_id, ws, &mut effects);
        }
        assert(effects@ =~= Seq::empty() + effects@);
        self.windows = saved_windows;
        self.desktops = saved_desktops;
        proof {
            lemma_replay_window_opened(old(self)@, window_id, monitor_id, is_tl, is_fullscreen);
            lemma_replay_frame(committed, effects@);
            assert(self@ =~= committed);
        }
        effects
    }

    /// Handle a window closing.
    pub fn handle_window_closed(&mut self, window_id: u64) -> (r: Vec<Effect>)
        requires
            old(self).wf(),
        ensures
            final(self)@ == old(self)@.window_closed_committed(window_id),
            r@ == old(self)@.window_closed(window_id).1,
            final(self)@.replayed(r@) == old(self)@.window_closed(window_id).0,
            final(self).spec_proxy() == old(self).spec_proxy(),
            final(self).spec_tiling_end() == old(self).spec_tiling_end(),
    {
        let mut effects: Vec<Effect> = Vec::new();
        let tracked_w = match self.windows.remove(&window_id) {
            None => return effects,
            Some(t) => t,
        };
        // Clear focus on the closed window so later moves cannot use a stale id.
        if self.focused_window_id == Some(window_id) {
            self.focused_window_id = None;
        }
        let ws = tracked_w.workspace_id;
        let monitor_id = tracked_w.monitor_id;
        self.remove_from_desktop(ws, window_id);
        if !tracked_w.is_toplevel || tracked_w.is_fullscreen {
            return effects;
        }
        let stack_id = self.stack_monitor_id();
        let ghost committed = self@;
        let saved_windows = self.windows.clone();
        let saved_desktops = self.desktops.clone();
        let has_preset = match self.desktops.get(&ws) {
            Some(d) => d.get_layout(monitor_id).is_some(),
            None => false,
        };
        if has_preset {
            proof { lemma_wf_kept(old(self)@, self@); }
            self.apply_layout_to_monitor(ws, monitor_id, &mut effects);
        } else if monitor_id == stack_id {
            proof { lemma_wf_kept(old(self)@, self@); }
            self.tile_stack(ws, &mut effects);
        }
        assert(effects@ =~= Seq::empty() + effects@);
        self.windows = saved_windows;
        self.desktops = saved_desktops;
        proof {
            lemma_replay_window_closed(old(self)@, window_id);
            lemma_replay_frame(committed, effects@);
            assert(self@ =~= committed);
        }
        effects
    }

    /// Handle workspace change. Windows keep the positions they were tiled
    /// at; the stack is tiled only on the first visit to a workspace.
    pub fn handle_workspace_changed(&mut self, workspace_id: u32) -> (r: Vec<Effect>)
        requires
            old(self).wf(),
        ensures
            final(self)@ == old(self)@.workspace_changed_committed(workspace_id),
            r@ == old(self)@.workspace_changed(workspace_id).1,
            final(self)@.replayed(r@) == old(self)@.workspace_changed(workspace_id).0,
            final(self).spec_proxy() == old(self).spec_proxy(),
            final(self).spec_tiling_end() == old(self).spec_tiling_end(),
    {
        let mut effects: Vec<Effect> = Vec::new();
        self.active_workspace = workspace_id;
        if !self.visited_workspaces.contains(&workspace_id) {
            self.visited_workspaces.insert(workspace_id);
            let ghost committed = self@;
            let saved_windows = self.windows.clone();
            let saved_desktops = self.desktops.clone();
            proof { lemma_wf_kept(old(self)@, self@); }
            self.tile_stack(workspace_id, &mut effects);
            self.windows = saved_windows;
            self.desktops = saved_desktops;
            proof {
                lemma_replay_workspace_changed(old(self)@, workspace_id);
                lemma_replay_frame(committed, effects@);
                assert(self@ =~= committed);
            }
        }
        assert(effects@ =~= Seq::empty() + effects@);
        effects
    }

    /// Handle fullscreen state change.
    pub fn handle_fullscreen_changed(&mut self, window_id: u64, is_fullscreen: bool) -> (r: Vec<Effect>)
        requires
            old(self).wf(),
        ensures
            final(self)@ == old(self)@.fullscreen_changed_committed(window_id, is_fullscreen),
            r@ == old(self)@.fullscreen_changed(window_id, is_fullscreen).1,
            final(self)@.replayed(r@) == old(self)@.fullscreen_changed(window_id, is_fullscreen).0,
            final(self).spec_proxy() == old(self).spec_proxy(),
            final(self).spec_tiling_end() == old(self).spec_tiling_end(),
    {
        let mut effects: Vec<Effect> = Vec::new();
        let t = match self.windows.get(&window_id) {
            None => return effects,
            Some(t) => *t,
        };
        self.windows.insert(window_id, TrackedWindow { is_fullscreen, ..t });
        let ws = t.workspace_id;
        let monitor_id = t.monitor_id;
        if is_fullscreen {
            self.remove_from_desktop(ws, window_id);
        } else if t.is_toplevel {
            self.push_to_desktop(ws, window_id);
        }
        let ghost committed = self@;
        let saved_windows = self.windows.clone();
        let saved_desktops = self.desktops.clone();
        let stack_id = self.stack_monitor_id();
        if monitor_id == stack_id {
            proof { lemma_wf_kept(old(self)@, self@); }
            self.tile_stack(ws, &mut effects);
        }
        let has_preset = match self.desktops.get(&ws) {
            Some(d) => d.get_layout(monitor_id).is_some(),
            None => false,
        };
        if has_preset {
            proof { lemma_wf_kept(old(self)@, self@); }
            self.apply_layout_to_monitor(ws, monitor_id, &mut effects);
        }
        assert(effects@ =~= Seq::empty() + effects@);
        self.windows = saved_windows;
        self.desktops = saved_desktops;
        proof {
            lemma_replay_fullscreen_changed(old(self)@, window_id, is_fullscreen);
            lemma_replay_frame(committed, effects@);
            assert(self@ =~= committed);
        }
        effects
    }
}

} // verus!

verus! {

/// Once a prefix holds a position for `w`, longer prefixes give the same one.
proof fn lemma_position_of_extend(pos: Seq<(u64, Rect)>, w: u64, k: int)
    requires
        0 <= k <= pos.len(),
        position_of(pos.take(k), w) is Some,
    ensures
        position_of(pos, w) == position_of(pos.take(k), w),
    decreases pos.len() - k,
{
    if k < pos.len() {
        assert(pos.take(k + 1).drop_last() =~= pos.take(k));
        lemma_position_of_extend(pos, w, k + 1);
    } else {
        assert(pos.take(k) =~= pos);
    }
}

/// The first position given to window `w`.
fn find_position(pos: &Vec<(u64, Rect)>, w: u64) -> (r: Option<Rect>)
    ensures
        r == position_of(pos@, w),
{
    let mut i: usize = 0;
    while i < pos.len()
        invariant
            i <= pos@.len(),
            position_of(pos@.take(i as int), w) is None,
        decreases pos@.len() - i,
    {
        assert(pos@.take(i + 1).drop_last() =~= pos@.take(i as int));
        if pos[i].0 == w {
            proof {
                assert(pos@.take(i + 1).last() == pos@[i as int]);
                lemma_position_of_extend(pos@, w, i + 1);
            }
            return Some(pos[i].1);
        }
        i = i + 1;
    }
    assert(pos@.take(pos@.len() as int) =~= pos@);
    None
}

impl<P> TilingEngine<P> {
    /// The snap-back a geometry change calls for, given how many whole
    /// milliseconds ago the last tiling batch ended (`None`: no batch has
    /// ended, or the grace period was cleared). Within 500 ms of a batch the
    /// change is ignored.
    pub fn snap_back_after(
        &self,
        elapsed_ms: Option<u128>,
        window_id: u64,
        x: i32,
        y: i32,
        width: i32,
        height: i32,
    ) -> (r: Vec<Effect>)
        requires
            self.wf(),
        ensures
            r@ == self@.snap_back(in_grace_period(elapsed_ms), window_id, Rect { x, y, width, height }),
    {
        let in_grace = match elapsed_ms {
            Some(ms) => ms < TILING_GRACE_MS,
            None => false,
        };
        let mut effects: Vec<Effect> = Vec::new();
        if self.is_tiling || in_grace {
            return effects;
        }
        let t = match self.windows.get(&window_id) {
            None => return effects,
            Some(t) => *t,
        };
        let monitor_id = t.monitor_id;
        let desktop = match self.desktops.get(&t.workspace_id) {
            None => return effects,
            Some(d) => d,
        };
        if !desktop.is_enforced(monitor_id) {
            return effects;
        }
        let preset = match desktop.get_layout(monitor_id) {
            None => return effects,
            Some(p) => p,
        };
        let monitor_rect = match self.monitor_rect(monitor_id) {
            None => return effects,
            Some(r) => r,
        };
        proof {
            lemma_find_monitor_member(self.monitors@, monitor_id);
        }
        let window_ids = self.windows_on_monitor(t.workspace_id, monitor_id);
        let positions = Self::compute_positions(preset, &window_ids, monitor_rect);
        let expected = match find_position(&positions, window_id) {
            None => return effects,
            Some(e) => e,
        };
        // If geometry already matches, no snap-back needed
        if x == expected.x && y == expected.y && width == expected.width && height
            == expected.height {
            return effects;
        }
        effects.push(
            Effect::MoveResize {
                window_id,
                x: expected.x,
                y: expected.y,
                width: expected.width,
                height: expected.height,
            },
        );
        assert(effects@ =~= seq![move_to(window_id, expected)]);
        effects
    }

    /// Handle a window geometry change event.
    ///
    /// If layout enforcement is active on the window's monitor and the window's
    /// current geometry differs from its expected layout position, snap it back.
    /// Signals during tiling, or within 500 ms after a tiling batch, are ignored:
    /// the clock is read and [`TilingEngine::snap_back_after`] decides.
    pub fn handle_geometry_changed(&self, window_id: u64, x: i32, y: i32, width: i32, height: i32) -> (r: Vec<Effect>)
        requires
            self.wf(),
        ensures
            self.spec_tiling_end() is None ==> r@ == self@.snap_back(false, window_id, Rect { x, y, width, height }),
            self.spec_tiling_end() is Some ==> exists|ms: u128|
                r@ == #[trigger] self@.snap_back(in_grace_period(Some(ms)), window_id, Rect { x, y, width, height }),
    {
        let elapsed_ms = match &self.last_tiling_end {
            Some(end) => Some(whole_millis(&elapsed_since(end))),
            None => None,
        };
        self.snap_back_after(elapsed_ms, window_id, x, y, width, height)
    }

    /// Move the currently focused window to the target monitor.
    ///
    /// No-op if no window is focused, the target monitor does not exist, the
    /// window is untracked, or it is already on the target monitor.
    pub fn move_window_to_monitor(&mut self, target_monitor: u32) -> (r: Vec<Effect>)
        requires
            old(self).wf(),
        ensures
            final(self)@ == old(self)@,
            r@ == old(self)@.moved_to_monitor(target_monitor).1,
            final(self)@.replayed(r@) == old(self)@.moved_to_monitor(target_monitor).0,
            final(self).spec_proxy() == old(self).spec_proxy(),
            final(self).spec_tiling_end() == old(self).spec_tiling_end(),
    {
        let mut effects: Vec<Effect> = Vec::new();
        let ghost committed = self@;
        let saved_windows = self.windows.clone();
        let saved_desktops = self.desktops.clone();
        self.push_move_window_to_monitor(target_monitor, &mut effects);
        assert(effects@ =~= Seq::empty() + effects@);
        self.windows = saved_windows;
        self.desktops = saved_desktops;
        proof {
            lemma_replay_moved_to_monitor(old(self)@, target_monitor);
            lemma_replay_frame(committed, effects@);
            assert(self@ =~= committed);
        }
        effects
    }

    fn push_move_window_to_monitor(&mut self, target_monitor: u32, effects: &mut Vec<Effect>)
        requires
            old(self).wf(),
        ensures
            final(self)@ == old(self)@.moved_to_monitor(target_monitor).0,
            final(effects)@ == old(effects)@ + old(self)@.moved_to_monitor(target_monitor).1,
            final(self)@.monitors == old(self)@.monitors,
            final(self)@.stack_index == old(self)@.stack_index,
            final(self).spec_proxy() == old(self).spec_proxy(),
            final(self).spec_tiling_end() == old(self).spec_tiling_end(),
    {
        let ghost start = effects@;
        let window_id = match self.focused_window_id {
            None => {
                assert(effects@ =~= start + Seq::empty());
                return;
            },
            Some(w) => w,
        };
        let target_rect = match self.monitor_rect(target_monitor) {
            None => {
                assert(effects@ =~= start + Seq::empty());
                return;
            },
            Some(r) => r,
        };
        let t = match self.windows.get(&window_id) {
            None => {
                assert(effects@ =~= start + Seq::empty());
                return;
            },
            Some(t) => *t,
        };
        let workspace_id = t.workspace_id;
        let source_monitor = t.monitor_id;
        // No-op when the window is already on the target monitor.
        if source_monitor == target_monitor {
            assert(effects@ =~= start + Seq::empty());
            return;
        }
        effects.push(
            Effect::MoveResize {
                window_id,
                x: target_rect.x,
                y: target_rect.y,
                width: target_rect.width,
                height: target_rect.height,
            },
        );
        effects.push(Effect::Raise(window_id));
        effects.push(Effect::Relocate { window_id, monitor_id: target_monitor });
        let ghost e1 = effects@;
        self.set_window_monitor(window_id, target_monitor);
        // Retile stack screen if either source or target is the stack screen
        let stack_id = self.stack_monitor_id();
        if source_monitor == stack_id || target_monitor == stack_id {
            proof { lemma_wf_kept(old(self)@, self@); }
            self.tile_stack(workspace_id, effects);
        }
        let ghost e2 = effects@;
        // Re-apply layout preset on the target monitor if one is set
        let has_preset = match self.desktops.get(&workspace_id) {
            Some(d) => d.get_layout(target_monitor).is_some(),
            None => false,
        };
        if has_preset {
            proof { lemma_wf_kept(old(self)@, self@); }
            self.apply_layout_to_monitor(workspace_id, target_monitor, effects);
        }
        proof {
            assert(e1 =~= start + seq![
                move_to(window_id, target_rect),
                Effect::Raise(window_id),
                Effect::Relocate { window_id, monitor_id: target_monitor },
            ]);
            assert(effects@ =~= start + (seq![
                move_to(window_id, target_rect),
                Effect::Raise(window_id),
                Effect::Relocate { window_id, monitor_id: target_monitor },
            ] + e2.subrange(e1.len() as int, e2.len() as int) + effects@.subrange(
                e2.len() as int,
                effects@.len() as int,
            )));
        }
    }

    /// Apply a chosen preset to a monitor, bringing the focused window over first.
    fn bring_focused_window(&mut self, monitor_id: u32, effects: &mut Vec<Effect>)
        requires
            old(self).wf(),
        ensures
            final(self)@ == old(self)@.focused_brought(monitor_id).0,
            final(effects)@ == old(effects)@ + old(self)@.focused_brought(monitor_id).1,
            final(self)@.monitors == old(self)@.monitors,
            final(self)@.stack_index == old(self)@.stack_index,
            final(self)@.active_workspace == old(self)@.active_workspace,
            final(self).spec_proxy() == old(self).spec_proxy(),
            final(self).spec_tiling_end() == old(self).spec_tiling_end(),
    {
        let ghost start = effects@;
        let ws = self.active_workspace;
        match self.focused_window_id {
            Some(wid) => match self.windows.get(&wid) {
                Some(t) => {
                    let source = t.monitor_id;
                    if source != monitor_id {
                        match self.monitor_rect(monitor_id) {
                            Some(rect) => {
                                effects.push(Effect::BeginTiling);
                                effects.push(
                                    Effect::MoveResize {
                                        window_id: wid,
                                        x: rect.x,
                                        y: rect.y,
                                        width: rect.width,
                                        height: rect.height,
                                    },
                                );
                                effects.push(Effect::Raise(wid));
                                effects.push(Effect::FinishTiling);
                            },
                            None => {},
                        }
                        let ghost e0 = effects@;
                        effects.push(Effect::Relocate { window_id: wid, monitor_id });
                        effects.push(Effect::PushFront { workspace_id: ws, window_id: wid });
                        let ghost e1 = effects@;
                        self.set_window_monitor(wid, monitor_id);
                        // Push to front so it gets the primary layout slot
                        self.push_to_desktop(ws, wid);
                        // Retile source if it was the stack screen
                        if source == self.stack_monitor_id() {
                            proof { lemma_wf_kept(old(self)@, self@); }
                            self.tile_stack(ws, effects);
                        }
                        proof {
                            assert(effects@ =~= start + (e0.subrange(start.len() as int, e0.len() as int)
                                + seq![
                                Effect::Relocate { window_id: wid, monitor_id },
                                Effect::PushFront { workspace_id: ws, window_id: wid },
                            ] + effects@.subrange(e1.len() as int, effects@.len() as int)));
                        }
                    } else {
                        assert(effects@ =~= start + Seq::empty());
                    }
                },
                None => {
                    assert(effects@ =~= start + Seq::empty());
                },
            },
            None => {
                assert(effects@ =~= start + Seq::empty());
            },
        }
    }

    fn choose_layout(&mut self, monitor_id: u32, preset: LayoutPreset, effects: &mut Vec<Effect>)
        requires
            old(self).wf(),
        ensures
            final(self)@ == old(self)@.layout_chosen(monitor_id, preset).0,
            final(effects)@ == old(effects)@ + old(self)@.layout_chosen(monitor_id, preset).1,
            final(self)@.monitors == old(self)@.monitors,
            final(self)@.stack_index == old(self)@.stack_index,
            final(self).spec_proxy() == old(self).spec_proxy(),
            final(self).spec_tiling_end() == old(self).spec_tiling_end(),
    {
        let ghost start = effects@;
        let ws = self.active_workspace;
        self.bring_focused_window(monitor_id, effects);
        let ghost e2 = effects@;
        effects.push(Effect::SetLayout { workspace_id: ws, monitor_id, preset });
        let ghost e3 = effects@;
        self.set_desktop_layout(ws, monitor_id, preset);
        proof { lemma_wf_kept(old(self)@, self@); }
        self.apply_layout_to_monitor(ws, monitor_id, effects);
        proof {
            assert(effects@ =~= start + (e2.subrange(start.len() as int, e2.len() as int)
                + seq![Effect::SetLayout { workspace_id: ws, monitor_id, preset }]
                + effects@.subrange(e3.len() as int, effects@.len() as int)));
        }
    }

    /// Carry out an action from the menu.
    fn apply_menu_action(&mut self, action: MenuAction, effects: &mut Vec<Effect>)
        requires
            old(self).wf(),
        ensures
            final(self)@ == old(self)@.menu_action(action).0,
            final(effects)@ == old(effects)@ + old(self)@.menu_action(action).1,
            final(self).spec_proxy() == old(self).spec_proxy(),
            final(self).spec_tiling_end() == old(self).spec_tiling_end(),
    {
        let ghost start = effects@;
        match action {
            MenuAction::Dismiss | MenuAction::ZoomIn(_) => {
                assert(effects@ =~= start + Seq::empty());
            },
            MenuAction::MoveWindow(target_monitor) => {
                self.push_move_window_to_monitor(target_monitor, effects);
            },
            MenuAction::ApplyLayout(monitor_id, digit) => {
                let preset = if digit == 1 {
                    LayoutPreset::Fullscreen
                } else if digit == 2 {
                    LayoutPreset::SideBySide
                } else if digit == 3 {
                    LayoutPreset::TopBottom
                } else if digit == 4 {
                    LayoutPreset::Quadrants
                } else {
                    assert(effects@ =~= start + Seq::empty());
                    return;
                };
                self.choose_layout(monitor_id, preset, effects);
            },
            MenuAction::EnforceOn(monitor_id) => {
                let ws = self.active_workspace;
                self.set_desktop_enforcement(ws, monitor_id, true);
                effects.push(Effect::SetEnforcement { workspace_id: ws, monitor_id, enforced: true });
                assert(effects@ =~= start + seq![
                    Effect::SetEnforcement { workspace_id: ws, monitor_id, enforced: true },
                ]);
            },
            MenuAction::EnforceOff(monitor_id) => {
                let ws = self.active_workspace;
                self.set_desktop_enforcement(ws, monitor_id, false);
                effects.push(Effect::SetEnforcement { workspace_id: ws, monitor_id, enforced: false });
                assert(effects@ =~= start + seq![
                    Effect::SetEnforcement { workspace_id: ws, monitor_id, enforced: false },
                ]);
            },
        }
    }

    /// Process a menu input, transitioning state and producing the effects of
    /// any resulting action. Only the menu state changes here; the other
    /// state changes are among the effects.
    pub fn handle_menu_input(&mut self, input: MenuInput) -> (r: Vec<Effect>)
        requires
            old(self).wf(),
        ensures
            final(self)@ == old(self)@.menu_input_committed(input),
            r@ == old(self)@.menu_input(input).1,
            final(self)@.replayed(r@) == old(self)@.menu_input(input).0,
            final(self).spec_proxy() == old(self).spec_proxy(),
            final(self).spec_tiling_end() == old(self).spec_tiling_end(),
    {
        let saved_windows = self.windows.clone();
        let saved_desktops = self.desktops.clone();
        let effects = self.plan_menu_input(input);
        self.windows = saved_windows;
        self.desktops = saved_desktops;
        proof {
            let committed = old(self)@.menu_input_committed(input);
            lemma_replay_menu_input(old(self)@, input);
            lemma_replay_frame(committed, effects@);
            assert(self@ =~= committed);
        }
        effects
    }

    /// A menu input with every state change made at once.
    fn plan_menu_input(&mut self, input: MenuInput) -> (r: Vec<Effect>)
        requires
            old(self).wf(),
        ensures
            final(self)@ == old(self)@.menu_input(input).0,
            r@ == old(self)@.menu_input(input).1,
            final(self).spec_proxy() == old(self).spec_proxy(),
            final(self).spec_tiling_end() == old(self).spec_tiling_end(),
    {
        let old_state = self.menu;
        let (new_state, action) = self.menu.transition(input);
        self.menu = new_state;
        let mut effects: Vec<Effect> = Vec::new();
        // Closed -> Overview: show the menu overlay
        if old_state == MenuState::Closed && new_state == MenuState::Overview {
            effects.push(Effect::ShowMenu);
        }
        match action {
            Some(MenuAction::ZoomIn(monitor_id)) => {
                // The stack screen is always a vertical stack: skip the layout
                // picker and move the focused window to the stack directly.
                if monitor_id == self.stack_monitor_id() {
                    self.menu = MenuState::Closed;
                    effects.push(Effect::HideMenu);
                    match self.focused_window_id {
                        Some(wid) => {
                            let ws = self.active_workspace;
                            proof { lemma_wf_kept(old(self)@, self@); }
                            self.move_to_stack(wid, ws, &mut effects);
                        },
                        None => {},
                    }
                    return effects;
                }
                effects.push(Effect::ShowMenuZoomed(monitor_id));
                return effects;
            },
            _ => {},
        }
        // Any transition to Closed from a non-Closed state: hide the menu
        if new_state == MenuState::Closed && old_state != MenuState::Closed {
            effects.push(Effect::HideMenu);
        }
        match action {
            Some(a) => {
                proof { lemma_wf_kept(old(self)@, self@); }
                self.apply_menu_action(a, &mut effects);
            },
            None => {},
        }
        effects
    }
}

} // verus!

verus! {

/// `b` is `a` after pruning stacks: the same tracked windows (possibly on
/// other monitors), focus, workspace, visits and menu; the same desktops,
/// each with its stack unchanged or cut down to the tracked windows.
pub open spec fn tidied(a: EngineModel, b: EngineModel) -> bool {
    &&& b.windows.dom() == a.windows.dom()
    &&& b.focused == a.focused
    &&& b.active_workspace == a.active_workspace
    &&& b.visited == a.visited
    &&& b.menu == a.menu
    &&& b.desktops.dom() == a.desktops.dom()
    &&& forall|v: u32| #[trigger]
        a.desktops.contains_key(v) ==> (b.desktops[v].stack == a.desktops[v].stack
            || b.desktops[v].stack == restricted_to(a.desktops[v].stack, a.windows.dom()))
}

proof fn lemma_filter_idempotent(s: Seq<u64>, p: spec_fn(u64) -> bool)
    ensures
        s.filter(p).filter(p) == s.filter(p),
    decreases s.len(),
{
    reveal(Seq::filter);
    if s.len() > 0 {
        lemma_filter_idempotent(s.drop_last(), p);
        let sub = s.drop_last().filter(p);
        if p(s.last()) {
            assert(sub.push(s.last()).drop_last() =~= sub);
        }
    }
}

/// A filter that keeps the first element starts with it.
proof fn lemma_filter_keeps_first(s: Seq<u64>, p: spec_fn(u64) -> bool)
    requires
        s.len() > 0,
        p(s[0]),
    ensures
        s.filter(p).len() > 0,
        s.filter(p)[0] == s[0],
    decreases s.len(),
{
    reveal(Seq::filter);
    if s.len() > 1 {
        lemma_filter_keeps_first(s.drop_last(), p);
    }
}

proof fn lemma_tidied_refl(a: EngineModel)
    ensures
        tidied(a, a),
{
}

proof fn lemma_tidied_trans(a: EngineModel, b: EngineModel, c: EngineModel)
    requires
        tidied(a, b),
        tidied(b, c),
    ensures
        tidied(a, c),
{
    assert forall|v: u32| #[trigger] a.desktops.contains_key(v) implies (c.desktops[v].stack
        == a.desktops[v].stack || c.desktops[v].stack == restricted_to(
        a.desktops[v].stack,
        a.windows.dom(),
    )) by {
        assert(b.desktops.contains_key(v));
        lemma_filter_idempotent(a.desktops[v].stack, member_of(a.windows.dom()));
    }
}

proof fn lemma_tidied_pruned(a: EngineModel, ws: u32)
    ensures
        tidied(a, a.pruned(ws)),
{
    if a.desktops.contains_key(ws) {
        assert(a.pruned(ws).desktops.dom() =~= a.desktops.dom());
    }
}

proof fn lemma_tidied_tile_stack(a: EngineModel, ws: u32)
    ensures
        tidied(a, a.tile_stack(ws).0),
{
    lemma_tidied_pruned(a, ws);
}

proof fn lemma_tidied_apply_layout(a: EngineModel, ws: u32, m: u32)
    ensures
        tidied(a, a.apply_layout(ws, m).0),
{
    let s1 = a.pruned(ws);
    lemma_tidied_pruned(a, ws);
    match s1.layout(ws, m) {
        None => {},
        Some(preset) => match s1.monitor_rect(m) {
            None => {},
            Some(r) => {
                let ids = s1.windows_on_monitor(ws, m);
                if ids.len() > 0 {
                    let pos = preset_positions(preset, ids, r);
                    let excess = excess_of(ids, pos);
                    let on_stack = m == s1.stack_id();
                    let s2 = if !on_stack && s1.stack_rect() is Some {
                        EngineModel { windows: relocated(s1.windows, excess, s1.stack_id()), ..s1 }
                    } else {
                        s1
                    };
                    assert(s2.windows.dom() =~= s1.windows.dom());
                    assert(tidied(s1, s2));
                    lemma_tidied_trans(a, s1, s2);
                    if !on_stack && excess.len() > 0 {
                        lemma_tidied_tile_stack(s2, ws);
                        lemma_tidied_trans(a, s2, s2.tile_stack(ws).0);
                    }
                }
            },
        },
    }
}

proof fn lemma_tidied_move_to_stack(a: EngineModel, w: u64, ws: u32)
    ensures
        tidied(a, a.move_to_stack(w, ws).0),
{
    if a.stack_rect() is Some {
        let s1 = a.with_window_on(w, a.stack_id());
        assert(s1.windows.dom() =~= a.windows.dom());
        assert(tidied(a, s1));
        lemma_tidied_tile_stack(s1, ws);
        lemma_tidied_trans(a, s1, s1.tile_stack(ws).0);
    }
}

/// Switching back to a workspace already visited moves no window: only the
/// active workspace changes.
pub proof fn law_revisit_does_not_reflow(s: EngineModel, ws: u32)
    requires
        s.visited.contains(ws),
    ensures
        s.workspace_changed(ws) == (EngineModel { active_workspace: ws, ..s }, Seq::<Effect>::empty()),
{
}

/// Switching workspaces leaves the tiling state of every other workspace
/// as it was, and every window's record too.
pub proof fn law_switch_keeps_other_desktops(s: EngineModel, ws: u32, other: u32)
    requires
        other != ws,
    ensures
        s.workspace_changed(ws).0.windows == s.windows,
        s.workspace_changed(ws).0.desktops.contains_key(other) == s.desktops.contains_key(other),
        s.desktops.contains_key(other) ==> s.workspace_changed(ws).0.desktops[other] == s.desktops[other],
{
}

/// A window that is not toplevel, or is fullscreen, is only recorded when it
/// opens: nothing is moved and no workspace's tiling state changes.
pub proof fn law_untileable_window_is_left_alone(s: EngineModel, w: u64, m: u32, toplevel: bool, fullscreen: bool)
    requires
        !toplevel || fullscreen,
    ensures
        s.window_opened(w, m, toplevel, fullscreen).1 == Seq::<Effect>::empty(),
        s.window_opened(w, m, toplevel, fullscreen).0.desktops == s.desktops,
        s.window_opened(w, m, toplevel, fullscreen).0.windows.contains_key(w),
{
}

/// Closing a window on a monitor that is not the stack screen and has no
/// preset leaves every other window where it is.
pub proof fn law_close_without_preset_moves_nothing(s: EngineModel, w: u64)
    requires
        s.windows.contains_key(w),
        s.windows[w].monitor_id != s.stack_id(),
        s.layout(s.windows[w].workspace_id, s.windows[w].monitor_id) is None,
    ensures
        s.window_closed(w).1 == Seq::<Effect>::empty(),
{
}

/// A window is snapped back only outside tiling batches and their grace
/// period, when it is tracked and its monitor has a preset that is enforced
/// on its workspace.
pub proof fn law_snap_back_needs_enforcement(s: EngineModel, in_grace: bool, w: u64, g: Rect)
    requires
        s.snap_back(in_grace, w, g).len() > 0,
    ensures
        !s.is_tiling,
        !in_grace,
        s.windows.contains_key(w),
        s.desktops.contains_key(s.windows[w].workspace_id),
        enforced_on(s.desktops[s.windows[w].workspace_id], s.windows[w].monitor_id),
        layout_of(s.desktops[s.windows[w].workspace_id], s.windows[w].monitor_id) is Some,
{
}

/// A closed window is forgotten: it is no longer tracked, no longer focused,
/// and no longer in its workspace's stack, whatever retiling follows.
pub proof fn law_closed_window_is_forgotten(s: EngineModel, w: u64)
    requires
        s.windows.contains_key(w),
    ensures
        !s.window_closed(w).0.windows.contains_key(w),
        s.window_closed(w).0.focused != Some(w),
        s.window_closed(w).0.desktops.contains_key(s.windows[w].workspace_id),
        !s.window_closed(w).0.desktops[s.windows[w].workspace_id].stack.contains(w),
{
    let t = s.windows[w];
    let ws = t.workspace_id;
    let s1 = EngineModel {
        windows: s.windows.remove(w),
        focused: if s.focused == Some(w) {
            None
        } else {
            s.focused
        },
        ..s
    };
    let s2 = s1.removed(ws, w);
    law_stack_stays_distinct_absent(s1.desktop_or_new(ws).stack, w);
    let fin = s.window_closed(w).0;
    if !t.is_toplevel || t.is_fullscreen {
        lemma_tidied_refl(s2);
    } else if s2.layout(ws, t.monitor_id) is Some {
        lemma_tidied_apply_layout(s2, ws, t.monitor_id);
    } else if t.monitor_id == s2.stack_id() {
        lemma_tidied_tile_stack(s2, ws);
    } else {
        lemma_tidied_refl(s2);
    }
    assert(tidied(s2, fin));
    assert(s2.desktops.contains_key(ws));
    if fin.desktops[ws].stack.contains(w) {
        if fin.desktops[ws].stack != s2.desktops[ws].stack {
            s2.desktops[ws].stack.lemma_filter_contains_rev(member_of(s2.windows.dom()), w);
        }
    }
}

/// Without `w` there is no `w`.
proof fn law_stack_stays_distinct_absent(stack: Seq<u64>, w: u64)
    ensures
        !without(stack, w).contains(w),
{
    broadcast use vstd::seq_lib::group_filter_ensures;
    if without(stack, w).contains(w) {
        let i = choose|i: int| 0 <= i < without(stack, w).len() && without(stack, w)[i] == w;
        assert(differs_from(w)(without(stack, w)[i]));
    }
}

/// A toplevel, non-fullscreen window that opens is tracked and ends up at
/// the front of the active workspace's stack, whatever tiling follows.
pub proof fn law_opened_window_leads_stack(s: EngineModel, w: u64, m: u32)
    ensures
        s.window_opened(w, m, true, false).0.windows.contains_key(w),
        s.window_opened(w, m, true, false).0.desktops.contains_key(s.active_workspace),
        s.window_opened(w, m, true, false).0.desktops[s.active_workspace].stack.len() > 0,
        s.window_opened(w, m, true, false).0.desktops[s.active_workspace].stack[0] == w,
{
    let ws = s.active_workspace;
    let s1 = EngineModel {
        windows: s.windows.insert(
            w,
            TrackedWindow { workspace_id: ws, monitor_id: m, is_fullscreen: false, is_toplevel: true },
        ),
        ..s
    };
    let s2 = s1.pushed(ws, w);
    let fin = s.window_opened(w, m, true, false).0;
    if s2.layout(ws, m) is Some {
        lemma_tidied_apply_layout(s2, ws, m);
    } else if m == s2.stack_id() {
        lemma_tidied_tile_stack(s2, ws);
    } else {
        lemma_tidied_move_to_stack(s2, w, ws);
    }
    assert(tidied(s2, fin));
    assert(s2.desktops.contains_key(ws));
    let st = s2.desktops[ws].stack;
    assert(st[0] == w);
    if fin.desktops[ws].stack != st {
        lemma_filter_keeps_first(st, member_of(s2.windows.dom()));
    }
}

} // verus!

verus! {

/// Snapping back settles: after a window is moved into its slot, a report
/// of that geometry calls for no further move.
pub proof fn law_snap_back_settles(s: EngineModel, w: u64, g: Rect)
    ensures
        s.snap_back(false, w, g).len() <= 1,
        s.snap_back(false, w, g).len() == 1 ==> (s.snap_back(false, w, g)[0] matches Effect::MoveResize { window_id, x, y, width, height } && window_id == w
            && s.snap_back(false, w, Rect { x, y, width, height }).len() == 0),
{
}

impl<P> TilingEngine<P> {
    /// The IPC `ApplyLayout` command: for a layout digit 1-4, act as if that
    /// digit were pressed in the layout picker of `monitor`; any other digit
    /// is refused (`None`) and nothing changes.
    pub fn apply_layout_command(&mut self, monitor: u32, layout: u8) -> (r: Option<Vec<Effect>>)
        requires
            old(self).wf(),
        ensures
            match r {
                Some(effects) => 1 <= layout <= 4 && final(self)@ == (EngineModel {
                    menu: MenuState::ZoomedIn(monitor),
                    ..old(self)@
                }).menu_input_committed(MenuInput::Digit(layout)) && effects@ == (EngineModel {
                    menu: MenuState::ZoomedIn(monitor),
                    ..old(self)@
                }).menu_input(MenuInput::Digit(layout)).1 && final(self)@.replayed(effects@) == (EngineModel {
                    menu: MenuState::ZoomedIn(monitor),
                    ..old(self)@
                }).menu_input(MenuInput::Digit(layout)).0,
                None => !(1 <= layout <= 4) && final(self)@ == old(self)@,
            },
            final(self).spec_proxy() == old(self).spec_proxy(),
            final(self).spec_tiling_end() == old(self).spec_tiling_end(),
    {
        if layout < 1 || layout > 4 {
            return None;
        }
        self.set_menu_state(MenuState::ZoomedIn(monitor));
        proof { lemma_wf_kept(old(self)@, self@); }
        Some(self.handle_menu_input(MenuInput::Digit(layout)))
    }
}

} // verus!

verus! {

/// Whether a monitor's geometry fits (the condition the engine needs of every monitor).
pub fn monitor_fits(m: &MonitorInfo) -> (r: bool)
    ensures
        r == geometry_fits(*m),
{
    let x = m.x as i64;
    let y = m.y as i64;
    let w = m.width as i64;
    let h = m.height as i64;
    let hw = (m.width / 2) as i64;
    let hh = (m.height / 2) as i64;
    let lo = i32::MIN as i64;
    let hi = i32::MAX as i64;
    let splits = lo <= x + hw && x + hw <= hi && lo <= y + hh && y + hh <= hi && lo <= w - hw && w
        - hw <= hi && lo <= h - hh && h - hh <= hi;
    let screen = !(w > 0 && h > 0) || (x + w <= hi && y + h <= hi);
    splits && screen
}

/// Whether every monitor's geometry fits.
pub fn monitors_fit(monitors: &Vec<MonitorInfo>) -> (r: bool)
    ensures
        r == forall|i: int| 0 <= i < monitors@.len() ==> geometry_fits(#[trigger] monitors@[i]),
{
    let mut i: usize = 0;
    while i < monitors.len()
        invariant
            i <= monitors@.len(),
            forall|j: int| 0 <= j < i ==> geometry_fits(#[trigger] monitors@[j]),
        decreases monitors@.len() - i,
    {
        if !monitor_fits(&monitors[i]) {
            return false;
        }
        i = i + 1;
    }
    true
}

} // verus!

verus! {

proof fn lemma_replay_concat(s: EngineModel, a: Seq<Effect>, b: Seq<Effect>)
    ensures
        s.replayed(a + b) == s.replayed(a).replayed(b),
    decreases b.len(),
{
    if b.len() == 0 {
        assert(a + b =~= a);
    } else {
        assert((a + b).drop_last() =~= a + b.drop_last());
        assert((a + b).last() == b.last());
        lemma_replay_concat(s, a, b.drop_last());
    }
}

proof fn lemma_replay_plain(s: EngineModel, p: Seq<Effect>)
    requires
        all_plain(p),
    ensures
        s.replayed(p) == s,
    decreases p.len(),
{
    if p.len() > 0 {
        assert(all_plain(p.drop_last())) by {
            assert forall|i: int| 0 <= i < p.drop_last().len() implies !is_update(
                #[trigger] p.drop_last()[i],
            ) by {
                assert(p.drop_last()[i] == p[i]);
            }
        }
        lemma_replay_plain(s, p.drop_last());
        assert(!is_update(p[p.len() - 1]));
    }
}

proof fn lemma_replay_plain_tail(s: EngineModel, a: Seq<Effect>, p: Seq<Effect>)
    requires
        all_plain(p),
    ensures
        s.replayed(a + p) == s.replayed(a),
{
    lemma_replay_concat(s, a, p);
    lemma_replay_plain(s.replayed(a), p);
}

proof fn lemma_replay_plain_head(s: EngineModel, p: Seq<Effect>, b: Seq<Effect>)
    requires
        all_plain(p),
    ensures
        s.replayed(p + b) == s.replayed(b),
{
    lemma_replay_concat(s, p, b);
    lemma_replay_plain(s, p);
}

proof fn lemma_replay_one(s: EngineModel, e: Effect)
    ensures
        s.replayed(seq![e]) == s.updated(e),
{
    assert(seq![e].drop_last() =~= Seq::<Effect>::empty());
    assert(seq![e].last() == e);
    assert(s.replayed(Seq::<Effect>::empty()) == s);
}

proof fn lemma_replay_two(s: EngineModel, e: Effect, f: Effect)
    ensures
        s.replayed(seq![e, f]) == s.updated(e).updated(f),
{
    assert(seq![e, f].drop_last() =~= seq![e]);
    assert(seq![e, f].last() == f);
    lemma_replay_one(s, e);
}

proof fn lemma_plain_concat(a: Seq<Effect>, b: Seq<Effect>)
    requires
        all_plain(a),
        all_plain(b),
    ensures
        all_plain(a + b),
{
    assert forall|i: int| 0 <= i < (a + b).len() implies !is_update(#[trigger] (a + b)[i]) by {
        if i < a.len() {
            assert((a + b)[i] == a[i]);
        } else {
            assert((a + b)[i] == b[i - a.len()]);
        }
    }
}

proof fn lemma_plain_moves(pos: Seq<(u64, Rect)>)
    ensures
        all_plain(moves(pos)),
        all_plain(raises_reversed(pos)),
{
    assert forall|i: int| 0 <= i < moves(pos).len() implies !is_update(#[trigger] moves(pos)[i]) by {
        assert(moves(pos)[i] == move_to(pos[i].0, pos[i].1));
    }
    assert forall|i: int| 0 <= i < raises_reversed(pos).len() implies !is_update(
        #[trigger] raises_reversed(pos)[i],
    ) by {
        assert(raises_reversed(pos)[i] == Effect::Raise(pos[pos.len() - 1 - i].0));
    }
}

proof fn lemma_plain_moves_all_to(ids: Seq<u64>, r: Rect)
    ensures
        all_plain(moves_all_to(ids, r)),
{
    assert forall|i: int| 0 <= i < moves_all_to(ids, r).len() implies !is_update(
        #[trigger] moves_all_to(ids, r)[i],
    ) by {
        assert(moves_all_to(ids, r)[i] == move_to(ids[i], r));
    }
}

proof fn lemma_plain_markers()
    ensures
        all_plain(seq![Effect::BeginTiling]),
        all_plain(seq![Effect::FinishTiling]),
        all_plain(Seq::<Effect>::empty()),
{
    assert(seq![Effect::BeginTiling][0] == Effect::BeginTiling);
    assert(seq![Effect::FinishTiling][0] == Effect::FinishTiling);
}

/// Carrying out effects changes only the tracked windows and the desktops.
proof fn lemma_replay_frame(s: EngineModel, es: Seq<Effect>)
    ensures
        (EngineModel { windows: s.windows, desktops: s.desktops, ..s.replayed(es) }) == s,
    decreases es.len(),
{
    if es.len() > 0 {
        lemma_replay_frame(s, es.drop_last());
    }
}

proof fn lemma_replay_tile_stack(s: EngineModel, ws: u32)
    ensures
        s.replayed(s.tile_stack(ws).1) == s.tile_stack(ws).0,
{
    match s.stack_rect() {
        None => {},
        Some(screen) => {
            let s1 = s.pruned(ws);
            let ids = s1.windows_on_monitor(ws, s.stack_id());
            let pos = stack_positions(ids, screen);
            let head = seq![Effect::BeginTiling, Effect::Prune(ws)];
            let m = moves(pos);
            let a = moves_all_to(excess_of(ids, pos), screen);
            let r = raises_reversed(pos);
            let f = seq![Effect::FinishTiling];
            lemma_plain_moves(pos);
            lemma_plain_moves_all_to(excess_of(ids, pos), screen);
            lemma_plain_markers();
            lemma_replay_plain_tail(s, head + m + a + r, f);
            lemma_replay_plain_tail(s, head + m + a, r);
            lemma_replay_plain_tail(s, head + m, a);
            lemma_replay_plain_tail(s, head, m);
            lemma_replay_two(s, Effect::BeginTiling, Effect::Prune(ws));
        },
    }
}

proof fn lemma_relocated_step(windows: Map<u64, TrackedWindow>, ids: Seq<u64>, t: u32)
    requires
        ids.len() > 0,
    ensures
        (EngineModel { windows: relocated(windows, ids.drop_last(), t), ..arbitrary_model() }).with_window_on(ids.last(), t).windows
            == relocated(windows, ids, t),
{
    let w = ids.last();
    let prev = relocated(windows, ids.drop_last(), t);
    let s = EngineModel { windows: prev, ..arbitrary_model() };
    assert forall|k: u64| #[trigger] ids.contains(k) == (ids.drop_last().contains(k) || k == w) by {
        if ids.contains(k) {
            let j = choose|j: int| 0 <= j < ids.len() && ids[j] == k;
            if j < ids.len() - 1 {
                assert(ids.drop_last()[j] == k);
            }
        }
        if ids.drop_last().contains(k) {
            let j = choose|j: int| 0 <= j < ids.drop_last().len() && ids.drop_last()[j] == k;
            assert(ids[j] == k);
        }
        if k == w {
            assert(ids[ids.len() - 1] == k);
        }
    }
    assert(s.with_window_on(w, t).windows =~= relocated(windows, ids, t));
}

/// Some engine state (only its fields other than the windows matter where it is used).
pub open spec fn arbitrary_model() -> EngineModel {
    EngineModel {
        stack_position: StackScreenPosition::Left,
        stack_index: 0,
        monitors: Seq::empty(),
        windows: Map::empty(),
        desktops: Map::empty(),
        active_workspace: 0,
        focused: None,
        menu: MenuState::Closed,
        is_tiling: false,
        visited: Set::empty(),
    }
}

proof fn lemma_replay_returns_to(s: EngineModel, ids: Seq<u64>, r: Rect, t: u32)
    ensures
        s.replayed(returns_to(ids, r, t)) == (EngineModel { windows: relocated(s.windows, ids, t), ..s }),
    decreases ids.len(),
{
    if ids.len() == 0 {
        assert(relocated(s.windows, ids, t) =~= s.windows);
    } else {
        let w = ids.last();
        lemma_replay_returns_to(s, ids.drop_last(), r, t);
        lemma_replay_concat(
            s,
            returns_to(ids.drop_last(), r, t),
            seq![move_to(w, r), Effect::Relocate { window_id: w, monitor_id: t }],
        );
        let mid = EngineModel { windows: relocated(s.windows, ids.drop_last(), t), ..s };
        lemma_replay_two(mid, move_to(w, r), Effect::Relocate { window_id: w, monitor_id: t });
        lemma_relocated_step(s.windows, ids, t);
        let a = EngineModel { windows: relocated(s.windows, ids.drop_last(), t), ..arbitrary_model() };
        assert(mid.with_window_on(w, t).windows == a.with_window_on(w, t).windows);
    }
}

proof fn lemma_replay_placed(s: EngineModel, ws: u32, m: u32)
    ensures
        s.replayed(s.placed(ws, m).1) == s.placed(ws, m).0,
{
    match s.layout(ws, m) {
        None => {},
        Some(preset) => match s.monitor_rect(m) {
            None => {},
            Some(rect) => {
                let ids = s.windows_on_monitor(ws, m);
                if ids.len() > 0 {
                    let pos = preset_positions(preset, ids, rect);
                    let excess = excess_of(ids, pos);
                    let on_stack = m == s.stack_id();
                    let x = if on_stack {
                        moves_all_to(excess, rect)
                    } else {
                        match s.stack_rect() {
                            Some(sr) => returns_to(excess, sr, s.stack_id()),
                            None => Seq::empty(),
                        }
                    };
                    let s2 = if !on_stack && s.stack_rect() is Some {
                        EngineModel { windows: relocated(s.windows, excess, s.stack_id()), ..s }
                    } else {
                        s
                    };
                    let b = seq![Effect::BeginTiling];
                    let mv = moves(pos);
                    let r = raises_reversed(pos);
                    let f = seq![Effect::FinishTiling];
                    lemma_plain_moves(pos);
                    lemma_plain_markers();
                    lemma_plain_concat(b, mv);
                    lemma_replay_plain_tail(s, b + mv + x + r, f);
                    lemma_replay_plain_tail(s, b + mv + x, r);
                    lemma_replay_plain_head(s, b + mv, x);
                    if on_stack {
                        lemma_plain_moves_all_to(excess, rect);
                        lemma_replay_plain(s, x);
                    } else {
                        match s.stack_rect() {
                            Some(sr) => {
                                lemma_replay_returns_to(s, excess, sr, s.stack_id());
                            },
                            None => {},
                        }
                    }
                    assert(s.replayed(b + mv + x + r + f) == s2);
                    if !on_stack && excess.len() > 0 {
                        lemma_replay_concat(s, b + mv + x + r + f, s2.tile_stack(ws).1);
                        lemma_replay_tile_stack(s2, ws);
                    }
                }
            },
        },
    }
}

proof fn lemma_replay_apply_layout(s: EngineModel, ws: u32, m: u32)
    ensures
        s.replayed(s.apply_layout(ws, m).1) == s.apply_layout(ws, m).0,
{
    lemma_replay_concat(s, seq![Effect::Prune(ws)], s.pruned(ws).placed(ws, m).1);
    lemma_replay_one(s, Effect::Prune(ws));
    lemma_replay_placed(s.pruned(ws), ws, m);
}

proof fn lemma_replay_move_to_stack(s: EngineModel, w: u64, ws: u32)
    ensures
        s.replayed(s.move_to_stack(w, ws).1) == s.move_to_stack(w, ws).0,
{
    match s.stack_rect() {
        None => {},
        Some(r) => {
            let e = seq![move_to(w, r), Effect::Relocate { window_id: w, monitor_id: s.stack_id() }];
            let s1 = s.with_window_on(w, s.stack_id());
            lemma_replay_concat(s, e, s1.tile_stack(ws).1);
            lemma_replay_two(s, move_to(w, r), Effect::Relocate { window_id: w, monitor_id: s.stack_id() });
            lemma_replay_tile_stack(s1, ws);
        },
    }
}

proof fn lemma_replay_moved_to_monitor(s: EngineModel, target: u32)
    ensures
        s.replayed(s.moved_to_monitor(target).1) == s.moved_to_monitor(target).0,
{
    match (s.focused, s.monitor_rect(target)) {
        (Some(w), Some(r)) => if s.windows.contains_key(w) && s.windows[w].monitor_id != target {
            let t = s.windows[w];
            let ws = t.workspace_id;
            let src = t.monitor_id;
            let e1 = seq![move_to(w, r), Effect::Raise(w), Effect::Relocate { window_id: w, monitor_id: target }];
            let s1 = s.with_window_on(w, target);
            assert(e1.drop_last() =~= seq![move_to(w, r), Effect::Raise(w)]);
            lemma_replay_two(s, move_to(w, r), Effect::Raise(w));
            assert(s.replayed(e1) == s1);
            let retile = src == s1.stack_id() || target == s1.stack_id();
            let s2 = if retile { s1.tile_stack(ws).0 } else { s1 };
            let e2 = if retile { s1.tile_stack(ws).1 } else { Seq::empty() };
            lemma_replay_concat(s, e1, e2);
            if retile {
                lemma_replay_tile_stack(s1, ws);
            }
            assert(s.replayed(e1 + e2) == s2);
            if s2.layout(ws, target) is Some {
                lemma_replay_concat(s, e1 + e2, s2.apply_layout(ws, target).1);
                lemma_replay_apply_layout(s2, ws, target);
            }
        },
        _ => {},
    }
}

proof fn lemma_replay_focused_brought(s: EngineModel, m: u32)
    ensures
        s.replayed(s.focused_brought(m).1) == s.focused_brought(m).0,
{
    let ws = s.active_workspace;
    let brings = match s.focused {
        Some(w) => s.windows.contains_key(w) && s.windows[w].monitor_id != m,
        None => false,
    };
    let w = s.focused->0;
    let e1 = if brings {
        match s.monitor_rect(m) {
            Some(r) => seq![Effect::BeginTiling, move_to(w, r), Effect::Raise(w), Effect::FinishTiling],
            None => Seq::empty(),
        }
    } else {
        Seq::empty()
    };
    assert(all_plain(e1)) by {
        if brings {
            match s.monitor_rect(m) {
                Some(r) => {
                    let q = seq![Effect::BeginTiling, move_to(w, r), Effect::Raise(w), Effect::FinishTiling];
                    assert(q[0] == Effect::BeginTiling && q[1] == move_to(w, r) && q[2] == Effect::Raise(w)
                        && q[3] == Effect::FinishTiling);
                },
                None => {},
            }
        }
    }
    let sb = s.with_window_on(w, m).pushed(ws, w);
    let from_stack = brings && s.windows[w].monitor_id == sb.stack_id();
    let updates = if brings {
        seq![Effect::Relocate { window_id: w, monitor_id: m }, Effect::PushFront { workspace_id: ws, window_id: w }]
    } else {
        Seq::empty()
    };
    let e2 = if from_stack { sb.tile_stack(ws).1 } else { Seq::empty() };
    lemma_replay_plain_head(s, e1, updates);
    lemma_replay_concat(s, e1 + updates, e2);
    if brings {
        lemma_replay_two(s, Effect::Relocate { window_id: w, monitor_id: m }, Effect::PushFront { workspace_id: ws, window_id: w });
    }
    if from_stack {
        lemma_replay_tile_stack(sb, ws);
    }
}

proof fn lemma_replay_layout_chosen(s: EngineModel, m: u32, preset: LayoutPreset)
    ensures
        s.replayed(s.layout_chosen(m, preset).1) == s.layout_chosen(m, preset).0,
{
    let ws = s.active_workspace;
    let b = s.focused_brought(m).1;
    let sl = seq![Effect::SetLayout { workspace_id: ws, monitor_id: m, preset }];
    let s2 = s.focused_brought(m).0;
    let d = s2.desktop_or_new(ws);
    let s3 = s2.with_desktop(ws, DesktopView { layouts: d.layouts.insert(m, preset), ..d });
    lemma_replay_focused_brought(s, m);
    lemma_replay_concat(s, b, sl);
    lemma_replay_one(s2, Effect::SetLayout { workspace_id: ws, monitor_id: m, preset });
    lemma_replay_concat(s, b + sl, s3.apply_layout(ws, m).1);
    lemma_replay_apply_layout(s3, ws, m);
}

proof fn lemma_replay_menu_action(s: EngineModel, a: MenuAction)
    ensures
        s.replayed(s.menu_action(a).1) == s.menu_action(a).0,
{
    let ws = s.active_workspace;
    match a {
        MenuAction::MoveWindow(t) => lemma_replay_moved_to_monitor(s, t),
        MenuAction::ApplyLayout(m, digit) => match preset_for_digit(digit) {
            Some(p) => lemma_replay_layout_chosen(s, m, p),
            None => {},
        },
        MenuAction::EnforceOn(m) => lemma_replay_one(s, Effect::SetEnforcement { workspace_id: ws, monitor_id: m, enforced: true }),
        MenuAction::EnforceOff(m) => lemma_replay_one(s, Effect::SetEnforcement { workspace_id: ws, monitor_id: m, enforced: false }),
        _ => {},
    }
}

proof fn lemma_replay_window_opened(s: EngineModel, w: u64, m: u32, toplevel: bool, fullscreen: bool)
    ensures
        s.window_opened_committed(w, m, toplevel, fullscreen).replayed(s.window_opened(w, m, toplevel, fullscreen).1)
            == s.window_opened(w, m, toplevel, fullscreen).0,
{
    let c = s.window_opened_committed(w, m, toplevel, fullscreen);
    let ws = s.active_workspace;
    if toplevel && !fullscreen {
        if c.layout(ws, m) is Some {
            lemma_replay_apply_layout(c, ws, m);
        } else if m == c.stack_id() {
            lemma_replay_tile_stack(c, ws);
        } else {
            lemma_replay_move_to_stack(c, w, ws);
        }
    }
}

proof fn lemma_replay_window_closed(s: EngineModel, w: u64)
    ensures
        s.window_closed_committed(w).replayed(s.window_closed(w).1) == s.window_closed(w).0,
{
    if s.windows.contains_key(w) {
        let t = s.windows[w];
        let c = s.window_closed_committed(w);
        if t.is_toplevel && !t.is_fullscreen {
            if c.layout(t.workspace_id, t.monitor_id) is Some {
                lemma_replay_apply_layout(c, t.workspace_id, t.monitor_id);
            } else if t.monitor_id == c.stack_id() {
                lemma_replay_tile_stack(c, t.workspace_id);
            }
        }
    }
}

proof fn lemma_replay_workspace_changed(s: EngineModel, ws: u32)
    ensures
        s.workspace_changed_committed(ws).replayed(s.workspace_changed(ws).1) == s.workspace_changed(ws).0,
{
    if !s.visited.contains(ws) {
        lemma_replay_tile_stack(s.workspace_changed_committed(ws), ws);
    }
}

proof fn lemma_replay_fullscreen_changed(s: EngineModel, w: u64, fullscreen: bool)
    ensures
        s.fullscreen_changed_committed(w, fullscreen).replayed(s.fullscreen_changed(w, fullscreen).1)
            == s.fullscreen_changed(w, fullscreen).0,
{
    if s.windows.contains_key(w) {
        let t = s.windows[w];
        let ws = t.workspace_id;
        let m = t.monitor_id;
        let c = s.fullscreen_changed_committed(w, fullscreen);
        let s3 = if m == c.stack_id() { c.tile_stack(ws).0 } else { c };
        let e3 = if m == c.stack_id() { c.tile_stack(ws).1 } else { Seq::empty() };
        if m == c.stack_id() {
            lemma_replay_tile_stack(c, ws);
        }
        assert(c.replayed(e3) == s3);
        if s3.layout(ws, m) is Some {
            lemma_replay_concat(c, e3, s3.apply_layout(ws, m).1);
            lemma_replay_apply_layout(s3, ws, m);
        }
    }
}

proof fn lemma_replay_startup(s: EngineModel)
    ensures
        s.startup_committed().replayed(s.startup_completed().1) == s.startup_completed().0,
{
    lemma_replay_tile_stack(s.startup_committed(), s.active_workspace);
}

proof fn lemma_replay_menu_input(s: EngineModel, input: MenuInput)
    ensures
        s.menu_input_committed(input).replayed(s.menu_input(input).1) == s.menu_input(input).0,
{
    let old_state = s.menu;
    let new_state = menu_step(old_state, input).0;
    let action = menu_step(old_state, input).1;
    let s1 = EngineModel { menu: new_state, ..s };
    let e1: Seq<Effect> = if old_state == MenuState::Closed && new_state == MenuState::Overview {
        seq![Effect::ShowMenu]
    } else {
        Seq::empty()
    };
    assert(all_plain(e1.push(Effect::HideMenu))) by {
        assert(forall|i: int| 0 <= i < e1.len() ==> e1[i] == Effect::ShowMenu);
        assert(e1.push(Effect::HideMenu)[e1.len() as int] == Effect::HideMenu);
    }
    assert(all_plain(e1)) by {
        assert(forall|i: int| 0 <= i < e1.len() ==> e1[i] == Effect::ShowMenu);
    }
    match action {
        Some(MenuAction::ZoomIn(m)) => if m == s1.stack_id() {
            let s2 = EngineModel { menu: MenuState::Closed, ..s1 };
            match s2.focused {
                Some(w) => {
                    lemma_replay_plain_head(s2, e1.push(Effect::HideMenu), s2.move_to_stack(w, s2.active_workspace).1);
                    lemma_replay_move_to_stack(s2, w, s2.active_workspace);
                },
                None => {
                    lemma_replay_plain(s2, e1.push(Effect::HideMenu));
                },
            }
        } else {
            assert(all_plain(e1.push(Effect::ShowMenuZoomed(m)))) by {
                assert(forall|i: int| 0 <= i < e1.len() ==> e1[i] == Effect::ShowMenu);
                assert(e1.push(Effect::ShowMenuZoomed(m))[e1.len() as int] == Effect::ShowMenuZoomed(m));
            }
            lemma_replay_plain(s1, e1.push(Effect::ShowMenuZoomed(m)));
        },
        _ => {
            let e2 = if new_state == MenuState::Closed && old_state != MenuState::Closed {
                e1.push(Effect::HideMenu)
            } else {
                e1
            };
            match action {
                Some(a) => {
                    lemma_replay_plain_head(s1, e2, s1.menu_action(a).1);
                    lemma_replay_menu_action(s1, a);
                },
                None => {
                    lemma_replay_plain(s1, e2);
                },
            }
        },
    }
}

} // verus!

verus! {

/// Moving the focused window onto or off the stack screen fills the target
/// monitor with it, raises it, records it there, and then retiles its
/// workspace's stack with the window on its new monitor: the effects begin
/// with those three and a complete tiling pass of the workspace.
pub proof fn law_move_onto_stack_retiles(s: EngineModel, target: u32)
    requires
        s.focused is Some,
        s.windows.contains_key(s.focused->0),
        s.windows[s.focused->0].monitor_id != target,
        target == s.stack_id() || s.windows[s.focused->0].monitor_id == s.stack_id(),
        s.monitor_rect(target) is Some,
    ensures
        ({
            let w = s.focused->0;
            let ws = s.windows[w].workspace_id;
            let r = s.monitor_rect(target)->0;
            let moved = EngineModel {
                windows: s.windows.insert(w, TrackedWindow { monitor_id: target, ..s.windows[w] }),
                ..s
            };
            let head = seq![
                move_to(w, r),
                Effect::Raise(w),
                Effect::Relocate { window_id: w, monitor_id: target },
            ];
            let tiling = moved.tile_stack(ws).1;
            &&& s.moved_to_monitor(target).1.len() >= head.len() + tiling.len()
            &&& s.moved_to_monitor(target).1.take((head.len() + tiling.len()) as int) == head + tiling
        }),
{
    let w = s.focused->0;
    let ws = s.windows[w].workspace_id;
    let r = s.monitor_rect(target)->0;
    let moved = EngineModel {
        windows: s.windows.insert(w, TrackedWindow { monitor_id: target, ..s.windows[w] }),
        ..s
    };
    assert(s.with_window_on(w, target) == moved);
    let head = seq![move_to(w, r), Effect::Raise(w), Effect::Relocate { window_id: w, monitor_id: target }];
    let tiling = moved.tile_stack(ws).1;
    let all = s.moved_to_monitor(target).1;
    let s2 = moved.tile_stack(ws).0;
    if s2.layout(ws, target) is Some {
        assert(all == head + tiling + s2.apply_layout(ws, target).1);
        assert(all.take((head.len() + tiling.len()) as int) =~= head + tiling);
    } else {
        assert(all == head + tiling);
        assert(all.take((head.len() + tiling.len()) as int) =~= head + tiling);
    }
}

/// A tileable window closing on the stack screen of a workspace without a
/// preset there retiles that window's own workspace, whichever workspace is
/// active: the effects are exactly the tiling pass of its workspace once the
/// window is forgotten, and (with a stack screen) they start by pruning that
/// workspace's stack.
pub proof fn law_close_on_stack_retiles_own_workspace(s: EngineModel, w: u64)
    requires
        s.windows.contains_key(w),
        s.windows[w].is_toplevel,
        !s.windows[w].is_fullscreen,
        s.windows[w].monitor_id == s.stack_id(),
        s.layout(s.windows[w].workspace_id, s.windows[w].monitor_id) is None,
    ensures
        ({
            let ws = s.windows[w].workspace_id;
            let gone = EngineModel {
                windows: s.windows.remove(w),
                focused: if s.focused == Some(w) { None } else { s.focused },
                ..s
            }.removed(ws, w);
            &&& s.window_closed(w).1 == gone.tile_stack(ws).1
            &&& s.stack_rect() is Some ==> s.window_closed(w).1.len() >= 2
                && s.window_closed(w).1[0] == Effect::BeginTiling
                && s.window_closed(w).1[1] == Effect::Prune(ws)
        }),
{
    let ws = s.windows[w].workspace_id;
    let gone = EngineModel {
        windows: s.windows.remove(w),
        focused: if s.focused == Some(w) { None } else { s.focused },
        ..s
    }.removed(ws, w);
    assert(gone.layout(ws, s.windows[w].monitor_id) is None);
}

/// Under enforcement, with an expected slot for the window, a reported
/// geometry calls for no move exactly when it equals the slot in position
/// and size; otherwise it calls for exactly one move of that window back
/// into the slot.
pub proof fn law_snap_back_compares_whole_geometry(s: EngineModel, w: u64, g: Rect)
    requires
        !s.is_tiling,
        s.windows.contains_key(w),
        s.desktops.contains_key(s.windows[w].workspace_id),
        enforced_on(s.desktops[s.windows[w].workspace_id], s.windows[w].monitor_id),
        layout_of(s.desktops[s.windows[w].workspace_id], s.windows[w].monitor_id) is Some,
        s.monitor_rect(s.windows[w].monitor_id) is Some,
        position_of(
            preset_positions(
                layout_of(s.desktops[s.windows[w].workspace_id], s.windows[w].monitor_id)->0,
                s.windows_on_monitor(s.windows[w].workspace_id, s.windows[w].monitor_id),
                s.monitor_rect(s.windows[w].monitor_id)->0,
            ),
            w,
        ) is Some,
    ensures
        ({
            let slot = position_of(
                preset_positions(
                    layout_of(s.desktops[s.windows[w].workspace_id], s.windows[w].monitor_id)->0,
                    s.windows_on_monitor(s.windows[w].workspace_id, s.windows[w].monitor_id),
                    s.monitor_rect(s.windows[w].monitor_id)->0,
                ),
                w,
            )->0;
            let same = g.x == slot.x && g.y == slot.y && g.width == slot.width && g.height == slot.height;
            &&& same ==> s.snap_back(false, w, g).len() == 0
            &&& !same ==> s.snap_back(false, w, g) == seq![
                Effect::MoveResize { window_id: w, x: slot.x, y: slot.y, width: slot.width, height: slot.height },
            ]
        }),
{
}

/// Choosing a preset for another monitor while a window of the stack screen
/// has the focus brings that window over (as a tiling batch), records it on
/// the chosen monitor at the front of the stack, and then retiles the stack
/// screen for the windows left on it, before the preset is recorded.
pub proof fn law_bringing_from_stack_retiles(s: EngineModel, m: u32, preset: LayoutPreset)
    requires
        s.focused is Some,
        s.windows.contains_key(s.focused->0),
        s.windows[s.focused->0].monitor_id == s.stack_id(),
        m != s.stack_id(),
        s.monitor_rect(m) is Some,
    ensures
        ({
            let w = s.focused->0;
            let ws = s.active_workspace;
            let r = s.monitor_rect(m)->0;
            let brought = EngineModel {
                windows: s.windows.insert(w, TrackedWindow { monitor_id: m, ..s.windows[w] }),
                ..s
            }.pushed(ws, w);
            let head = seq![
                Effect::BeginTiling,
                move_to(w, r),
                Effect::Raise(w),
                Effect::FinishTiling,
                Effect::Relocate { window_id: w, monitor_id: m },
                Effect::PushFront { workspace_id: ws, window_id: w },
            ];
            let tiling = brought.tile_stack(ws).1;
            &&& s.layout_chosen(m, preset).1.len() > head.len() + tiling.len()
            &&& s.layout_chosen(m, preset).1.take((head.len() + tiling.len()) as int) == head + tiling
            &&& s.layout_chosen(m, preset).1[(head.len() + tiling.len()) as int] == Effect::SetLayout {
                workspace_id: ws,
                monitor_id: m,
                preset,
            }
        }),
{
    let w = s.focused->0;
    let ws = s.active_workspace;
    let r = s.monitor_rect(m)->0;
    let brought = EngineModel {
        windows: s.windows.insert(w, TrackedWindow { monitor_id: m, ..s.windows[w] }),
        ..s
    }.pushed(ws, w);
    assert(s.with_window_on(w, m).pushed(ws, w) == brought);
    let e1 = seq![Effect::BeginTiling, move_to(w, r), Effect::Raise(w), Effect::FinishTiling];
    let upd = seq![Effect::Relocate { window_id: w, monitor_id: m }, Effect::PushFront { workspace_id: ws, window_id: w }];
    let head = seq![
        Effect::BeginTiling,
        move_to(w, r),
        Effect::Raise(w),
        Effect::FinishTiling,
        Effect::Relocate { window_id: w, monitor_id: m },
        Effect::PushFront { workspace_id: ws, window_id: w },
    ];
    assert(e1 + upd =~= head);
    let tiling = brought.tile_stack(ws).1;
    assert(s.focused_brought(m).1 == e1 + upd + tiling);
    let sl = seq![Effect::SetLayout { workspace_id: ws, monitor_id: m, preset }];
    let s2 = s.focused_brought(m).0;
    let d = s2.desktop_or_new(ws);
    let s3 = s2.with_desktop(ws, DesktopView { layouts: d.layouts.insert(m, preset), ..d });
    let all = s.layout_chosen(m, preset).1;
    assert(all == head + tiling + sl + s3.apply_layout(ws, m).1);
    assert(all.take((head.len() + tiling.len()) as int) =~= head + tiling);
    assert(all[(head.len() + tiling.len()) as int] == sl[0]);
}

} // verus!
