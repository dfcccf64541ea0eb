//! Plain data types shared by the layout code, the engine and the menu.

use std::collections::HashMap;
use std::collections::HashSet;
use vstd::prelude::*;
use vstd::std_specs::hash::group_hash_axioms;
use crate::seq_facts::lemma_filter_take_step;
use crate::seq_facts::lemma_take_full;

verus! {

broadcast use group_hash_axioms;

/// An axis-aligned rectangle in compositor coordinates.
#[derive(Clone, Copy, Debug, PartialEq, Eq, Structural)]
pub struct Rect {
    pub x: i32,
    pub y: i32,
    /// Signed to match Wayland/X11 geometry APIs
    pub width: i32,
    /// Signed to match Wayland/X11 geometry APIs
    pub height: i32,
}

/// The layouts a monitor can be given from the menu.
#[derive(Clone, Copy, Debug, PartialEq, Eq, Structural)]
pub enum LayoutPreset {
    Fullscreen,
    SideBySide,
    TopBottom,
    Quadrants,
}

/// The role a window plays, as far as tiling cares.
#[derive(Clone, Copy, Debug, PartialEq, Eq, Structural)]
pub enum WindowType {
    Normal,
    Dialog,
    Popup,
    Splash,
}

/// A window as seen by the tiling layer.
#[derive(Clone, Debug, PartialEq, Eq)]
pub struct Window {
    pub id: u64,
    pub title: String,
    pub app_class: String,
    pub monitor_id: u32,
    pub tile_position: Rect,
    pub virtual_desktop_id: u32,
    pub is_fullscreen: bool,
    pub window_type: WindowType,
}

/// A physical display.
#[derive(Clone, Debug, PartialEq, Eq)]
pub struct Monitor {
    pub id: u32,
    pub name: String,
    /// Left-to-right display order index
    pub position: u32,
    pub width: u32,
    pub height: u32,
    pub is_stack: bool,
}

/// Per-workspace tiling state: layout presets and enforcement per monitor,
/// and the ordered window stack (front = newest).
#[derive(Clone, Debug, PartialEq, Eq)]
pub struct VirtualDesktop {
    pub id: u32,
    pub layout_presets: HashMap<u32, LayoutPreset>,
    /// Per-monitor enforcement: true = layout is enforced, false = relaxed
    pub enforcement_modes: HashMap<u32, bool>,
    pub stack_windows: Vec<u64>,
}

/// The mathematical content of a [`VirtualDesktop`].
#[verifier::ext_equal]
pub struct DesktopView {
    pub id: u32,
    pub layouts: Map<u32, LayoutPreset>,
    pub enforcement: Map<u32, bool>,
    pub stack: Seq<u64>,
}

impl View for VirtualDesktop {
    type V = DesktopView;

    open spec fn view(&self) -> DesktopView {
        DesktopView {
            id: self.id,
            layouts: self.layout_presets@,
            enforcement: self.enforcement_modes@,
            stack: self.stack_windows@,
        }
    }
}

/// `s` with every occurrence of `w` taken out, order kept.
pub open spec fn without(s: Seq<u64>, w: u64) -> Seq<u64> {
    s.filter(differs_from(w))
}

/// The predicate "is not `w`".
pub open spec fn differs_from(w: u64) -> spec_fn(u64) -> bool {
    |x: u64| x != w
}

/// The predicate "is in `live`".
pub open spec fn member_of(live: Set<u64>) -> spec_fn(u64) -> bool {
    |x: u64| live.contains(x)
}

/// `s` restricted to the ids in `live`, order kept.
pub open spec fn restricted_to(s: Seq<u64>, live: Set<u64>) -> Seq<u64> {
    s.filter(member_of(live))
}

/// The layout a desktop view holds for a monitor, if any.
pub open spec fn layout_of(d: DesktopView, monitor_id: u32) -> Option<LayoutPreset> {
    if d.layouts.contains_key(monitor_id) {
        Some(d.layouts[monitor_id])
    } else {
        None
    }
}

/// Whether a desktop view enforces the layout on a monitor (absent means relaxed).
pub open spec fn enforced_on(d: DesktopView, monitor_id: u32) -> bool {
    d.enforcement.contains_key(monitor_id) && d.enforcement[monitor_id]
}

/// Copy of `v` without any occurrence of `w`.
fn vec_without(v: &Vec<u64>, w: u64) -> (r: Vec<u64>)
    ensures
        r@ == without(v@, w),
{
    let mut r: Vec<u64> = Vec::new();
    let n = v.len();
    for i in 0..n
        invariant
            n == v@.len(),
            r@ == without(v@.take(i as int), w),
    {
        proof {
            lemma_filter_take_step(v@, differs_from(w), i as int);
        }
        if v[i] != w {
            r.push(v[i]);
        }
    }
    proof {
        lemma_take_full(v@);
    }
    r
}

impl VirtualDesktop {
    /// An empty desktop: no presets, nothing enforced, no windows.
    pub fn new(id: u32) -> (r: Self)
        ensures
            r@.id == id,
            r@.layouts == Map::<u32, LayoutPreset>::empty(),
            r@.enforcement == Map::<u32, bool>::empty(),
            r@.stack == Seq::<u64>::empty(),
    {
        VirtualDesktop {
            id,
            layout_presets: HashMap::new(),
            enforcement_modes: HashMap::new(),
            stack_windows: Vec::new(),
        }
    }

    /// Set (or replace) the layout preset of a monitor.
    pub fn set_layout(&mut self, monitor_id: u32, preset: LayoutPreset)
        ensures
            final(self)@.layouts == old(self)@.layouts.insert(monitor_id, preset),
            final(self)@.enforcement == old(self)@.enforcement,
            final(self)@.stack == old(self)@.stack,
            final(self)@.id == old(self)@.id,
    {
        self.layout_presets.insert(monitor_id, preset);
    }

    /// The layout preset of a monitor, if one was set.
    pub fn get_layout(&self, monitor_id: u32) -> (r: Option<LayoutPreset>)
        ensures
            r == layout_of(self@, monitor_id),
    {
        match self.layout_presets.get(&monitor_id) {
            Some(p) => Some(*p),
            None => None,
        }
    }

    /// Turn layout enforcement on or off for a monitor.
    pub fn set_enforcement(&mut self, monitor_id: u32, enforced: bool)
        ensures
            final(self)@.enforcement == old(self)@.enforcement.insert(monitor_id, enforced),
            final(self)@.layouts == old(self)@.layouts,
            final(self)@.stack == old(self)@.stack,
            final(self)@.id == old(self)@.id,
    {
        self.enforcement_modes.insert(monitor_id, enforced);
    }

    /// Whether the layout is enforced on a monitor; `false` when never set.
    pub fn is_enforced(&self, monitor_id: u32) -> (r: bool)
        ensures
            r == enforced_on(self@, monitor_id),
    {
        match self.enforcement_modes.get(&monitor_id) {
            Some(b) => *b,
            None => false,
        }
    }

    /// Add a window to the front of the stack. If already present, move it to front.
    pub fn push_window(&mut self, window_id: u64)
        ensures
            final(self)@.stack == seq![window_id] + without(old(self)@.stack, window_id),
            final(self)@.layouts == old(self)@.layouts,
            final(self)@.enforcement == old(self)@.enforcement,
            final(self)@.id == old(self)@.id,
    {
        let rest = vec_without(&self.stack_windows, window_id);
        let mut front: Vec<u64> = Vec::new();
        front.push(window_id);
        let mut rest = rest;
        front.append(&mut rest);
        self.stack_windows = front;
    }

    /// Add a window to the back of the stack. If already present, move it to back.
    pub fn append_window(&mut self, window_id: u64)
        ensures
            final(self)@.stack == without(old(self)@.stack, window_id).push(window_id),
            final(self)@.layouts == old(self)@.layouts,
            final(self)@.enforcement == old(self)@.enforcement,
            final(self)@.id == old(self)@.id,
    {
        let mut rest = vec_without(&self.stack_windows, window_id);
        rest.push(window_id);
        self.stack_windows = rest;
    }

    /// Remove every occurrence of a window from the stack.
    pub fn remove_window(&mut self, window_id: u64)
        ensures
            final(self)@.stack == without(old(self)@.stack, window_id),
            final(self)@.layouts == old(self)@.layouts,
            final(self)@.enforcement == old(self)@.enforcement,
            final(self)@.id == old(self)@.id,
    {
        self.stack_windows = vec_without(&self.stack_windows, window_id);
    }

    /// Drop stack entries whose window is not in `live`, keeping the order of the rest.
    pub fn prune_orphaned_windows(&mut self, live: &HashSet<u64>)
        ensures
            final(self)@.stack == restricted_to(old(self)@.stack, live@),
            final(self)@.layouts == old(self)@.layouts,
            final(self)@.enforcement == old(self)@.enforcement,
            final(self)@.id == old(self)@.id,
    {
        let mut kept: Vec<u64> = Vec::new();
        let n = self.stack_windows.len();
        let ghost s = self.stack_windows@;
        for i in 0..n
            invariant
                n == s.len(),
                s == self.stack_windows@,
                kept@ == restricted_to(s.take(i as int), live@),
        {
            proof {
                lemma_filter_take_step(s, member_of(live@), i as int);
            }
            let w = self.stack_windows[i];
            if live.contains(&w) {
                kept.push(w);
            }
        }
        proof {
            lemma_take_full(s);
        }
        self.stack_windows = kept;
    }
}

} // verus!

verus! {

/// Filtering keeps distinct elements distinct.
proof fn lemma_filter_keeps_distinct(s: Seq<u64>, p: spec_fn(u64) -> bool)
    requires
        s.no_duplicates(),
    ensures
        s.filter(p).no_duplicates(),
    decreases s.len(),
{
    reveal(Seq::filter);
    if s.len() > 0 {
        lemma_filter_keeps_distinct(s.drop_last(), p);
        let sub = s.drop_last().filter(p);
        if p(s.last()) {
            assert forall|i: int| 0 <= i < sub.len() implies sub[i] != s.last() by {
                assert(sub.contains(sub[i]));
                s.drop_last().lemma_filter_contains_rev(p, sub[i]);
                let k = choose|k: int| 0 <= k < s.drop_last().len() && s.drop_last()[k] == sub[i];
                assert(s[k] == sub[i]);
            }
        }
    }
}

/// Nothing left after filtering fails the filter.
proof fn lemma_filter_only_kept(s: Seq<u64>, p: spec_fn(u64) -> bool, x: u64)
    requires
        !p(x),
    ensures
        !s.filter(p).contains(x),
{
    broadcast use vstd::seq_lib::group_filter_ensures;
    if s.filter(p).contains(x) {
        let i = choose|i: int| 0 <= i < s.filter(p).len() && s.filter(p)[i] == x;
        assert(p(s.filter(p)[i]));
    }
}

/// A desktop's stack stays free of duplicates under push, append, remove
/// and prune; a pushed window is first, an appended one last, and a removed
/// one (like a pruned-away one) is gone.
pub proof fn law_stack_stays_distinct(stack: Seq<u64>, w: u64, live: Set<u64>)
    requires
        stack.no_duplicates(),
    ensures
        (seq![w] + without(stack, w)).no_duplicates(),
        (seq![w] + without(stack, w))[0] == w,
        without(stack, w).push(w).no_duplicates(),
        without(stack, w).push(w).last() == w,
        without(stack, w).no_duplicates(),
        !without(stack, w).contains(w),
        restricted_to(stack, live).no_duplicates(),
        forall|x: u64| !live.contains(x) ==> !(#[trigger] restricted_to(stack, live).contains(x)),
{
    lemma_filter_keeps_distinct(stack, differs_from(w));
    lemma_filter_keeps_distinct(stack, member_of(live));
    lemma_filter_only_kept(stack, differs_from(w), w);
    let rest = without(stack, w);
    let front = seq![w] + rest;
    assert forall|i: int, j: int| 0 <= i < front.len() && 0 <= j < front.len() && i != j implies front[i] != front[j] by {
        if i == 0 {
            assert(rest.contains(front[j]) || j == 0);
        } else if j == 0 {
            assert(rest.contains(front[i]));
        }
    }
    let back = rest.push(w);
    assert forall|i: int, j: int| 0 <= i < back.len() && 0 <= j < back.len() && i != j implies back[i] != back[j] by {
        if i == back.len() - 1 {
            assert(rest.contains(back[j]));
        } else if j == back.len() - 1 {
            assert(rest.contains(back[i]));
        }
    }
    assert forall|x: u64| !live.contains(x) implies !(#[trigger] restricted_to(stack, live).contains(x)) by {
        lemma_filter_only_kept(stack, member_of(live), x);
    }
}

} // verus!
