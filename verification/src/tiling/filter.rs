//! Which windows take part in tiling.

use crate::model::{Window, WindowType};
use vstd::prelude::*;

verus! {

/// Returns true if the window should be included in tiling layout.
/// Filters out dialogs, popups, splash screens, and fullscreen windows.
pub fn is_toplevel(window: &Window) -> (r: bool)
    ensures
        r == (window.window_type == WindowType::Normal && !window.is_fullscreen),
{
    window.window_type == WindowType::Normal && !window.is_fullscreen
}

} // verus!
