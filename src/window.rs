//! Settings of the windows a presentation is shown in.
use vstd::prelude::*;

use crate::drawable::DrawSettings;

verus! {

/// How one window shows the presentation.
#[derive(Clone, Copy, Debug)]
pub struct WindowSettings {
    /// How nodes are drawn in this window.
    pub draw_settings: DrawSettings,
    /// The size of the window, in pixels.
    pub window_size: (u32, u32),
}

impl WindowSettings {
    /// The main window: 1200×800, drawn for the audience.
    pub fn main_window() -> (r: WindowSettings)
        ensures
            !r.draw_settings.notes_view,
            r.window_size == (1200u32, 800u32),
    {
        WindowSettings { draw_settings: DrawSettings::main_window(), window_size: (1200, 800) }
    }

    /// The notes window: 600×400, showing how far each animation has come.
    pub fn notes_window() -> (r: WindowSettings)
        ensures
            r.draw_settings.notes_view,
            r.window_size == (600u32, 400u32),
    {
        WindowSettings { draw_settings: DrawSettings::notes_window(), window_size: (600, 400) }
    }
}

} // verus!
