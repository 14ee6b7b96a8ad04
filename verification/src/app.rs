//! What an application asks of its window and its OpenGL context.

use vstd::prelude::*;

verus! {

/// The settings an application starts with.
#[derive(Debug, Clone)]
pub struct AppInfo {
    /// Title of the window.
    pub title: &'static str,
    /// Width of the window in pixels.
    pub window_width: u32,
    /// Height of the window in pixels.
    pub window_height: u32,
    /// Major version of the OpenGL context.
    pub major_version: u32,
    /// Minor version of the OpenGL context.
    pub minor_version: u32,
    /// Samples per pixel; 0 for no multisampling.
    pub samples: usize,
    /// Whether the window covers the screen.
    pub fullscreen: bool,
    /// Whether buffer swaps wait for the display.
    pub vsync: bool,
    /// Whether the cursor is shown.
    pub cursor: bool,
    /// Whether the context renders in stereo.
    pub stereo: bool,
    /// Whether the context is a debug context.
    pub debug: bool,
}

impl AppInfo {
    /// The version of OpenGL that applications ask for: 4.3.
    pub fn version() -> (r: (u32, u32))
        ensures
            r == (4u32, 3u32),
    {
        (4, 3)
    }

    /// The settings of an application that sets nothing: a window of 800
    /// by 600 pixels with a cursor, and an OpenGL context of the version
    /// that [`AppInfo::version`] gives, without any extras.
    pub fn default() -> (r: AppInfo)
        ensures
            r.title@ == "SuperBible6 Example"@,
            r.window_width == 800,
            r.window_height == 600,
            r.major_version == 4,
            r.minor_version == 3,
            r.samples == 0,
            !r.fullscreen,
            !r.vsync,
            r.cursor,
            !r.stereo,
            !r.debug,
    {
        let (major, minor) = AppInfo::version();
        AppInfo {
            title: "SuperBible6 Example",
            window_width: 800,
            window_height: 600,
            major_version: major,
            minor_version: minor,
            samples: 0,
            fullscreen: false,
            vsync: false,
            cursor: true,
            stereo: false,
            debug: false,
        }
    }
}

} // verus!
