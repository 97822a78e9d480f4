//! Configuration, statistics and errors of the video display.
use vstd::prelude::*;
use crate::platform::{platform_error_prefix, PlatformError};

verus! {

/// Configuration for video display.
#[derive(Debug, Clone)]
pub struct DisplayConfig {
    /// Window title.
    pub title: String,
    /// Initial window width.
    pub width: u32,
    /// Initial window height.
    pub height: u32,
    /// Whether the window is resizable.
    pub resizable: bool,
    /// Whether to use VSync.
    pub vsync: bool,
    /// Target frame rate (0 = unlimited).
    pub target_fps: u32,
}

impl Default for DisplayConfig {
    /// A resizable 1280x720 window titled "RDCS Remote Desktop", with VSync,
    /// at 60 fps.
    fn default() -> (c: Self)
        ensures
            c.title@ == "RDCS Remote Desktop"@,
            c.width == 1280,
            c.height == 720,
            c.resizable,
            c.vsync,
            c.target_fps == 60,
    {
        DisplayConfig {
            title: String::from_str("RDCS Remote Desktop"),
            width: 1280,
            height: 720,
            resizable: true,
            vsync: true,
            target_fps: 60,
        }
    }
}

impl DisplayConfig {
    /// Set window title.
    pub fn with_title(self, title: &str) -> (c: Self)
        ensures
            c.title@ == title@,
            c.width == self.width && c.height == self.height,
            c.resizable == self.resizable && c.vsync == self.vsync,
            c.target_fps == self.target_fps,
    {
        let mut c = self;
        c.title = title.to_string();
        c
    }

    /// Set window size.
    pub fn with_size(self, width: u32, height: u32) -> (c: Self)
        ensures
            c.title@ == self.title@,
            c.width == width && c.height == height,
            c.resizable == self.resizable && c.vsync == self.vsync,
            c.target_fps == self.target_fps,
    {
        let mut c = self;
        c.width = width;
        c.height = height;
        c
    }

    /// Set resizable flag.
    pub fn with_resizable(self, resizable: bool) -> (c: Self)
        ensures
            c.title@ == self.title@,
            c.width == self.width && c.height == self.height,
            c.resizable == resizable && c.vsync == self.vsync,
            c.target_fps == self.target_fps,
    {
        let mut c = self;
        c.resizable = resizable;
        c
    }

    /// Set VSync flag.
    pub fn with_vsync(self, vsync: bool) -> (c: Self)
        ensures
            c.title@ == self.title@,
            c.width == self.width && c.height == self.height,
            c.resizable == self.resizable && c.vsync == vsync,
            c.target_fps == self.target_fps,
    {
        let mut c = self;
        c.vsync = vsync;
        c
    }

    /// Set target FPS.
    pub fn with_target_fps(self, fps: u32) -> (c: Self)
        ensures
            c.title@ == self.title@,
            c.width == self.width && c.height == self.height,
            c.resizable == self.resizable && c.vsync == self.vsync,
            c.target_fps == fps,
    {
        let mut c = self;
        c.target_fps = fps;
        c
    }
}

/// Rendering statistics.
#[derive(Debug, Clone, Copy)]
pub struct RenderStats {
    pub frames_rendered: u64,
    pub total_render_time_ms: u64,
    pub frames_dropped: u64,
    pub texture_recreations: u32,
}

impl Default for RenderStats {
    /// All counters at zero.
    fn default() -> (s: Self)
        ensures
            s.frames_rendered == 0 && s.total_render_time_ms == 0,
            s.frames_dropped == 0 && s.texture_recreations == 0,
    {
        RenderStats { frames_rendered: 0, total_render_time_ms: 0, frames_dropped: 0, texture_recreations: 0 }
    }
}

/// Errors that can occur during display operations.
#[derive(Debug)]
pub enum DisplayError {
    /// SDL2 initialization failed.
    SdlInitFailed(String),
    /// Window creation failed.
    WindowCreationFailed(String),
    /// Renderer creation failed.
    RendererCreationFailed(String),
    /// Texture creation failed.
    TextureCreationFailed(String),
    /// Frame rendering failed.
    RenderFailed(String),
    /// Invalid frame format.
    InvalidFrameFormat(String),
    /// Invalid configuration.
    InvalidConfig(String),
    /// Platform error from the platform layer.
    Platform(PlatformError),
}

/// The message of a display error; for a platform I/O error, the prefix
/// alone (see `platform_error_prefix`).
pub open spec fn display_error_prefix(e: DisplayError) -> Seq<char> {
    match e {
        DisplayError::SdlInitFailed(m) => "SDL2 initialization failed: "@ + m@,
        DisplayError::WindowCreationFailed(m) => "window creation failed: "@ + m@,
        DisplayError::RendererCreationFailed(m) => "renderer creation failed: "@ + m@,
        DisplayError::TextureCreationFailed(m) => "texture creation failed: "@ + m@,
        DisplayError::RenderFailed(m) => "frame rendering failed: "@ + m@,
        DisplayError::InvalidFrameFormat(m) => "invalid frame format: "@ + m@,
        DisplayError::InvalidConfig(m) => "invalid configuration: "@ + m@,
        DisplayError::Platform(p) => "platform error: "@ + platform_error_prefix(p),
    }
}

/// A message with the given prefix.
fn prefixed(prefix: &str, m: &String) -> (s: String)
    ensures
        s@ == prefix@ + m@,
{
    let mut s = String::from_str(prefix);
    s.append(m.as_str());
    s
}

impl DisplayError {
    /// The human-readable message of this error.
    pub fn to_display_string(&self) -> (s: String)
        ensures
            !(*self matches DisplayError::Platform(PlatformError::Io(_))) ==> s@ == display_error_prefix(*self),
            *self matches DisplayError::Platform(PlatformError::Io(_)) ==> s@.len() >= 26 && s@.subrange(0, 26)
                == display_error_prefix(*self),
    {
        match self {
            DisplayError::SdlInitFailed(m) => prefixed("SDL2 initialization failed: ", m),
            DisplayError::WindowCreationFailed(m) => prefixed("window creation failed: ", m),
            DisplayError::RendererCreationFailed(m) => prefixed("renderer creation failed: ", m),
            DisplayError::TextureCreationFailed(m) => prefixed("texture creation failed: ", m),
            DisplayError::RenderFailed(m) => prefixed("frame rendering failed: ", m),
            DisplayError::InvalidFrameFormat(m) => prefixed("invalid frame format: ", m),
            DisplayError::InvalidConfig(m) => prefixed("invalid configuration: ", m),
            DisplayError::Platform(p) => {
                let inner = p.to_display_string();
                let s = prefixed("platform error: ", &inner);
                proof {
                    reveal_strlit("platform error: ");
                    reveal_strlit("io error: ");
                    if p is Io {
                        assert(s@.subrange(0, 26) =~= "platform error: "@ + inner@.subrange(0, 10));
                    }
                }
                s
            },
        }
    }
}

impl From<String> for DisplayError {
    fn from(s: String) -> (e: Self) {
        DisplayError::RenderFailed(s)
    }
}

impl vstd::std_specs::convert::FromSpecImpl<String> for DisplayError {
    open spec fn obeys_from_spec() -> bool {
        true
    }

    open spec fn from_spec(v: String) -> Self {
        DisplayError::RenderFailed(v)
    }
}

impl From<PlatformError> for DisplayError {
    fn from(e: PlatformError) -> (d: Self) {
        DisplayError::Platform(e)
    }
}

impl vstd::std_specs::convert::FromSpecImpl<PlatformError> for DisplayError {
    open spec fn obeys_from_spec() -> bool {
        true
    }

    open spec fn from_spec(v: PlatformError) -> Self {
        DisplayError::Platform(v)
    }
}

} // verus!
