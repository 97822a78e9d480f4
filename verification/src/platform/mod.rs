//! OS-agnostic types and interfaces for screen capture, audio capture,
//! system notifications and clipboard access, with in-memory mocks.
//!
//! Captured items are handed over through `std::sync::mpsc` channels; the
//! state of a back end is held in plain fields and changed through
//! `&mut self`.
use std::sync::mpsc::{Receiver, Sender};
use vstd::prelude::*;

pub mod mock;

verus! {

#[verifier::external_type_specification]
#[verifier::external_body]
#[verifier::reject_recursive_types(T)]
pub struct ExReceiver<T>(Receiver<T>);

#[verifier::external_type_specification]
#[verifier::external_body]
#[verifier::reject_recursive_types(T)]
pub struct ExSender<T>(Sender<T>);

/// `std::sync::mpsc::channel`: a new unbounded channel. Nothing is stated of
/// the pair; what a receiver delivers is not modelled.
#[verifier::external_body]
pub(crate) fn open_channel<T>() -> (Sender<T>, Receiver<T>) {
    std::sync::mpsc::channel()
}

/// `Sender::send`: queue an item for the receiver. The error that comes back
/// when the receiver is gone is dropped, as the callers drop it.
#[verifier::external_body]
pub(crate) fn deliver<T>(tx: &Sender<T>, item: T) {
    let _ = tx.send(item);
}

/// What a receiver of captured frames yields, in order, before it reports
/// its channel closed.
pub uninterp spec fn queued_frames(r: Receiver<CapturedFrame>) -> Seq<CapturedFrame>;

/// What a receiver of audio chunks yields, in order, before it reports its
/// channel closed.
pub uninterp spec fn queued_chunks(r: Receiver<AudioChunk>) -> Seq<AudioChunk>;

/// `std::sync::mpsc::channel`, then `Sender::send` of each frame in order,
/// then the sender dropped. The channel is unbounded and its receiver is
/// alive, so every send succeeds: the receiver yields exactly the frames, in
/// order, and then reports the channel closed.
#[verifier::external_body]
pub(crate) fn frames_channel(items: Vec<CapturedFrame>) -> (r: Receiver<CapturedFrame>)
    ensures
        queued_frames(r) == items@,
{
    let (tx, rx) = std::sync::mpsc::channel();
    for item in items {
        let _ = tx.send(item);
    }
    rx
}

/// `std::sync::mpsc::channel`, then one `Sender::send`, then the sender
/// dropped: the receiver yields the chunk and then reports the channel
/// closed.
#[verifier::external_body]
pub(crate) fn chunk_channel(item: AudioChunk) -> (r: Receiver<AudioChunk>)
    ensures
        queued_chunks(r) == seq![item],
{
    let (tx, rx) = std::sync::mpsc::channel();
    let _ = tx.send(item);
    rx
}

/// Pixel format of a captured frame.
#[derive(Debug, Clone, Copy, PartialEq, Eq, Structural)]
pub enum PixelFormat {
    /// 32-bit BGRA (most common on macOS/Windows).
    Bgra,
    /// 32-bit RGBA.
    Rgba,
    /// YUV 4:2:0 planar (used by hardware encoders).
    Nv12,
}

/// Configuration for a screen capture session.
#[derive(Debug, Clone)]
pub struct CaptureConfig {
    /// Target frame rate in frames per second.
    pub fps: u32,
    /// Desired pixel format for captured frames.
    pub pixel_format: PixelFormat,
    /// Optional maximum resolution width. `None` means native.
    pub max_width: Option<u32>,
    /// Optional maximum resolution height. `None` means native.
    pub max_height: Option<u32>,
    /// Whether to capture the cursor in the frame.
    pub capture_cursor: bool,
}

impl Default for CaptureConfig {
    /// 60 fps, BGRA, native resolution, cursor captured.
    fn default() -> (c: Self)
        ensures
            c.fps == 60,
            c.pixel_format == PixelFormat::Bgra,
            c.max_width is None,
            c.max_height is None,
            c.capture_cursor,
    {
        CaptureConfig {
            fps: 60,
            pixel_format: PixelFormat::Bgra,
            max_width: None,
            max_height: None,
            capture_cursor: true,
        }
    }
}

/// A single captured video frame.
#[derive(Debug, Clone)]
pub struct CapturedFrame {
    /// Raw pixel data.
    pub data: Vec<u8>,
    /// Width in pixels.
    pub width: u32,
    /// Height in pixels.
    pub height: u32,
    /// Pixel format of the data.
    pub pixel_format: PixelFormat,
    /// Bytes per row (stride). May be larger than `width * bpp`.
    pub stride: u32,
    /// Display this frame was captured from.
    pub display_id: u64,
    /// Monotonic timestamp in microseconds.
    pub timestamp_us: u64,
}

/// Mouse button identifiers.
#[derive(Debug, Clone, Copy, PartialEq, Eq, Structural)]
pub enum MouseButton {
    Left,
    Right,
    Middle,
}

/// Mouse action types.
#[derive(Debug, Clone, Copy, PartialEq, Eq, Structural)]
pub enum MouseAction {
    Move,
    Press(MouseButton),
    Release(MouseButton),
    DoubleClick(MouseButton),
}

/// Modifier key flags.
#[derive(Debug, Clone, Copy)]
pub struct KeyModifiers {
    pub shift: bool,
    pub control: bool,
    pub alt: bool,
    pub meta: bool,
}

impl Default for KeyModifiers {
    /// No modifier held.
    fn default() -> (m: Self)
        ensures
            !m.shift && !m.control && !m.alt && !m.meta,
    {
        KeyModifiers { shift: false, control: false, alt: false, meta: false }
    }
}

/// A keyboard input event.
#[derive(Debug, Clone)]
pub struct KeyEvent {
    /// Platform-independent key code (USB HID usage codes).
    pub key_code: u32,
    /// Whether the key is pressed (`true`) or released (`false`).
    pub pressed: bool,
    /// Active modifier flags (shift, ctrl, alt, meta).
    pub modifiers: KeyModifiers,
}

/// Audio sample format.
#[derive(Debug, Clone, Copy, PartialEq, Eq, Structural)]
pub enum AudioSampleFormat {
    /// 16-bit signed integer.
    I16,
    /// 32-bit float.
    F32,
}

/// The size in bytes of one sample of a format.
pub open spec fn sample_bytes(f: AudioSampleFormat) -> nat {
    match f {
        AudioSampleFormat::I16 => 2,
        AudioSampleFormat::F32 => 4,
    }
}

/// Configuration for an audio capture session.
#[derive(Debug, Clone, Copy)]
pub struct AudioConfig {
    /// Sample rate in Hz.
    pub sample_rate: u32,
    /// Number of channels (1 = mono, 2 = stereo).
    pub channels: u16,
    /// Sample format.
    pub sample_format: AudioSampleFormat,
}

impl Default for AudioConfig {
    /// 48 kHz stereo, 32-bit float samples.
    fn default() -> (c: Self)
        ensures
            c.sample_rate == 48_000,
            c.channels == 2,
            c.sample_format == AudioSampleFormat::F32,
    {
        AudioConfig { sample_rate: 48_000, channels: 2, sample_format: AudioSampleFormat::F32 }
    }
}

/// A chunk of captured audio data.
#[derive(Debug, Clone)]
pub struct AudioChunk {
    /// Raw audio sample data.
    pub data: Vec<u8>,
    /// Configuration describing the format of `data`.
    pub config: AudioConfig,
    /// Monotonic timestamp in microseconds.
    pub timestamp_us: u64,
}

/// Information about an audio device.
#[derive(Debug, Clone)]
pub struct AudioDeviceInfo {
    /// Platform-assigned device identifier.
    pub id: String,
    /// Human-readable device name.
    pub name: String,
    /// Whether this is an input device (`true`) or output device (`false`).
    pub is_input: bool,
    /// Whether this is the system default device.
    pub is_default: bool,
}

/// Status indicator shown in the system tray.
#[derive(Debug, Clone, PartialEq, Eq, Structural)]
pub enum TrayStatus {
    /// Idle, waiting for connection.
    Idle,
    /// Actively connected to a remote session.
    Connected,
    /// An error condition needs attention.
    Error,
    /// Application is updating.
    Updating,
}

/// System sound identifiers for audio feedback.
#[derive(Debug, Clone, Copy, PartialEq, Eq, Structural)]
pub enum SystemSound {
    /// Played when a remote session connects.
    Connected,
    /// Played when a remote session disconnects.
    Disconnected,
    /// Played when an error occurs.
    Error,
    /// Played when a file transfer completes.
    TransferComplete,
}

/// Content stored on the clipboard.
#[derive(Debug, Clone)]
pub enum ClipboardContent {
    /// Plain UTF-8 text.
    Text(String),
    /// Raw image data (PNG encoded).
    Image(Vec<u8>),
    /// File path list.
    Files(Vec<String>),
}

/// An event emitted when clipboard content changes.
#[derive(Debug, Clone)]
pub struct ClipboardEvent {
    /// The new clipboard content.
    pub content: ClipboardContent,
    /// Monotonic timestamp in microseconds.
    pub timestamp_us: u64,
}

/// Captures system or application audio.
pub trait AudioCapture {
    /// Start capturing audio. Returns a channel receiver for audio chunks.
    fn start(&mut self, config: AudioConfig) -> Result<Receiver<AudioChunk>, PlatformError>;

    /// Stop the active audio capture session.
    fn stop(&mut self) -> Result<(), PlatformError>;

    /// List available audio devices.
    fn devices(&self) -> Result<Vec<AudioDeviceInfo>, PlatformError>;
}

/// Manages system tray icon, notifications, and audio feedback.
pub trait SystemNotify {
    /// Show a desktop notification.
    fn show_notification(&mut self, title: &str, body: &str) -> Result<(), PlatformError>;

    /// Update the system tray status indicator.
    fn set_tray_status(&mut self, status: TrayStatus) -> Result<(), PlatformError>;

    /// Play a system sound for audio feedback.
    fn play_sound(&mut self, sound: SystemSound) -> Result<(), PlatformError>;
}

/// Reads from and writes to the system clipboard, with change notifications.
pub trait ClipboardProvider {
    /// Get the current clipboard text content.
    fn get_text(&self) -> Result<String, PlatformError>;

    /// Set clipboard text content.
    fn set_text(&mut self, text: &str) -> Result<(), PlatformError>;

    /// Watch for clipboard changes. Returns a channel that receives events.
    fn watch(&mut self) -> Result<Receiver<ClipboardEvent>, PlatformError>;
}

/// Errors originating from platform-specific operations.
#[derive(Debug)]
pub enum PlatformError {
    /// The requested operation is not supported on this platform.
    NotSupported(String),
    /// A required system permission was denied (e.g. screen recording).
    PermissionDenied(String),
    /// A platform API call failed.
    ApiError(String),
    /// The device or resource was not found.
    NotFound(String),
    /// An I/O error occurred.
    Io(std::io::Error),
}

/// The message of an error; for an I/O error, the prefix alone (the text of
/// the I/O error itself comes from the operating system).
pub open spec fn platform_error_prefix(e: PlatformError) -> Seq<char> {
    match e {
        PlatformError::NotSupported(m) => "not supported: "@ + m@,
        PlatformError::PermissionDenied(m) => "permission denied: "@ + m@,
        PlatformError::ApiError(m) => "platform api error: "@ + m@,
        PlatformError::NotFound(m) => "not found: "@ + m@,
        PlatformError::Io(_) => "io error: "@,
    }
}

/// `<std::io::Error as Display>::fmt`: the text of an I/O error. Nothing is
/// stated of it: it may come from the operating system.
#[verifier::external_body]
fn io_error_text(e: &std::io::Error) -> String {
    format!("{}", e)
}

impl PlatformError {
    /// The human-readable message of this error.
    pub fn to_display_string(&self) -> (s: String)
        ensures
            !(*self is Io) ==> s@ == platform_error_prefix(*self),
            *self is Io ==> s@.len() >= 10 && s@.subrange(0, 10) == platform_error_prefix(*self),
    {
        match self {
            PlatformError::NotSupported(m) => {
                let mut s = String::from_str("not supported: ");
                s.append(m.as_str());
                s
            },
            PlatformError::PermissionDenied(m) => {
                let mut s = String::from_str("permission denied: ");
                s.append(m.as_str());
                s
            },
            PlatformError::ApiError(m) => {
                let mut s = String::from_str("platform api error: ");
                s.append(m.as_str());
                s
            },
            PlatformError::NotFound(m) => {
                let mut s = String::from_str("not found: ");
                s.append(m.as_str());
                s
            },
            PlatformError::Io(e) => {
                let mut s = String::from_str("io error: ");
                proof {
                    reveal_strlit("io error: ");
                }
                let ghost head = s@;
                let t = io_error_text(e);
                s.append(t.as_str());
                assert(s@.subrange(0, 10) =~= head);
                s
            },
        }
    }
}

impl From<std::io::Error> for PlatformError {
    fn from(e: std::io::Error) -> (r: Self) {
        PlatformError::Io(e)
    }
}

impl vstd::std_specs::convert::FromSpecImpl<std::io::Error> for PlatformError {
    open spec fn obeys_from_spec() -> bool {
        true
    }

    open spec fn from_spec(v: std::io::Error) -> Self {
        PlatformError::Io(v)
    }
}

} // verus!
