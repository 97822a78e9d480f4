//! The macOS back ends of the platform interfaces as they stand on other
//! systems: every operation answers `NotSupported`, and every permission
//! check answers `false`.
use std::sync::mpsc::Receiver;
use vstd::prelude::*;
use crate::platform::{
    AudioCapture, AudioChunk, AudioConfig, AudioDeviceInfo, CaptureConfig, CapturedFrame, ClipboardEvent, ClipboardProvider, MouseAction,
    MouseButton, PlatformError, SystemNotify, SystemSound, TrayStatus,
};

verus! {

/// `e` is a `NotSupported` error with the message `m`.
pub open spec fn not_supported(e: PlatformError, m: Seq<char>) -> bool {
    e matches PlatformError::NotSupported(s) && s@ == m
}

/// A `NotSupported` error with the given message.
fn unsupported(msg: &str) -> (e: PlatformError)
    ensures
        not_supported(e, msg@),
{
    PlatformError::NotSupported(String::from_str(msg))
}

/// Check if screen recording permission is granted: never, off macOS.
pub fn check_screen_recording_permission() -> (b: bool)
    ensures
        !b,
{
    false
}

/// Request screen recording permission from the user: not supported off
/// macOS.
pub fn request_screen_recording_permission() -> (r: Result<bool, PlatformError>)
    ensures
        r matches Err(e) && not_supported(
            e,
            "screen recording permission check requires target_os = \"macos\""@,
        ),
{
    Err(unsupported("screen recording permission check requires target_os = \"macos\""))
}

/// Check if accessibility permission is granted: never, off macOS.
pub fn check_accessibility_permission() -> (b: bool)
    ensures
        !b,
{
    false
}

/// macOS audio capture (CoreAudio); not implemented yet.
#[derive(Debug)]
pub struct MacOsAudioCapture;

impl MacOsAudioCapture {
    /// A new audio capture back end.
    pub fn new() -> (a: Self) {
        MacOsAudioCapture
    }
}

impl Default for MacOsAudioCapture {
    fn default() -> (a: Self) {
        MacOsAudioCapture
    }
}

impl AudioCapture for MacOsAudioCapture {
    fn start(&mut self, _config: AudioConfig) -> (r: Result<Receiver<AudioChunk>, PlatformError>)
        ensures
            r matches Err(e) && not_supported(e, "macOS audio capture not yet implemented"@),
    {
        Err(unsupported("macOS audio capture not yet implemented"))
    }

    fn stop(&mut self) -> (r: Result<(), PlatformError>)
        ensures
            r matches Err(e) && not_supported(e, "macOS audio capture not yet implemented"@),
    {
        Err(unsupported("macOS audio capture not yet implemented"))
    }

    fn devices(&self) -> (r: Result<Vec<AudioDeviceInfo>, PlatformError>)
        ensures
            r matches Err(e) && not_supported(e, "macOS audio device enumeration not yet implemented"@),
    {
        Err(unsupported("macOS audio device enumeration not yet implemented"))
    }
}

/// macOS system notification manager; not implemented yet.
#[derive(Debug)]
pub struct MacOsSystemNotify;

impl MacOsSystemNotify {
    /// A new notification back end.
    pub fn new() -> (n: Self) {
        MacOsSystemNotify
    }
}

impl Default for MacOsSystemNotify {
    fn default() -> (n: Self) {
        MacOsSystemNotify
    }
}

impl SystemNotify for MacOsSystemNotify {
    fn show_notification(&mut self, _title: &str, _body: &str) -> (r: Result<(), PlatformError>)
        ensures
            r matches Err(e) && not_supported(e, "macOS notifications not yet implemented"@),
    {
        Err(unsupported("macOS notifications not yet implemented"))
    }

    fn set_tray_status(&mut self, _status: TrayStatus) -> (r: Result<(), PlatformError>)
        ensures
            r matches Err(e) && not_supported(e, "macOS tray status not yet implemented"@),
    {
        Err(unsupported("macOS tray status not yet implemented"))
    }

    fn play_sound(&mut self, _sound: SystemSound) -> (r: Result<(), PlatformError>)
        ensures
            r matches Err(e) && not_supported(e, "macOS system sounds not yet implemented"@),
    {
        Err(unsupported("macOS system sounds not yet implemented"))
    }
}

/// macOS clipboard provider (NSPasteboard); off macOS every operation
/// answers `NotSupported`.
#[derive(Debug)]
pub struct MacOsClipboard;

impl MacOsClipboard {
    /// A new clipboard back end.
    pub fn new() -> (c: Self) {
        MacOsClipboard
    }
}

impl Default for MacOsClipboard {
    fn default() -> (c: Self) {
        MacOsClipboard
    }
}

impl ClipboardProvider for MacOsClipboard {
    fn get_text(&self) -> (r: Result<String, PlatformError>)
        ensures
            r matches Err(e) && not_supported(e, "macOS clipboard requires target_os = \"macos\""@),
    {
        Err(unsupported("macOS clipboard requires target_os = \"macos\""))
    }

    fn set_text(&mut self, _text: &str) -> (r: Result<(), PlatformError>)
        ensures
            r matches Err(e) && not_supported(e, "macOS clipboard requires target_os = \"macos\""@),
    {
        Err(unsupported("macOS clipboard requires target_os = \"macos\""))
    }

    fn watch(&mut self) -> (r: Result<Receiver<ClipboardEvent>, PlatformError>)
        ensures
            r matches Err(e) && not_supported(e, "macOS clipboard watch requires target_os = \"macos\""@),
    {
        Err(unsupported("macOS clipboard watch requires target_os = \"macos\""))
    }
}

/// macOS screen capture (CoreGraphics). Off macOS it never captures:
/// starting and stopping answer `NotSupported`.
#[derive(Debug)]
pub struct MacOsScreenCapture {
    capturing: bool,
}

impl MacOsScreenCapture {
    /// A capture back end that is not capturing.
    pub fn new() -> (c: Self)
        ensures
            !c.is_capturing_spec(),
    {
        MacOsScreenCapture { capturing: false }
    }

    /// Whether a capture is running.
    pub closed spec fn is_capturing_spec(&self) -> bool {
        self.capturing
    }

    /// Start capturing: not supported off macOS.
    pub fn start(&mut self, _config: CaptureConfig) -> (r: Result<Receiver<CapturedFrame>, PlatformError>)
        ensures
            r matches Err(e) && not_supported(e, "macOS screen capture requires target_os = \"macos\""@),
            final(self).is_capturing_spec() == old(self).is_capturing_spec(),
    {
        Err(unsupported("macOS screen capture requires target_os = \"macos\""))
    }

    /// Stop capturing: not supported off macOS.
    pub fn stop(&mut self) -> (r: Result<(), PlatformError>)
        ensures
            r matches Err(e) && not_supported(e, "macOS screen capture requires target_os = \"macos\""@),
            final(self).is_capturing_spec() == old(self).is_capturing_spec(),
    {
        Err(unsupported("macOS screen capture requires target_os = \"macos\""))
    }

    /// Whether a capture is running.
    pub fn is_capturing(&self) -> (b: bool)
        ensures
            b == self.is_capturing_spec(),
    {
        self.capturing
    }
}

impl Default for MacOsScreenCapture {
    fn default() -> (c: Self)
        ensures
            !c.is_capturing_spec(),
    {
        MacOsScreenCapture::new()
    }
}

/// macOS input injector (CGEvent). Its inject operations take
/// floating-point coordinates and deltas and are provided outside the
/// verified library; the mapping of mouse actions to Quartz events is here.
#[derive(Debug)]
pub struct MacOsInputInjector;

/// The Quartz event types that mouse input is posted as.
#[derive(Debug, Clone, Copy, PartialEq, Eq, Structural)]
pub enum CgEventType {
    MouseMoved,
    LeftMouseDown,
    LeftMouseUp,
    RightMouseDown,
    RightMouseUp,
    OtherMouseDown,
    OtherMouseUp,
}

/// The Quartz mouse buttons.
#[derive(Debug, Clone, Copy, PartialEq, Eq, Structural)]
pub enum CgMouseButton {
    Left,
    Right,
    Center,
}

/// The Quartz button of a platform button (the middle button is Quartz's
/// center button).
pub open spec fn cg_button(b: MouseButton) -> CgMouseButton {
    match b {
        MouseButton::Left => CgMouseButton::Left,
        MouseButton::Right => CgMouseButton::Right,
        MouseButton::Middle => CgMouseButton::Center,
    }
}

/// The Quartz "down" event of a button.
pub open spec fn down_event(b: MouseButton) -> CgEventType {
    match b {
        MouseButton::Left => CgEventType::LeftMouseDown,
        MouseButton::Right => CgEventType::RightMouseDown,
        MouseButton::Middle => CgEventType::OtherMouseDown,
    }
}

/// The Quartz "up" event of a button.
pub open spec fn up_event(b: MouseButton) -> CgEventType {
    match b {
        MouseButton::Left => CgEventType::LeftMouseUp,
        MouseButton::Right => CgEventType::RightMouseUp,
        MouseButton::Middle => CgEventType::OtherMouseUp,
    }
}

impl MacOsInputInjector {
    /// A new input injector.
    pub fn new() -> (i: Self) {
        MacOsInputInjector
    }

    /// The Quartz event type and button that a mouse action is posted
    /// as: a move has no button; a press or a double click is the button's
    /// down event (the click count marks a double click), a release its up
    /// event.
    pub fn to_cg_event_type(action: &MouseAction) -> (r: (CgEventType, Option<CgMouseButton>))
        ensures
            r == match *action {
                MouseAction::Move => (CgEventType::MouseMoved, None),
                MouseAction::Press(b) => (down_event(b), Some(cg_button(b))),
                MouseAction::DoubleClick(b) => (down_event(b), Some(cg_button(b))),
                MouseAction::Release(b) => (up_event(b), Some(cg_button(b))),
            },
    {
        match action {
            MouseAction::Move => (CgEventType::MouseMoved, None),
            MouseAction::Press(MouseButton::Left) => (CgEventType::LeftMouseDown, Some(CgMouseButton::Left)),
            MouseAction::Press(MouseButton::Right) => (CgEventType::RightMouseDown, Some(CgMouseButton::Right)),
            MouseAction::Press(MouseButton::Middle) => (CgEventType::OtherMouseDown, Some(CgMouseButton::Center)),
            MouseAction::Release(MouseButton::Left) => (CgEventType::LeftMouseUp, Some(CgMouseButton::Left)),
            MouseAction::Release(MouseButton::Right) => (CgEventType::RightMouseUp, Some(CgMouseButton::Right)),
            MouseAction::Release(MouseButton::Middle) => (CgEventType::OtherMouseUp, Some(CgMouseButton::Center)),
            MouseAction::DoubleClick(MouseButton::Left) => (CgEventType::LeftMouseDown, Some(CgMouseButton::Left)),
            MouseAction::DoubleClick(MouseButton::Right) => (CgEventType::RightMouseDown, Some(CgMouseButton::Right)),
            MouseAction::DoubleClick(MouseButton::Middle) => (
                CgEventType::OtherMouseDown,
                Some(CgMouseButton::Center),
            ),
        }
    }
}

impl Default for MacOsInputInjector {
    fn default() -> (i: Self) {
        MacOsInputInjector
    }
}

/// Factory for the macOS platform implementations.
pub struct MacPlatform;

impl MacPlatform {
    /// Create an audio capture instance (CoreAudio — stub).
    pub fn create_audio() -> (a: Box<dyn AudioCapture>) {
        Box::new(MacOsAudioCapture::new())
    }

    /// Create a system notification manager (stub).
    pub fn create_notify() -> (n: Box<dyn SystemNotify>) {
        Box::new(MacOsSystemNotify::new())
    }

    /// Create a clipboard provider (NSPasteboard).
    pub fn create_clipboard() -> (c: Box<dyn ClipboardProvider>) {
        Box::new(MacOsClipboard::new())
    }
}

} // verus!
