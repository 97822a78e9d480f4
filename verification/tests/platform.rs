use rdcs::display::{DisplayConfig, DisplayError, RenderStats};
use rdcs::macos::{
    check_accessibility_permission, check_screen_recording_permission, request_screen_recording_permission,
    CgEventType, CgMouseButton, MacOsAudioCapture, MacOsScreenCapture, MacOsClipboard, MacOsInputInjector, MacOsSystemNotify, MacPlatform,
};
use rdcs::platform::mock::{
    silence_chunk, stamped_frames, MockAudioCapture, MockClipboard, MockScreenCapture, MockSystemNotify,
    NotificationRecord,
};
use rdcs::platform::{
    AudioCapture, AudioConfig, AudioSampleFormat, CaptureConfig, CapturedFrame, ClipboardContent, ClipboardEvent,
    ClipboardProvider, KeyModifiers,
    MouseAction, MouseButton,
    PixelFormat, PlatformError, SystemNotify, SystemSound, TrayStatus,
};

fn sample_frame(width: u32, height: u32) -> CapturedFrame {
    let bpp = 4;
    CapturedFrame {
        data: vec![0u8; (width * height * bpp) as usize],
        width,
        height,
        pixel_format: PixelFormat::Bgra,
        stride: width * bpp,
        display_id: 1,
        timestamp_us: 0,
    }
}

#[test]
fn default_capture_config() {
    let config = CaptureConfig::default();
    assert_eq!(config.fps, 60);
    assert_eq!(config.pixel_format, PixelFormat::Bgra);
    assert!(config.capture_cursor);
    assert!(config.max_width.is_none() && config.max_height.is_none());
}

#[test]
fn default_audio_config() {
    let config = AudioConfig::default();
    assert_eq!(config.sample_rate, 48_000);
    assert_eq!(config.channels, 2);
    assert_eq!(config.sample_format, AudioSampleFormat::F32);
}

#[test]
fn platform_error_display() {
    let err = PlatformError::PermissionDenied("screen recording".into());
    assert_eq!(err.to_display_string(), "permission denied: screen recording");
}

#[test]
fn platform_error_display_all_variants() {
    assert_eq!(PlatformError::NotSupported("x".into()).to_display_string(), "not supported: x");
    assert_eq!(PlatformError::ApiError("y".into()).to_display_string(), "platform api error: y");
    assert_eq!(PlatformError::NotFound("z".into()).to_display_string(), "not found: z");
    let io: PlatformError = std::io::Error::new(std::io::ErrorKind::Other, "disk on fire").into();
    assert_eq!(io.to_display_string(), "io error: disk on fire");
}

#[test]
fn default_key_modifiers_are_released() {
    let m = KeyModifiers::default();
    assert!(!m.shift && !m.control && !m.alt && !m.meta);
}

#[test]
fn mock_screen_capture_emits_frames() {
    let frames = vec![sample_frame(1920, 1080), sample_frame(1920, 1080), sample_frame(1920, 1080)];
    let mut cap = MockScreenCapture::with_frames(frames);
    let rx = cap.start(CaptureConfig::default()).unwrap();
    assert!(cap.is_capturing());
    let received: Vec<CapturedFrame> = rx.iter().collect();
    assert_eq!(received.len(), 3);
    assert_eq!(received[0].width, 1920);
    assert_eq!(received[0].height, 1080);
    assert_eq!(received[0].timestamp_us, 0);
    assert_eq!(received[1].timestamp_us, 16_667);
    assert_eq!(received[2].timestamp_us, 33_334);
}

#[test]
fn mock_screen_capture_stop() {
    let mut cap = MockScreenCapture::new();
    assert!(!cap.is_capturing());
    let _rx = cap.start(CaptureConfig::default()).unwrap();
    assert!(cap.is_capturing());
    cap.stop().unwrap();
    assert!(!cap.is_capturing());
}

#[test]
fn mock_screen_capture_empty_frames() {
    let mut cap = MockScreenCapture::new();
    let rx = cap.start(CaptureConfig::default()).unwrap();
    let received: Vec<CapturedFrame> = rx.iter().collect();
    assert!(received.is_empty());
}

#[test]
fn stamped_frames_keep_contents() {
    let mut f = sample_frame(1, 1);
    f.data = vec![1, 2, 3, 4];
    f.timestamp_us = 99;
    let out = stamped_frames(&[f.clone(), f.clone()]);
    assert_eq!(out.len(), 2);
    assert_eq!(out[0].data, vec![1, 2, 3, 4]);
    assert_eq!(out[0].timestamp_us, 0);
    assert_eq!(out[1].timestamp_us, 16_667);
}

#[test]
fn mock_audio_capture_emits_chunk() {
    let mut cap = MockAudioCapture::new();
    let config = AudioConfig { sample_rate: 48_000, channels: 2, sample_format: AudioSampleFormat::F32 };
    let rx = cap.start(config).unwrap();
    assert!(cap.is_capturing());
    let chunk = rx.recv().unwrap();
    assert_eq!(chunk.data.len(), 3840);
    assert_eq!(chunk.config.sample_rate, 48_000);
    assert_eq!(chunk.timestamp_us, 0);
}

#[test]
fn mock_audio_capture_i16_format() {
    let mut cap = MockAudioCapture::new();
    let config = AudioConfig { sample_rate: 44_100, channels: 1, sample_format: AudioSampleFormat::I16 };
    let rx = cap.start(config).unwrap();
    let chunk = rx.recv().unwrap();
    assert_eq!(chunk.data.len(), 882);
}

#[test]
fn mock_audio_capture_stop() {
    let mut cap = MockAudioCapture::new();
    assert!(!cap.is_capturing());
    let _rx = cap.start(AudioConfig::default()).unwrap();
    assert!(cap.is_capturing());
    cap.stop().unwrap();
    assert!(!cap.is_capturing());
}

#[test]
fn mock_audio_capture_devices() {
    let cap = MockAudioCapture::new();
    let devices = cap.devices().unwrap();
    assert_eq!(devices.len(), 2);
    assert!(!devices[0].is_input);
    assert!(devices[1].is_input);
    assert!(devices[0].is_default);
    assert!(devices[1].is_default);
    assert_eq!(devices[0].id, "mock-output");
    assert_eq!(devices[1].name, "Mock Input Device");
}

#[test]
fn silence_chunk_is_all_zero() {
    let c = silence_chunk(AudioConfig { sample_rate: 8_000, channels: 3, sample_format: AudioSampleFormat::I16 });
    assert_eq!(c.data.len(), 80 * 3 * 2);
    assert!(c.data.iter().all(|b| *b == 0));
}

#[test]
fn mock_system_notify_records_notification() {
    let mut notify = MockSystemNotify::new();
    notify.show_notification("Title", "Body").unwrap();
    let records = notify.records();
    assert_eq!(records.len(), 1);
    match &records[0] {
        NotificationRecord::Notification { title, body } => {
            assert_eq!(title, "Title");
            assert_eq!(body, "Body");
        }
        _ => panic!("expected notification record"),
    }
}

#[test]
fn mock_system_notify_records_tray_status() {
    let mut notify = MockSystemNotify::new();
    notify.set_tray_status(TrayStatus::Connected).unwrap();
    let records = notify.records();
    assert_eq!(records.len(), 1);
    match &records[0] {
        NotificationRecord::TrayStatus(status) => assert_eq!(*status, TrayStatus::Connected),
        _ => panic!("expected tray status record"),
    }
}

#[test]
fn mock_system_notify_records_sound() {
    let mut notify = MockSystemNotify::new();
    notify.play_sound(SystemSound::Connected).unwrap();
    let records = notify.records();
    assert_eq!(records.len(), 1);
    match &records[0] {
        NotificationRecord::Sound(sound) => assert_eq!(*sound, SystemSound::Connected),
        _ => panic!("expected sound record"),
    }
}

#[test]
fn mock_system_notify_clear() {
    let mut notify = MockSystemNotify::new();
    notify.show_notification("A", "B").unwrap();
    notify.set_tray_status(TrayStatus::Idle).unwrap();
    assert_eq!(notify.records().len(), 2);
    notify.clear();
    assert!(notify.records().is_empty());
}

#[test]
fn mock_system_notify_multiple_operations() {
    let mut notify = MockSystemNotify::new();
    notify.show_notification("Connected", "Session started").unwrap();
    notify.set_tray_status(TrayStatus::Connected).unwrap();
    notify.play_sound(SystemSound::Connected).unwrap();
    notify.set_tray_status(TrayStatus::Idle).unwrap();
    let records = notify.records();
    assert_eq!(records.len(), 4);
    assert!(matches!(&records[0], NotificationRecord::Notification { .. }));
    assert!(matches!(&records[1], NotificationRecord::TrayStatus(_)));
    assert!(matches!(&records[2], NotificationRecord::Sound(_)));
    assert!(matches!(&records[3], NotificationRecord::TrayStatus(_)));
}

#[test]
fn mock_clipboard_get_set() {
    let mut clip = MockClipboard::new();
    assert_eq!(clip.get_text().unwrap(), "");
    clip.set_text("hello world").unwrap();
    assert_eq!(clip.get_text().unwrap(), "hello world");
    clip.set_text("updated").unwrap();
    assert_eq!(clip.get_text().unwrap(), "updated");
}

#[test]
fn mock_clipboard_overwrite() {
    let mut clip = MockClipboard::new();
    clip.set_text("first").unwrap();
    clip.set_text("second").unwrap();
    assert_eq!(clip.get_text().unwrap(), "second");
}

#[test]
fn mock_clipboard_watch_reports_changes() {
    let mut clip = MockClipboard::new();
    let rx = clip.watch().unwrap();
    clip.set_text("changed").unwrap();
    match rx.try_recv().unwrap() {
        ClipboardEvent { content: ClipboardContent::Text(t), timestamp_us } => {
            assert_eq!(t, "changed");
            assert_eq!(timestamp_us, 0);
        },
        other => panic!("expected a text event, got {other:?}"),
    }
    // Setting the same text again is no change.
    clip.set_text("changed").unwrap();
    assert!(rx.try_recv().is_err());
    let rx2 = clip.watch().unwrap();
    clip.set_text("again").unwrap();
    assert!(matches!(rx.try_recv().unwrap().content, ClipboardContent::Text(t) if t == "again"));
    assert!(matches!(rx2.try_recv().unwrap().content, ClipboardContent::Text(t) if t == "again"));
    assert!(rx.try_recv().is_err());
    assert_eq!(clip.get_text().unwrap(), "again");
}

#[test]
fn mocks_behind_trait_objects() {
    let mut audio: Box<dyn AudioCapture> = Box::new(MockAudioCapture::new());
    let mut notify: Box<dyn SystemNotify> = Box::new(MockSystemNotify::new());
    let clipboard: Box<dyn ClipboardProvider> = Box::new(MockClipboard::new());
    assert!(audio.devices().is_ok());
    assert!(audio.stop().is_ok());
    assert!(notify.show_notification("test", "test").is_ok());
    assert_eq!(clipboard.get_text().unwrap(), "");
}

#[test]
fn permission_checks_callable() {
    let _screen = check_screen_recording_permission();
    let _accessibility = check_accessibility_permission();
    let _request = request_screen_recording_permission();
}

#[test]
fn non_macos_permission_fallbacks() {
    assert!(!check_screen_recording_permission());
    assert!(!check_accessibility_permission());
    assert!(request_screen_recording_permission().is_err());
}

#[test]
fn macos_types_constructible() {
    let _input = MacOsInputInjector::new();
    let _audio = MacOsAudioCapture::new();
    let _notify = MacOsSystemNotify::new();
    let _clipboard = MacOsClipboard::new();
}

#[test]
fn platform_factory_works() {
    let _audio: Box<dyn AudioCapture> = MacPlatform::create_audio();
    let _notify: Box<dyn SystemNotify> = MacPlatform::create_notify();
    let _clipboard: Box<dyn ClipboardProvider> = MacPlatform::create_clipboard();
}

#[test]
fn non_macos_fallback_returns_not_supported() {
    let mut capture = MacOsScreenCapture::new();
    assert!(capture.start(CaptureConfig::default()).is_err());
    assert!(capture.stop().is_err());

    let mut clipboard = MacOsClipboard::new();
    assert!(clipboard.get_text().is_err());
    assert!(clipboard.set_text("test").is_err());
    assert!(clipboard.watch().is_err());

    let mut audio = MacOsAudioCapture::new();
    assert!(audio.start(AudioConfig::default()).is_err());
    assert!(audio.stop().is_err());
    assert!(audio.devices().is_err());

    let mut notify = MacOsSystemNotify::new();
    assert!(notify.show_notification("title", "body").is_err());
    assert!(notify.set_tray_status(TrayStatus::Idle).is_err());
    assert!(notify.play_sound(SystemSound::Connected).is_err());
}

#[test]
fn not_supported_messages() {
    match request_screen_recording_permission() {
        Err(PlatformError::NotSupported(m)) => {
            assert_eq!(m, "screen recording permission check requires target_os = \"macos\"")
        }
        other => panic!("expected NotSupported, got {other:?}"),
    }
    match MacOsAudioCapture::new().devices() {
        Err(PlatformError::NotSupported(m)) => assert_eq!(m, "macOS audio device enumeration not yet implemented"),
        other => panic!("expected NotSupported, got {other:?}"),
    }
}

#[test]
fn display_config_defaults_and_builders() {
    let c = DisplayConfig::default();
    assert_eq!(c.title, "RDCS Remote Desktop");
    assert_eq!((c.width, c.height, c.target_fps), (1280, 720, 60));
    assert!(c.resizable && c.vsync);
    let c = DisplayConfig::default()
        .with_title("Remote Desktop")
        .with_size(1920, 1080)
        .with_resizable(false)
        .with_vsync(false)
        .with_target_fps(0);
    assert_eq!(c.title, "Remote Desktop");
    assert_eq!((c.width, c.height), (1920, 1080));
    assert!(!c.resizable && !c.vsync);
    assert_eq!(c.target_fps, 0);
}

#[test]
fn render_stats_start_at_zero() {
    let s = RenderStats::default();
    assert_eq!(s.frames_rendered, 0);
    assert_eq!(s.total_render_time_ms, 0);
    assert_eq!(s.frames_dropped, 0);
    assert_eq!(s.texture_recreations, 0);
}

#[test]
fn display_error_messages() {
    assert_eq!(DisplayError::SdlInitFailed("x".into()).to_display_string(), "SDL2 initialization failed: x");
    assert_eq!(DisplayError::InvalidFrameFormat("Rgba".into()).to_display_string(), "invalid frame format: Rgba");
    let e: DisplayError = String::from("boom").into();
    assert_eq!(e.to_display_string(), "frame rendering failed: boom");
    let p: DisplayError = PlatformError::NotFound("display 3".into()).into();
    assert_eq!(p.to_display_string(), "platform error: not found: display 3");
}

#[test]
fn mouse_actions_map_to_quartz_events() {
    assert_eq!(MacOsInputInjector::to_cg_event_type(&MouseAction::Move), (CgEventType::MouseMoved, None));
    assert_eq!(
        MacOsInputInjector::to_cg_event_type(&MouseAction::Press(MouseButton::Middle)),
        (CgEventType::OtherMouseDown, Some(CgMouseButton::Center))
    );
    assert_eq!(
        MacOsInputInjector::to_cg_event_type(&MouseAction::Release(MouseButton::Right)),
        (CgEventType::RightMouseUp, Some(CgMouseButton::Right))
    );
    assert_eq!(
        MacOsInputInjector::to_cg_event_type(&MouseAction::DoubleClick(MouseButton::Left)),
        (CgEventType::LeftMouseDown, Some(CgMouseButton::Left))
    );
}

#[test]
fn screen_capture_initial_state() {
    let capture = MacOsScreenCapture::new();
    assert!(!capture.is_capturing());
}

#[test]
fn screen_capture_off_macos_reports_not_supported() {
    let mut capture = MacOsScreenCapture::default();
    match capture.start(CaptureConfig::default()) {
        Err(PlatformError::NotSupported(m)) => assert_eq!(m, "macOS screen capture requires target_os = \"macos\""),
        _ => panic!("expected NotSupported"),
    }
    assert!(!capture.is_capturing());
}

#[test]
fn mock_captures_close_their_channels_after_the_last_item() {
    let mut screen = MockScreenCapture::with_frames(vec![sample_frame(2, 2), sample_frame(4, 4)]);
    let rx = screen.start(CaptureConfig::default()).unwrap();
    let frames: Vec<CapturedFrame> = rx.iter().collect();
    assert_eq!(frames.len(), 2);
    assert_eq!((frames[0].width, frames[0].timestamp_us), (2, 0));
    assert_eq!((frames[1].width, frames[1].timestamp_us), (4, 16_667));
    let mut audio = MockAudioCapture::new();
    let rx = audio.start(AudioConfig::default()).unwrap();
    let chunks: Vec<_> = rx.iter().collect();
    assert_eq!(chunks.len(), 1);
    assert!(chunks[0].data.iter().all(|b| *b == 0));
}
