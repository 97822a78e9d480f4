//! In-memory implementations of the platform interfaces, for testing the
//! layers above them without a real operating system behind.
use std::sync::mpsc::{Receiver, Sender};
use vstd::prelude::*;
use crate::platform::{
    chunk_channel, deliver, frames_channel, open_channel, queued_chunks, queued_frames, sample_bytes, AudioCapture, AudioChunk, AudioConfig, AudioDeviceInfo,
    AudioSampleFormat, CaptureConfig, CapturedFrame, ClipboardContent, ClipboardEvent, ClipboardProvider,
    PlatformError, SystemNotify, SystemSound, TrayStatus,
};
use crate::relay::protocol::slice_to_vec_u8;

verus! {

/// A recorded system notification operation.
#[derive(Debug, Clone)]
pub enum NotificationRecord {
    /// A desktop notification was shown.
    Notification { title: String, body: String },
    /// The tray status was updated.
    TrayStatus(TrayStatus),
    /// A system sound was played.
    Sound(SystemSound),
}

/// A notification operation as plain values.
pub enum RecordView {
    Notification { title: Seq<char>, body: Seq<char> },
    TrayStatus(TrayStatus),
    Sound(SystemSound),
}

impl View for NotificationRecord {
    type V = RecordView;

    open spec fn view(&self) -> RecordView {
        match self {
            NotificationRecord::Notification { title, body } => RecordView::Notification {
                title: title@,
                body: body@,
            },
            NotificationRecord::TrayStatus(s) => RecordView::TrayStatus(*s),
            NotificationRecord::Sound(s) => RecordView::Sound(*s),
        }
    }
}

/// The views of a list of records.
pub open spec fn records_view(s: Seq<NotificationRecord>) -> Seq<RecordView> {
    s.map_values(|r: NotificationRecord| r@)
}

impl NotificationRecord {
    /// A copy of this record.
    pub fn duplicate(&self) -> (r: Self)
        ensures
            r@ == self@,
    {
        match self {
            NotificationRecord::Notification { title, body } => NotificationRecord::Notification {
                title: title.clone(),
                body: body.clone(),
            },
            NotificationRecord::TrayStatus(s) => NotificationRecord::TrayStatus(
                match s {
                    TrayStatus::Idle => TrayStatus::Idle,
                    TrayStatus::Connected => TrayStatus::Connected,
                    TrayStatus::Error => TrayStatus::Error,
                    TrayStatus::Updating => TrayStatus::Updating,
                },
            ),
            NotificationRecord::Sound(s) => NotificationRecord::Sound(*s),
        }
    }
}

/// The interval between the timestamps of consecutive mock frames, in
/// microseconds (about 60 frames per second).
pub const FRAME_INTERVAL_US: u64 = 16_667;

/// `g` is `f` with its timestamp replaced by `t`.
pub open spec fn restamped(f: CapturedFrame, g: CapturedFrame, t: int) -> bool {
    &&& g.data@ == f.data@
    &&& g.width == f.width
    &&& g.height == f.height
    &&& g.pixel_format == f.pixel_format
    &&& g.stride == f.stride
    &&& g.display_id == f.display_id
    &&& g.timestamp_us == t
}

/// A copy of a frame with another timestamp.
pub fn frame_at(f: &CapturedFrame, timestamp_us: u64) -> (g: CapturedFrame)
    ensures
        restamped(*f, g, timestamp_us as int),
{
    CapturedFrame {
        data: slice_to_vec_u8(f.data.as_slice()),
        width: f.width,
        height: f.height,
        pixel_format: f.pixel_format,
        stride: f.stride,
        display_id: f.display_id,
        timestamp_us,
    }
}

/// The frames as the mock emits them: in order, the `i`-th stamped at
/// `i * 16667` microseconds.
pub fn stamped_frames(frames: &[CapturedFrame]) -> (r: Vec<CapturedFrame>)
    requires
        frames@.len() * 16_667 <= u64::MAX,
    ensures
        r@.len() == frames@.len(),
        forall|i: int| 0 <= i < r@.len() ==> restamped(frames@[i], #[trigger] r@[i], i * 16_667),
{
    let n = frames.len();
    let mut r: Vec<CapturedFrame> = Vec::with_capacity(n);
    let mut i: usize = 0;
    while i < n
        invariant
            n == frames@.len(),
            n * 16_667 <= u64::MAX,
            i <= n,
            r@.len() == i,
            forall|k: int| 0 <= k < i ==> restamped(frames@[k], #[trigger] r@[k], k * 16_667),
        decreases n - i,
    {
        let t: u64 = (i as u64) * FRAME_INTERVAL_US;
        r.push(frame_at(&frames[i], t));
        i += 1;
    }
    r
}

/// The receiver yields the frames of `loaded`, in order, the `i`-th
/// stamped at `i * 16667` microseconds, and then closes.
pub open spec fn emits_stamped(rx: Receiver<CapturedFrame>, loaded: Seq<CapturedFrame>) -> bool {
    &&& queued_frames(rx).len() == loaded.len()
    &&& forall|i: int| 0 <= i < loaded.len() ==> restamped(loaded[i], #[trigger] queued_frames(rx)[i], i * 16_667)
}

/// Mock screen capture that emits pre-loaded frames via a channel.
pub struct MockScreenCapture {
    capturing: bool,
    frames: Vec<CapturedFrame>,
}

impl MockScreenCapture {
    /// Whether a capture session is active.
    pub closed spec fn active(&self) -> bool {
        self.capturing
    }

    /// The frames emitted on `start`.
    pub closed spec fn loaded(&self) -> Seq<CapturedFrame> {
        self.frames@
    }

    /// Create a new mock with no pre-loaded frames.
    pub fn new() -> (m: Self)
        ensures
            !m.active(),
            m.loaded() == Seq::<CapturedFrame>::empty(),
    {
        MockScreenCapture { capturing: false, frames: Vec::new() }
    }

    /// Create a new mock pre-loaded with frames to emit on `start()`.
    pub fn with_frames(frames: Vec<CapturedFrame>) -> (m: Self)
        ensures
            !m.active(),
            m.loaded() == frames@,
    {
        MockScreenCapture { capturing: false, frames }
    }

    /// Start capturing: the pre-loaded frames go to the returned receiver in
    /// order, the `i`-th stamped at `i * 16667` microseconds (see
    /// `stamped_frames`), and the channel then closes.
    pub fn start(&mut self, _config: CaptureConfig) -> (r: Result<Receiver<CapturedFrame>, PlatformError>)
        requires
            old(self).loaded().len() * 16_667 <= u64::MAX,
        ensures
            final(self).active(),
            final(self).loaded() == old(self).loaded(),
            r matches Ok(rx) && emits_stamped(rx, old(self).loaded()),
    {
        self.capturing = true;
        let out = stamped_frames(self.frames.as_slice());
        Ok(frames_channel(out))
    }

    /// Stop the active capture session.
    pub fn stop(&mut self) -> (r: Result<(), PlatformError>)
        ensures
            !final(self).active(),
            final(self).loaded() == old(self).loaded(),
            r is Ok,
    {
        self.capturing = false;
        Ok(())
    }

    /// Returns `true` if a capture session is currently active.
    pub fn is_capturing(&self) -> (b: bool)
        ensures
            b == self.active(),
    {
        self.capturing
    }
}

impl Default for MockScreenCapture {
    fn default() -> (m: Self)
        ensures
            !m.active(),
            m.loaded() == Seq::<CapturedFrame>::empty(),
    {
        Self::new()
    }
}

/// The number of bytes in 10 ms of audio in the given format.
pub open spec fn silence_len(config: AudioConfig) -> int {
    (config.sample_rate / 100) as int * config.channels as int * sample_bytes(config.sample_format) as int
}

/// `c` is ten milliseconds of silence in the format `config`, stamped at 0.
pub open spec fn is_silence_chunk(c: AudioChunk, config: AudioConfig) -> bool {
    &&& c.data@.len() == silence_len(config)
    &&& forall|i: int| 0 <= i < c.data@.len() ==> c.data@[i] == 0
    &&& c.config == config
    &&& c.timestamp_us == 0
}

/// The receiver yields one chunk of silence in the format `config`, and
/// then closes.
pub open spec fn emits_silence(rx: Receiver<AudioChunk>, config: AudioConfig) -> bool {
    queued_chunks(rx).len() == 1 && is_silence_chunk(queued_chunks(rx)[0], config)
}

/// Ten milliseconds of silence in the requested format, stamped at 0.
pub fn silence_chunk(config: AudioConfig) -> (c: AudioChunk)
    ensures
        c.data@.len() == silence_len(config),
        forall|i: int| 0 <= i < c.data@.len() ==> c.data@[i] == 0,
        c.config == config,
        c.timestamp_us == 0,
{
    let bytes_per_sample: u64 = match config.sample_format {
        AudioSampleFormat::I16 => 2,
        AudioSampleFormat::F32 => 4,
    };
    let num_samples: u64 = (config.sample_rate as u64) / 100;
    proof {
        assert(num_samples * config.channels <= 42_949_673 * 65_535) by (nonlinear_arith)
            requires
                num_samples <= 42_949_673,
        ;
    }
    let len: u64 = num_samples * (config.channels as u64) * bytes_per_sample;
    let mut data: Vec<u8> = Vec::new();
    let mut i: u64 = 0;
    while i < len
        invariant
            i <= len,
            data@.len() == i,
            forall|k: int| 0 <= k < i ==> data@[k] == 0,
        decreases len - i,
    {
        data.push(0u8);
        i += 1;
    }
    AudioChunk { data, config, timestamp_us: 0 }
}

/// Mock audio capture that emits a single synthetic audio chunk.
pub struct MockAudioCapture {
    capturing: bool,
}

impl MockAudioCapture {
    /// Whether a capture session is active.
    pub closed spec fn active(&self) -> bool {
        self.capturing
    }

    /// Create a new mock audio capture.
    pub fn new() -> (m: Self)
        ensures
            !m.active(),
    {
        MockAudioCapture { capturing: false }
    }

    /// Returns `true` if audio capture is currently active.
    pub fn is_capturing(&self) -> (b: bool)
        ensures
            b == self.active(),
    {
        self.capturing
    }
}

impl Default for MockAudioCapture {
    fn default() -> (m: Self)
        ensures
            !m.active(),
    {
        Self::new()
    }
}

/// The device list that the mock reports: a default output device, then a
/// default input device.
pub open spec fn mock_devices_ok(d: Seq<AudioDeviceInfo>) -> bool {
    &&& d.len() == 2
    &&& d[0].id@ == "mock-output"@ && d[0].name@ == "Mock Output Device"@
    &&& !d[0].is_input && d[0].is_default
    &&& d[1].id@ == "mock-input"@ && d[1].name@ == "Mock Input Device"@
    &&& d[1].is_input && d[1].is_default
}

impl AudioCapture for MockAudioCapture {
    /// Start capturing: one chunk, `silence_chunk(config)`, goes to the
    /// returned receiver.
    fn start(&mut self, config: AudioConfig) -> (r: Result<Receiver<AudioChunk>, PlatformError>)
        ensures
            final(self).active(),
            r matches Ok(rx) && emits_silence(rx, config),
    {
        self.capturing = true;
        Ok(chunk_channel(silence_chunk(config)))
    }

    fn stop(&mut self) -> (r: Result<(), PlatformError>)
        ensures
            !final(self).active(),
            r is Ok,
    {
        self.capturing = false;
        Ok(())
    }

    fn devices(&self) -> (r: Result<Vec<AudioDeviceInfo>, PlatformError>)
        ensures
            r matches Ok(d) && mock_devices_ok(d@),
    {
        let mut d: Vec<AudioDeviceInfo> = Vec::new();
        d.push(
            AudioDeviceInfo {
                id: String::from_str("mock-output"),
                name: String::from_str("Mock Output Device"),
                is_input: false,
                is_default: true,
            },
        );
        d.push(
            AudioDeviceInfo {
                id: String::from_str("mock-input"),
                name: String::from_str("Mock Input Device"),
                is_input: true,
                is_default: true,
            },
        );
        Ok(d)
    }
}

/// Mock system notifier that records all notification operations.
pub struct MockSystemNotify {
    records: Vec<NotificationRecord>,
}

impl MockSystemNotify {
    /// The operations recorded so far, oldest first.
    pub closed spec fn log(&self) -> Seq<RecordView> {
        records_view(self.records@)
    }

    /// Create a new mock system notifier with an empty record.
    pub fn new() -> (m: Self)
        ensures
            m.log() == Seq::<RecordView>::empty(),
    {
        let m = MockSystemNotify { records: Vec::new() };
        assert(m.log() =~= Seq::<RecordView>::empty());
        m
    }

    /// Return a copy of all recorded notification operations.
    pub fn records(&self) -> (r: Vec<NotificationRecord>)
        ensures
            records_view(r@) == self.log(),
    {
        let n = self.records.len();
        let mut r: Vec<NotificationRecord> = Vec::with_capacity(n);
        let mut i: usize = 0;
        while i < n
            invariant
                n == self.records@.len(),
                i <= n,
                r@.len() == i,
                forall|k: int| 0 <= k < i ==> (#[trigger] r@[k])@ == self.records@[k]@,
            decreases n - i,
        {
            r.push(self.records[i].duplicate());
            i += 1;
        }
        assert(records_view(r@) =~= self.log());
        r
    }

    /// Clear all recorded operations.
    pub fn clear(&mut self)
        ensures
            final(self).log() == Seq::<RecordView>::empty(),
    {
        self.records.clear();
        assert(self.log() =~= Seq::<RecordView>::empty());
    }

    fn record(&mut self, rec: NotificationRecord)
        ensures
            final(self).log() == old(self).log().push(rec@),
    {
        self.records.push(rec);
        assert(self.log() =~= old(self).log().push(rec@));
    }
}

impl Default for MockSystemNotify {
    fn default() -> (m: Self)
        ensures
            m.log() == Seq::<RecordView>::empty(),
    {
        Self::new()
    }
}

impl SystemNotify for MockSystemNotify {
    fn show_notification(&mut self, title: &str, body: &str) -> (r: Result<(), PlatformError>)
        ensures
            final(self).log() == old(self).log().push(RecordView::Notification { title: title@, body: body@ }),
            r is Ok,
    {
        self.record(NotificationRecord::Notification { title: title.to_string(), body: body.to_string() });
        Ok(())
    }

    fn set_tray_status(&mut self, status: TrayStatus) -> (r: Result<(), PlatformError>)
        ensures
            final(self).log() == old(self).log().push(RecordView::TrayStatus(status)),
            r is Ok,
    {
        self.record(NotificationRecord::TrayStatus(status));
        Ok(())
    }

    fn play_sound(&mut self, sound: SystemSound) -> (r: Result<(), PlatformError>)
        ensures
            final(self).log() == old(self).log().push(RecordView::Sound(sound)),
            r is Ok,
    {
        self.record(NotificationRecord::Sound(sound));
        Ok(())
    }
}

/// Mock clipboard that stores text in memory and supports change watching:
/// each time the text changes, every watcher registered so far is sent a
/// `ClipboardEvent` with the new text (timestamp 0).
pub struct MockClipboard {
    content: String,
    watchers: Vec<Sender<ClipboardEvent>>,
    changes: Ghost<Seq<Seq<char>>>,
}

impl MockClipboard {
    /// The text on the clipboard.
    pub closed spec fn text(&self) -> Seq<char> {
        self.content@
    }

    /// The number of watchers registered so far (each holds a channel).
    pub closed spec fn watcher_count(&self) -> nat {
        self.watchers@.len()
    }

    /// The texts announced to the watchers, one for each change, oldest first.
    pub closed spec fn changes(&self) -> Seq<Seq<char>> {
        self.changes@
    }

    /// Create a new mock clipboard with empty content and no watchers.
    pub fn new() -> (m: Self)
        ensures
            m.text() == Seq::<char>::empty(),
            m.watcher_count() == 0,
            m.changes() == Seq::<Seq<char>>::empty(),
    {
        MockClipboard { content: String::new(), watchers: Vec::new(), changes: Ghost(Seq::empty()) }
    }

    /// Send an event carrying `text` to every watcher.
    fn notify_watchers(&self, text: &str) {
        let mut i: usize = 0;
        while i < self.watchers.len()
            decreases self.watchers.len() - i,
        {
            let event = ClipboardEvent { content: ClipboardContent::Text(text.to_string()), timestamp_us: 0 };
            deliver(&self.watchers[i], event);
            i += 1;
        }
    }
}

impl Default for MockClipboard {
    fn default() -> (m: Self)
        ensures
            m.text() == Seq::<char>::empty(),
            m.watcher_count() == 0,
            m.changes() == Seq::<Seq<char>>::empty(),
    {
        Self::new()
    }
}

impl ClipboardProvider for MockClipboard {
    fn get_text(&self) -> (r: Result<String, PlatformError>)
        ensures
            r matches Ok(s) && s@ == self.text(),
    {
        Ok(self.content.clone())
    }

    /// Store `text`; when it differs from the text held before, every
    /// watcher is sent an event with it.
    fn set_text(&mut self, text: &str) -> (r: Result<(), PlatformError>)
        ensures
            final(self).text() == text@,
            final(self).watcher_count() == old(self).watcher_count(),
            final(self).changes() == if old(self).text() == text@ {
                old(self).changes()
            } else {
                old(self).changes().push(text@)
            },
            r is Ok,
    {
        let new_text = text.to_string();
        if self.content == new_text {
            return Ok(());
        }
        self.notify_watchers(text);
        self.content = new_text;
        self.changes = Ghost(self.changes@.push(text@));
        Ok(())
    }

    fn watch(&mut self) -> (r: Result<Receiver<ClipboardEvent>, PlatformError>)
        ensures
            final(self).text() == old(self).text(),
            final(self).watcher_count() == old(self).watcher_count() + 1,
            final(self).changes() == old(self).changes(),
            r is Ok,
    {
        let (tx, rx) = open_channel();
        self.watchers.push(tx);
        Ok(rx)
    }
}

} // verus!
