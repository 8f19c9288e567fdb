//! Model-independent contracts shared by OpenEdifier drivers and apps:
//! identifiers, speaker state, events, errors and the device traits.
use vstd::prelude::*;

use crate::text::{chars_eq, chars_of, lower, lower_chars, string_of, to_ascii_lowercase};

verus! {

/// Canonical driver identifier for the EDIFIER S260.
pub const MODEL_S260: &'static str = "s260";

/// The characters of `"s260"`.
pub open spec fn s260_name() -> Seq<char> {
    seq!['s', '2', '6', '0']
}

/// Stable, string-backed identifier for a speaker model, in lower case.
#[derive(Debug, Clone, PartialEq, Eq, Hash)]
pub struct ModelId(String);

impl View for ModelId {
    type V = Seq<char>;

    closed spec fn view(&self) -> Seq<char> {
        self.0@
    }
}

impl ModelId {
    /// An identifier equal to this one.
    pub(crate) fn duplicate(&self) -> (m: Self)
        ensures
            m@ == self@,
    {
        ModelId(self.0.clone())
    }

    /// Creates a normalized lowercase model identifier.
    pub fn new(value: &str) -> (m: Self)
        ensures
            m@ == lower(value@),
    {
        ModelId(to_ascii_lowercase(value))
    }

    /// Returns the identifier as a string slice.
    pub fn as_str(&self) -> (s: &str)
        ensures
            s@ == self@,
    {
        self.0.as_str()
    }
}

/// Whether a character is removed when source names are normalized.
pub open spec fn is_separator(c: char) -> bool {
    c == '-' || c == '_'
}

/// A text with every `-` and `_` removed.
pub open spec fn strip_separators(s: Seq<char>) -> Seq<char>
    decreases s.len(),
{
    if s.len() == 0 {
        s
    } else if is_separator(s.last()) {
        strip_separators(s.drop_last())
    } else {
        strip_separators(s.drop_last()).push(s.last())
    }
}

/// `"bluetooth"`.
pub open spec fn bluetooth_name() -> Seq<char> {
    seq!['b', 'l', 'u', 'e', 't', 'o', 'o', 't', 'h']
}

/// `"aux"`.
pub open spec fn aux_name() -> Seq<char> {
    seq!['a', 'u', 'x']
}

/// `"usb"`.
pub open spec fn usb_name() -> Seq<char> {
    seq!['u', 's', 'b']
}

/// `"airplay"`.
pub open spec fn airplay_name() -> Seq<char> {
    seq!['a', 'i', 'r', 'p', 'l', 'a', 'y']
}

/// The canonical source that a normalized alias stands for, if any.
pub open spec fn source_alias(n: Seq<char>) -> Option<Seq<char>> {
    if n == seq!['b', 't'] || n == bluetooth_name() {
        Some(bluetooth_name())
    } else if n == aux_name() || n == seq!['l', 'i', 'n', 'e', 'i', 'n'] {
        Some(aux_name())
    } else if n == usb_name() {
        Some(usb_name())
    } else if n == airplay_name() || n == seq!['a', 'i', 'r', 'p', 'l', 'a', 'y', '2'] {
        Some(airplay_name())
    } else {
        None
    }
}

/// The identifier that `Source::new` makes of a text: the canonical name when
/// the lower-cased text without separators is a known alias, else the
/// lower-cased text itself.
pub open spec fn source_name(value: Seq<char>) -> Seq<char> {
    match source_alias(strip_separators(lower(value))) {
        Some(canonical) => canonical,
        None => lower(value),
    }
}

/// Extensible, string-backed input source identifier.
#[derive(Debug, Clone, PartialEq, Eq, Hash)]
pub struct Source(String);

impl View for Source {
    type V = Seq<char>;

    closed spec fn view(&self) -> Seq<char> {
        self.0@
    }
}

fn strip_separator_chars(v: &Vec<char>) -> (r: Vec<char>)
    ensures
        r@ == strip_separators(v@),
{
    let mut r: Vec<char> = Vec::new();
    let mut i: usize = 0;
    while i < v.len()
        invariant
            i <= v.len(),
            r@ == strip_separators(v@.take(i as int)),
        decreases v.len() - i,
    {
        assert(v@.take(i + 1).drop_last() == v@.take(i as int));
        if v[i] != '-' && v[i] != '_' {
            r.push(v[i]);
        }
        i = i + 1;
    }
    assert(v@.take(v@.len() as int) == v@);
    r
}

impl Source {
    /// Bluetooth input source identifier.
    pub const BLUETOOTH: &'static str = "bluetooth";

    /// Analog auxiliary input source identifier.
    pub const AUX: &'static str = "aux";

    /// USB audio input source identifier.
    pub const USB: &'static str = "usb";

    /// AirPlay input source identifier.
    pub const AIRPLAY: &'static str = "airplay";

    /// Creates a normalized source identifier and resolves common aliases.
    pub fn new(value: &str) -> (s: Self)
        ensures
            s@ == source_name(value@),
    {
        let lowered = lower_chars(&chars_of(value));
        let n = strip_separator_chars(&lowered);
        let bluetooth = vec!['b', 'l', 'u', 'e', 't', 'o', 'o', 't', 'h'];
        let aux = vec!['a', 'u', 'x'];
        let usb = vec!['u', 's', 'b'];
        let airplay = vec!['a', 'i', 'r', 'p', 'l', 'a', 'y'];
        let canonical = if chars_eq(&n, &vec!['b', 't']) || chars_eq(&n, &bluetooth) {
            bluetooth
        } else if chars_eq(&n, &aux) || chars_eq(&n, &vec!['l', 'i', 'n', 'e', 'i', 'n']) {
            aux
        } else if chars_eq(&n, &usb) {
            usb
        } else if chars_eq(&n, &airplay) || chars_eq(
            &n,
            &vec!['a', 'i', 'r', 'p', 'l', 'a', 'y', '2'],
        ) {
            airplay
        } else {
            lowered
        };
        Source(string_of(&canonical))
    }

    /// Returns the identifier as a string slice.
    pub fn as_str(&self) -> (s: &str)
        ensures
            s@ == self@,
    {
        self.0.as_str()
    }

    /// The Bluetooth source.
    pub(crate) fn bluetooth() -> (s: Self)
        ensures
            s@ == bluetooth_name(),
    {
        Source(string_of(&vec!['b', 'l', 'u', 'e', 't', 'o', 'o', 't', 'h']))
    }

    /// The analog auxiliary source.
    pub(crate) fn aux() -> (s: Self)
        ensures
            s@ == aux_name(),
    {
        Source(string_of(&vec!['a', 'u', 'x']))
    }

    /// The USB audio source.
    pub(crate) fn usb() -> (s: Self)
        ensures
            s@ == usb_name(),
    {
        Source(string_of(&vec!['u', 's', 'b']))
    }

    /// The AirPlay source.
    pub(crate) fn airplay() -> (s: Self)
        ensures
            s@ == airplay_name(),
    {
        Source(string_of(&vec!['a', 'i', 'r', 'p', 'l', 'a', 'y']))
    }
}

/// Lower-casing leaves lower-cased text unchanged.
pub proof fn lemma_lower_idempotent(s: Seq<char>)
    ensures
        lower(lower(s)) == lower(s),
{
    assert(lower(lower(s)) =~= lower(s));
}

/// The canonical source names are their own normal form.
proof fn lemma_canonical_fixed(c: Seq<char>)
    requires
        c == bluetooth_name() || c == aux_name() || c == usb_name() || c == airplay_name(),
    ensures
        lower(c) == c,
        strip_separators(c) == c,
        source_alias(c) == Some(c),
    decreases c.len(),
{
    assert(lower(c) =~= c);
    lemma_no_separators(c);
}

proof fn lemma_no_separators(c: Seq<char>)
    requires
        forall|i: int| 0 <= i < c.len() ==> !is_separator(#[trigger] c[i]),
    ensures
        strip_separators(c) == c,
    decreases c.len(),
{
    if c.len() > 0 {
        lemma_no_separators(c.drop_last());
        assert(c.drop_last().push(c.last()) == c);
    }
}

/// Normalizing a source name twice gives the same identifier as once.
pub proof fn source_name_is_idempotent(value: Seq<char>)
    ensures
        source_name(source_name(value)) == source_name(value),
{
    lemma_lower_idempotent(value);
    match source_alias(strip_separators(lower(value))) {
        Some(c) => {
            lemma_canonical_fixed(c);
        },
        None => {},
    }
}

/// Extensible playback state reported by a device or event stream.
#[derive(Debug, Clone, PartialEq, Eq)]
pub struct PlaybackState(String);

impl View for PlaybackState {
    type V = Seq<char>;

    closed spec fn view(&self) -> Seq<char> {
        self.0@
    }
}

impl PlaybackState {
    /// Stopped playback state.
    pub const STOPPED: &'static str = "stopped";

    /// Active playback state.
    pub const PLAYING: &'static str = "playing";

    /// Paused playback state.
    pub const PAUSED: &'static str = "paused";

    /// Creates a normalized playback state.
    pub fn new(value: &str) -> (s: Self)
        ensures
            s@ == lower(value@),
    {
        PlaybackState(to_ascii_lowercase(value))
    }

    /// Returns the state as a string slice.
    pub fn as_str(&self) -> (s: &str)
        ensures
            s@ == self@,
    {
        self.0.as_str()
    }
}

/// Current volume and the device-reported valid range.
#[derive(Debug, Clone, Copy, PartialEq, Eq)]
pub struct Volume {
    /// Current volume level.
    pub current: u8,
    /// Minimum accepted volume level.
    pub min: u8,
    /// Maximum accepted volume level.
    pub max: u8,
}

/// Current equalizer preset and the number of reported presets.
#[derive(Debug, Clone, Copy, PartialEq, Eq)]
pub struct Equalizer {
    /// Selected zero-based preset index.
    pub preset: u8,
    /// Number of presets reported by the device.
    pub preset_count: u8,
}

/// Playback command accepted by media-capable drivers.
#[derive(Debug, Clone, Copy, PartialEq, Eq)]
pub enum PlaybackAction {
    /// Start or resume playback.
    Play,
    /// Pause playback.
    Pause,
    /// Skip to the next track.
    Next,
    /// Return to the previous track.
    Previous,
}

/// What a driver can report and change.
#[derive(Debug, Clone, PartialEq, Eq)]
pub struct DeviceCapabilities {
    /// Input sources the device can select.
    pub sources: Vec<Source>,
    /// Whether volume can be changed.
    pub volume: bool,
    /// Whether an equalizer preset can be selected.
    pub equalizer: bool,
    /// Whether playback commands are accepted.
    pub playback: bool,
    /// Whether a state-event channel is available.
    pub events: bool,
}

/// Model-independent speaker state returned by every driver.
#[derive(Debug, Clone, PartialEq, Eq)]
pub struct DeviceStatus {
    /// Human-readable speaker name.
    pub name: String,
    /// Canonical model identifier.
    pub model: ModelId,
    /// Device firmware version.
    pub firmware: String,
    /// Current input source, when the device reports one.
    pub source: Option<Source>,
    /// Current volume state, when the device reports one.
    pub volume: Option<Volume>,
    /// Equalizer state when supported and reported.
    pub equalizer: Option<Equalizer>,
    /// Playback state when reported by the current source.
    pub playback: Option<PlaybackState>,
    /// What the driver can report and change.
    pub capabilities: DeviceCapabilities,
}

/// Typed state change emitted by a model event channel.
#[derive(Debug, Clone, PartialEq, Eq)]
pub enum DeviceEvent {
    /// Input source changed.
    Source {
        /// Newly selected source.
        source: Source,
    },
    /// Volume changed.
    Volume {
        /// Current volume.
        current: u8,
        /// Device-reported maximum.
        max: u8,
    },
    /// Playback state changed.
    Playback {
        /// Newly reported playback state.
        state: PlaybackState,
    },
    /// Equalizer preset changed.
    Equalizer {
        /// Newly selected preset.
        preset: u8,
    },
    /// Track metadata event whose vendor payload is not decoded yet.
    TrackInfo {
        /// Undecoded vendor metadata bytes.
        payload: Vec<u8>,
    },
    /// Valid but currently unknown command.
    Unknown {
        /// Vendor command identifier.
        command: u16,
        /// Undecoded vendor payload.
        payload: Vec<u8>,
    },
}

/// The mathematical content of a device event.
pub enum EventView {
    /// The newly selected source.
    Source(Seq<char>),
    /// Current and maximum volume.
    Volume { current: u8, max: u8 },
    /// The newly reported playback state.
    Playback(Seq<char>),
    /// The newly selected preset.
    Equalizer(u8),
    /// Undecoded track metadata.
    TrackInfo(Seq<u8>),
    /// A command without a decoder, with its payload.
    Unknown { command: u16, payload: Seq<u8> },
}

impl View for DeviceEvent {
    type V = EventView;

    open spec fn view(&self) -> EventView {
        match self {
            DeviceEvent::Source { source } => EventView::Source(source@),
            DeviceEvent::Volume { current, max } => EventView::Volume {
                current: *current,
                max: *max,
            },
            DeviceEvent::Playback { state } => EventView::Playback(state@),
            DeviceEvent::Equalizer { preset } => EventView::Equalizer(*preset),
            DeviceEvent::TrackInfo { payload } => EventView::TrackInfo(payload@),
            DeviceEvent::Unknown { command, payload } => EventView::Unknown {
                command: *command,
                payload: payload@,
            },
        }
    }
}

/// An IP address advertised by a speaker.
#[derive(Debug, Clone, Copy, PartialEq, Eq, PartialOrd, Ord, Hash)]
pub enum IpAddress {
    /// IPv4 address, by octet.
    V4([u8; 4]),
    /// IPv6 address, by 16-bit segment.
    V6([u16; 8]),
}

/// A local-network speaker candidate returned by discovery.
#[derive(Debug, Clone, PartialEq, Eq)]
pub struct DiscoveredDevice {
    /// Stable device identifier advertised by the speaker.
    pub id: String,
    /// Human-readable advertised device name.
    pub name: String,
    /// Canonical model or advertised hardware identifier.
    pub model: ModelId,
    /// Advertised local hostname.
    pub host: String,
    /// Advertised IP addresses.
    pub addresses: Vec<IpAddress>,
}

/// Model-independent failures suitable for CLI and language bindings.
#[derive(Debug, Clone, PartialEq, Eq)]
pub enum Error {
    /// Local discovery could not start or complete.
    Discovery(String),
    /// No driver is installed for the discovered model.
    UnsupportedModel(ModelId),
    /// No supported speaker matched discovery or selection.
    DeviceNotFound,
    /// More than one supported speaker requires explicit selection.
    AmbiguousDevice {
        /// Human-readable candidate labels.
        candidates: Vec<String>,
    },
    /// A network operation failed.
    Network {
        /// The operation that failed.
        operation: &'static str,
        /// Description of the failure.
        message: String,
    },
    /// The device returned malformed or unexpected protocol data.
    Protocol {
        /// Description of the problem.
        message: String,
    },
    /// The device explicitly rejected a command.
    Rejected {
        /// Device result code.
        code: i64,
        /// Sanitized device message.
        message: String,
    },
    /// The requested source is not supported by the selected model.
    UnsupportedSource(Source),
    /// A requested volume is outside the reported valid range.
    InvalidVolume {
        /// Requested volume.
        value: u8,
        /// Device-reported minimum.
        min: u8,
        /// Device-reported maximum.
        max: u8,
    },
    /// A mutation was acknowledged but the state did not follow in time.
    VerificationTimeout {
        /// State field being verified.
        field: &'static str,
        /// Requested value.
        expected: String,
        /// Last value reported during verification.
        actual: String,
        /// Number of state queries made.
        attempts: u32,
        /// Elapsed verification time in milliseconds.
        elapsed_ms: u64,
    },
    /// Machine-readable output could not be serialized.
    Serialization(String),
    /// Selected device does not implement the requested capability.
    UnsupportedCapability(&'static str),
    /// Equalizer preset is outside the reported valid range.
    InvalidEqPreset {
        /// Requested preset index.
        value: u8,
        /// Number of presets reported by the device.
        preset_count: u8,
    },
}

/// Convenience result type shared by the OpenEdifier modules.
pub type Result<T> = std::result::Result<T, Error>;

/// Synchronous control contract implemented by every model driver.
pub trait Device {
    /// Reads current speaker state.
    fn status(&mut self) -> Result<DeviceStatus>;

    /// Selects an input source and returns verified state.
    fn set_source(&mut self, source: Source) -> Result<DeviceStatus>;

    /// Sets volume and returns verified state.
    fn set_volume(&mut self, volume: u8) -> Result<DeviceStatus>;

    /// Selects an equalizer preset and returns verified state.
    fn set_eq_preset(&mut self, preset: u8) -> (r: Result<DeviceStatus>)
        default_ensures
            r matches Err(Error::UnsupportedCapability(c)) && c@ == "equalizer"@,
    {
        Err(Error::UnsupportedCapability("equalizer"))
    }

    /// Sends a media playback command.
    fn playback(&mut self, action: PlaybackAction) -> (r: Result<()>)
        default_ensures
            r matches Err(Error::UnsupportedCapability(c)) && c@ == "playback"@,
    {
        Err(Error::UnsupportedCapability("playback"))
    }
}

/// Blocking event stream implemented by devices with a push channel.
pub trait DeviceEvents {
    /// Returns the next state event, or `None` after waiting up to
    /// `max_wait_ms` milliseconds.
    fn next_event(&mut self, max_wait_ms: u64) -> Result<Option<DeviceEvent>>;
}

} // verus!
