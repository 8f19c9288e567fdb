//! The S260 status model: the fields of a status report, their validation,
//! and the numeric encodings of sources and playback states.
use vstd::prelude::*;

use crate::device::{
    airplay_name, aux_name, bluetooth_name, s260_name, usb_name, DeviceCapabilities, DeviceStatus,
    Equalizer, ModelId, PlaybackState, Source, Volume,
};
use crate::s260::error::{Error, Result};
use crate::text::{decimal, lower, push_decimal, push_str};

verus! {

/// The source that a status report's `selectedIndex` names.
pub open spec fn source_for_index(value: u64) -> Option<Seq<char>> {
    if value == 0 {
        Some(bluetooth_name())
    } else if value == 1 {
        Some(aux_name())
    } else if value == 2 {
        Some(usb_name())
    } else if value == 3 {
        Some(airplay_name())
    } else {
        None
    }
}

/// The `selectedIndex` that selects a source, for the four S260 sources.
pub open spec fn index_for_source(name: Seq<char>) -> Option<u8> {
    if name == bluetooth_name() {
        Some(0)
    } else if name == aux_name() {
        Some(1)
    } else if name == usb_name() {
        Some(2)
    } else if name == airplay_name() {
        Some(3)
    } else {
        None
    }
}

/// Maps a reported `selectedIndex` to its source.
pub fn source_from_index(value: u64) -> (r: Result<Source>)
    ensures
        match r {
            Ok(source) => source_for_index(value) == Some(source@),
            Err(e) => source_for_index(value) is None && e == Error::InvalidSource(value),
        },
{
    match value {
        0 => Ok(Source::bluetooth()),
        1 => Ok(Source::aux()),
        2 => Ok(Source::usb()),
        3 => Ok(Source::airplay()),
        other => Err(Error::InvalidSource(other)),
    }
}

/// Maps a source to the `selectedIndex` that selects it.
pub fn source_index(source: &Source) -> (r: Result<u8>)
    ensures
        match r {
            Ok(i) => index_for_source(source@) == Some(i),
            Err(Error::UnsupportedSource(name)) => index_for_source(source@) is None && name@
                == source@,
            Err(_) => false,
        },
{
    let name = crate::text::chars_of(source.as_str());
    if crate::text::chars_eq(&name, &vec!['b', 'l', 'u', 'e', 't', 'o', 'o', 't', 'h']) {
        Ok(0)
    } else if crate::text::chars_eq(&name, &vec!['a', 'u', 'x']) {
        Ok(1)
    } else if crate::text::chars_eq(&name, &vec!['u', 's', 'b']) {
        Ok(2)
    } else if crate::text::chars_eq(&name, &vec!['a', 'i', 'r', 'p', 'l', 'a', 'y']) {
        Ok(3)
    } else {
        Err(Error::UnsupportedSource(crate::text::string_of(&name)))
    }
}

/// The source indices and the sources of the S260 correspond one to one.
pub proof fn source_index_roundtrip(value: u64, name: Seq<char>)
    ensures
        value < 4 ==> index_for_source(source_for_index(value)->0) == Some(value as u8),
        index_for_source(name) matches Some(i) ==> source_for_index(i as u64) == Some(name),
{
}

/// `"unknown_"`.
pub open spec fn unknown_prefix() -> Seq<char> {
    seq!['u', 'n', 'k', 'n', 'o', 'w', 'n', '_']
}

/// The playback state named by a reported `playerStatus`.
pub open spec fn playback_name(state: u64) -> Seq<char> {
    if state == 0 {
        seq!['s', 't', 'o', 'p', 'p', 'e', 'd']
    } else if state == 1 {
        seq!['p', 'l', 'a', 'y', 'i', 'n', 'g']
    } else if state == 2 {
        seq!['p', 'a', 'u', 's', 'e', 'd']
    } else {
        unknown_prefix() + decimal(state as nat)
    }
}

/// Maps a reported playback status to a playback state.
pub fn playback_state(state: u64) -> (r: PlaybackState)
    ensures
        r@ == playback_name(state),
{
    let mut name = String::new();
    if state == 0 {
        push_str(&mut name, "stopped");
        proof {
            reveal_strlit("stopped");
        }
    } else if state == 1 {
        push_str(&mut name, "playing");
        proof {
            reveal_strlit("playing");
        }
    } else if state == 2 {
        push_str(&mut name, "paused");
        proof {
            reveal_strlit("paused");
        }
    } else {
        push_str(&mut name, "unknown_");
        push_decimal(&mut name, state as u128);
        proof {
            reveal_strlit("unknown_");
        }
    }
    let r = PlaybackState::new(name.as_str());
    proof {
        lemma_playback_name_lower(state);
    }
    r
}

proof fn lemma_decimal_lower(n: nat)
    ensures
        lower(decimal(n)) == decimal(n),
    decreases n,
{
    if n >= 10 {
        lemma_decimal_lower(n / 10);
        assert(lower(decimal(n)) =~= decimal(n)) by {
            assert(lower(decimal(n / 10)) =~= decimal(n / 10));
        }
    } else {
        assert(lower(decimal(n)) =~= decimal(n));
    }
}

proof fn lemma_playback_name_lower(state: u64)
    ensures
        lower(playback_name(state)) == playback_name(state),
{
    if state > 2 {
        lemma_decimal_lower(state as nat);
        assert(lower(unknown_prefix() + decimal(state as nat)) =~= lower(unknown_prefix()) + lower(
            decimal(state as nat),
        ));
        assert(lower(unknown_prefix()) =~= unknown_prefix());
    }
    assert(lower(playback_name(state)) =~= playback_name(state));
}

/// The `soundEffect` object of a status report.
#[derive(Debug, Clone, Copy, PartialEq, Eq)]
pub struct SoundEffectReport {
    /// Selected preset, `soundEffect.selectedIndex`.
    pub selected_index: Option<u64>,
    /// Number of presets, `soundEffect.soundIndex`.
    pub sound_index: Option<u64>,
}

/// The fields of a `status_query` answer that the driver reads; every other
/// vendor field is left out on purpose.
#[derive(Debug, Clone, PartialEq, Eq)]
pub struct StatusReport {
    /// `deviceInfo.bluetoothName`.
    pub bluetooth_name: Option<String>,
    /// `deviceInfo.firmwareVersion`.
    pub firmware_version: Option<String>,
    /// `inputSource.inputIndex`.
    pub input_index: Option<u64>,
    /// `inputSource.selectedIndex`.
    pub selected_index: u64,
    /// `player.volume`.
    pub volume: u64,
    /// `player.minVolume`.
    pub min_volume: Option<u64>,
    /// `player.maxVolume`.
    pub max_volume: u64,
    /// `player.playerStatus`.
    pub player_status: Option<u64>,
    /// `soundEffect`.
    pub sound_effect: Option<SoundEffectReport>,
}

/// Parsed, privacy-safe S260 state.
#[derive(Debug, Clone, PartialEq, Eq)]
pub struct S260Status {
    /// Current Bluetooth/device name.
    pub name: String,
    /// Device firmware version.
    pub firmware: String,
    /// Selected input source.
    pub source: Source,
    /// Vendor input group index required for source mutations.
    pub input_index: u64,
    /// Current volume.
    pub volume: u8,
    /// Device-reported minimum volume.
    pub min_volume: u8,
    /// Device-reported maximum volume.
    pub max_volume: u8,
    /// Equalizer state when reported by the device.
    pub equalizer: Option<Equalizer>,
    /// Playback state when reported by the current source.
    pub playback: Option<PlaybackState>,
}

/// Why a status report is refused.
pub enum ReportProblem {
    /// `selectedIndex` names no S260 source.
    InvalidSource(u64),
    /// A value is out of range; the protocol error carries this message.
    Protocol(Seq<char>),
    /// `soundEffect` holds one of its two fields without the other.
    MissingField(Seq<char>),
}

/// `"<field> does not fit in u8"`.
pub open spec fn too_large_message(field: Seq<char>) -> Seq<char> {
    field + " does not fit in u8"@
}

/// `"invalid volume range: min=<min>, current=<volume>, max=<max>"`.
pub open spec fn volume_range_message(min: nat, volume: nat, max: nat) -> Seq<char> {
    "invalid volume range: min="@ + decimal(min) + ", current="@ + decimal(volume) + ", max="@
        + decimal(max)
}

/// `"invalid EQ range: preset=<preset>, preset_count=<count>"`.
pub open spec fn eq_range_message(preset: nat, count: nat) -> Seq<char> {
    "invalid EQ range: preset="@ + decimal(preset) + ", preset_count="@ + decimal(count)
}

/// The equalizer a report describes, or why it is refused.
pub open spec fn report_equalizer(report: StatusReport) -> std::result::Result<
    Option<Equalizer>,
    ReportProblem,
> {
    match report.sound_effect {
        Some(SoundEffectReport { selected_index: Some(preset), sound_index: Some(count) }) => {
            if preset > 255 {
                Err(ReportProblem::Protocol(too_large_message("EQ preset"@)))
            } else if count > 255 {
                Err(ReportProblem::Protocol(too_large_message("EQ preset count"@)))
            } else if count == 0 || preset >= count {
                Err(ReportProblem::Protocol(eq_range_message(preset as nat, count as nat)))
            } else {
                Ok(Some(Equalizer { preset: preset as u8, preset_count: count as u8 }))
            }
        },
        Some(SoundEffectReport { selected_index: None, sound_index: None }) | None => Ok(None),
        Some(_) => Err(ReportProblem::MissingField("complete soundEffect range"@)),
    }
}

/// Why a status report is refused, checked in the order the fields are read;
/// `None` when the report describes a consistent state.
pub open spec fn report_problem(report: StatusReport) -> Option<ReportProblem> {
    let min = match report.min_volume {
        Some(m) => m,
        None => 0,
    };
    if source_for_index(report.selected_index) is None {
        Some(ReportProblem::InvalidSource(report.selected_index))
    } else if report.volume > 255 {
        Some(ReportProblem::Protocol(too_large_message("volume"@)))
    } else if min > 255 {
        Some(ReportProblem::Protocol(too_large_message("minVolume"@)))
    } else if report.max_volume > 255 {
        Some(ReportProblem::Protocol(too_large_message("maxVolume"@)))
    } else if min > report.max_volume || report.volume < min || report.volume > report.max_volume {
        Some(
            ReportProblem::Protocol(
                volume_range_message(min as nat, report.volume as nat, report.max_volume as nat),
            ),
        )
    } else {
        match report_equalizer(report) {
            Err(p) => Some(p),
            Ok(_) => None,
        }
    }
}

/// Whether an error is the driver error for a report problem.
pub open spec fn error_for_problem(e: Error, p: ReportProblem) -> bool {
    match p {
        ReportProblem::InvalidSource(i) => e == Error::InvalidSource(i),
        ReportProblem::Protocol(m) => (e matches Error::Protocol(msg) && msg@ == m),
        ReportProblem::MissingField(f) => (e matches Error::MissingField(field) && field@ == f),
    }
}

/// Whether a parsed status holds what a consistent report describes.
pub open spec fn status_of_report(s: S260Status, report: StatusReport) -> bool {
    &&& s.name@ == match report.bluetooth_name {
        Some(n) => n@,
        None => "EDIFIER S260"@,
    }
    &&& s.firmware@ == match report.firmware_version {
        Some(f) => f@,
        None => "unknown"@,
    }
    &&& source_for_index(report.selected_index) == Some(s.source@)
    &&& s.input_index == match report.input_index {
        Some(i) => i,
        None => 1,
    }
    &&& s.volume == report.volume
    &&& s.min_volume == match report.min_volume {
        Some(m) => m,
        None => 0,
    }
    &&& s.max_volume == report.max_volume
    &&& report_equalizer(report) == std::result::Result::<Option<Equalizer>, ReportProblem>::Ok(
        s.equalizer,
    )
    &&& match report.player_status {
        Some(p) => (s.playback matches Some(state) && state@ == playback_name(p)),
        None => s.playback is None,
    }
}


/// Every accepted status is consistent: the volume lies within the reported
/// range, and a reported equalizer preset lies below the preset count.
pub proof fn accepted_status_is_consistent(report: StatusReport, s: S260Status)
    requires
        report_problem(report) is None,
        status_of_report(s, report),
    ensures
        s.min_volume <= s.volume <= s.max_volume,
        s.equalizer matches Some(eq) ==> 0 < eq.preset_count && eq.preset < eq.preset_count,
{
}

/// A status report is accepted exactly when its `selectedIndex` names one of
/// the four sources (0 to 3), its maximum volume fits in a byte, its volume
/// lies in the inclusive range from the minimum (0 when absent) to the
/// maximum, and its `soundEffect` is absent, empty, or a preset below a
/// nonzero preset count that fits in a byte. Bounds are inclusive: a speaker
/// turned all the way down or all the way up is accepted.
pub proof fn reports_are_accepted_exactly_when_in_range(report: StatusReport)
    ensures
        report_problem(report) is None <==> {
            let min: u64 = match report.min_volume {
                Some(m) => m,
                None => 0,
            };
            &&& report.selected_index <= 3
            &&& report.max_volume <= 255
            &&& min <= report.volume
            &&& report.volume <= report.max_volume
            &&& match report.sound_effect {
                None => true,
                Some(e) => match (e.selected_index, e.sound_index) {
                    (None, None) => true,
                    (Some(preset), Some(count)) => preset < count && count <= 255,
                    _ => false,
                },
            }
        },
{
}

fn checked_u8(value: u64, field: &str) -> (r: Result<u8>)
    ensures
        match r {
            Ok(v) => value <= 255 && v == value,
            Err(e) => value > 255 && (e matches Error::Protocol(m) && m@ == too_large_message(
                field@,
            )),
        },
{
    if value <= 255 {
        Ok(value as u8)
    } else {
        let mut message = String::new();
        push_str(&mut message, field);
        push_str(&mut message, " does not fit in u8");
        Err(Error::Protocol(message))
    }
}

impl S260Status {
    /// Validates a status report and keeps only the state the driver exposes.
    pub fn from_report(report: StatusReport) -> (r: Result<Self>)
        ensures
            match r {
                Ok(s) => report_problem(report) is None && status_of_report(s, report),
                Err(e) => (report_problem(report) matches Some(p) && error_for_problem(e, p)),
            },
            ({
                let min: u64 = match report.min_volume {
                    Some(m) => m,
                    None => 0,
                };
                &&& report.selected_index <= 3
                &&& report.max_volume <= 255
                &&& min <= report.volume <= report.max_volume
                &&& match report.sound_effect {
                    None => true,
                    Some(e) => match (e.selected_index, e.sound_index) {
                        (None, None) => true,
                        (Some(preset), Some(count)) => preset < count && count <= 255,
                        _ => false,
                    },
                }
            }) ==> (r matches Ok(s) && s.volume == report.volume && s.max_volume
                == report.max_volume),
    {
        proof {
            reports_are_accepted_exactly_when_in_range(report);
        }
        let source = source_from_index(report.selected_index)?;
        let volume = checked_u8(report.volume, "volume")?;
        let min_volume = checked_u8(
            match report.min_volume {
                Some(m) => m,
                None => 0,
            },
            "minVolume",
        )?;
        let max_volume = checked_u8(report.max_volume, "maxVolume")?;
        if min_volume > max_volume || volume < min_volume || volume > max_volume {
            let mut message = String::new();
            push_str(&mut message, "invalid volume range: min=");
            push_decimal(&mut message, min_volume as u128);
            push_str(&mut message, ", current=");
            push_decimal(&mut message, volume as u128);
            push_str(&mut message, ", max=");
            push_decimal(&mut message, max_volume as u128);
            return Err(Error::Protocol(message));
        }
        let equalizer = match report.sound_effect {
            Some(SoundEffectReport { selected_index: Some(preset), sound_index: Some(count) }) => {
                let preset = checked_u8(preset, "EQ preset")?;
                let preset_count = checked_u8(count, "EQ preset count")?;
                if preset_count == 0 || preset >= preset_count {
                    let mut message = String::new();
                    push_str(&mut message, "invalid EQ range: preset=");
                    push_decimal(&mut message, preset as u128);
                    push_str(&mut message, ", preset_count=");
                    push_decimal(&mut message, preset_count as u128);
                    return Err(Error::Protocol(message));
                }
                Some(Equalizer { preset, preset_count })
            },
            Some(SoundEffectReport { selected_index: None, sound_index: None }) | None => None,
            Some(_) => return Err(Error::MissingField("complete soundEffect range")),
        };
        let playback = match report.player_status {
            Some(p) => Some(playback_state(p)),
            None => None,
        };
        let name = match report.bluetooth_name {
            Some(n) => n,
            None => String::from_str("EDIFIER S260"),
        };
        let firmware = match report.firmware_version {
            Some(f) => f,
            None => String::from_str("unknown"),
        };
        let input_index = match report.input_index {
            Some(i) => i,
            None => 1,
        };
        Ok(S260Status {
            name,
            firmware,
            source,
            input_index,
            volume,
            min_volume,
            max_volume,
            equalizer,
            playback,
        })
    }

    /// The model-independent view of this state, with the S260 capabilities.
    pub fn to_device_status(self) -> (d: DeviceStatus)
        ensures
            d.name == self.name,
            d.model@ == s260_name(),
            d.firmware == self.firmware,
            d.source == Some(self.source),
            d.volume == Some(
                Volume { current: self.volume, min: self.min_volume, max: self.max_volume },
            ),
            d.equalizer == self.equalizer,
            d.playback == self.playback,
            d.capabilities.sources@.len() == 4,
            d.capabilities.sources@[0]@ == bluetooth_name(),
            d.capabilities.sources@[1]@ == aux_name(),
            d.capabilities.sources@[2]@ == usb_name(),
            d.capabilities.sources@[3]@ == airplay_name(),
            d.capabilities.volume && d.capabilities.equalizer && d.capabilities.playback
                && d.capabilities.events,
    {
        let model = ModelId::new(crate::s260::MODEL_ID);
        proof {
            reveal_strlit("s260");
            assert(lower(s260_name()) =~= s260_name());
        }
        let sources = vec![Source::bluetooth(), Source::aux(), Source::usb(), Source::airplay()];
        DeviceStatus {
            name: self.name,
            model,
            firmware: self.firmware,
            source: Some(self.source),
            volume: Some(
                Volume { current: self.volume, min: self.min_volume, max: self.max_volume },
            ),
            equalizer: self.equalizer,
            playback: self.playback,
            capabilities: DeviceCapabilities {
                sources,
                volume: true,
                equalizer: true,
                playback: true,
                events: true,
            },
        }
    }
}

} // verus!
