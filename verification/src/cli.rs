//! Decisions and text of the command-line front end: which discovered
//! speaker a command addresses, and the one-line human-readable renderings of
//! states and events.
use vstd::prelude::*;

use crate::device::{DeviceEvent, DeviceStatus, DiscoveredDevice, Error, ModelId, Result};
use crate::facade::{is_supported, supported_only, supports_model};
use crate::text::{
    decimal, eq_ignore_ascii_case, eq_ignore_case, hex_byte, hex_char, push_char, push_decimal,
    push_hex_digit, push_str,
};

verus! {

/// Whether a selector names a device by id, name or host name, ignoring
/// ASCII case.
pub open spec fn selects(d: DiscoveredDevice, selector: Seq<char>) -> bool {
    eq_ignore_case(d.id@, selector) || eq_ignore_case(d.name@, selector) || eq_ignore_case(
        d.host@,
        selector,
    )
}

/// The index of the first device a selector names.
pub open spec fn first_selected(devices: Seq<DiscoveredDevice>, selector: Seq<char>) -> Option<int>
    decreases devices.len(),
{
    if devices.len() == 0 {
        None
    } else {
        match first_selected(devices.drop_last(), selector) {
            Some(i) => Some(i),
            None => if selects(devices.last(), selector) {
                Some(devices.len() - 1)
            } else {
                None
            },
        }
    }
}

/// How a candidate is listed when a selection is ambiguous: `name (id)`.
pub open spec fn candidate_label(d: DiscoveredDevice) -> Seq<char> {
    d.name@ + " ("@ + d.id@ + ")"@
}

/// The views of a sequence of strings.
pub open spec fn string_views(s: Seq<String>) -> Seq<Seq<char>> {
    s.map_values(|x: String| x@)
}

proof fn lemma_first_selected_prefix(
    devices: Seq<DiscoveredDevice>,
    selector: Seq<char>,
    n: int,
    i: int,
)
    requires
        0 < n <= devices.len(),
        first_selected(devices.take(n), selector) == Some(i),
    ensures
        first_selected(devices, selector) == Some(i),
    decreases devices.len() - n,
{
    if n < devices.len() {
        assert(devices.take(n + 1).drop_last() == devices.take(n));
        lemma_first_selected_prefix(devices, selector, n + 1, i);
    } else {
        assert(devices.take(n) == devices);
    }
}

/// A selector picks the first device whose id, name or host name equals it,
/// ASCII case ignored: one is found exactly when some device is so named, it
/// is so named, and no device before it is.
pub proof fn selection_finds_the_first_named_device(
    devices: Seq<DiscoveredDevice>,
    selector: Seq<char>,
)
    ensures
        first_selected(devices, selector) is Some <==> exists|k: int|
            #![trigger devices[k]]
            0 <= k < devices.len() && (eq_ignore_case(devices[k].id@, selector)
                || eq_ignore_case(devices[k].name@, selector) || eq_ignore_case(
                devices[k].host@,
                selector,
            )),
        first_selected(devices, selector) matches Some(i) ==> {
            &&& 0 <= i < devices.len()
            &&& eq_ignore_case(devices[i].id@, selector) || eq_ignore_case(devices[i].name@, selector)
                || eq_ignore_case(devices[i].host@, selector)
            &&& forall|j: int|
                #![trigger devices[j]]
                0 <= j < i ==> !eq_ignore_case(devices[j].id@, selector)
                    && !eq_ignore_case(devices[j].name@, selector) && !eq_ignore_case(
                    devices[j].host@,
                    selector,
                )
        },
    decreases devices.len(),
{
    if devices.len() > 0 {
        let t = devices.drop_last();
        let n = t.len() as int;
        selection_finds_the_first_named_device(t, selector);
        assert forall|k: int| 0 <= k < n implies #[trigger] t[k] == devices[k] by {}
        if first_selected(t, selector) is None {
            assert forall|k: int| 0 <= k < n implies !selects(#[trigger] devices[k], selector) by {
                assert(t[k] == devices[k]);
                if selects(devices[k], selector) {
                    assert(eq_ignore_case(t[k].id@, selector) || eq_ignore_case(t[k].name@, selector)
                        || eq_ignore_case(t[k].host@, selector));
                }
            }
            if selects(devices[n], selector) {
                assert(eq_ignore_case(devices[n].id@, selector) || eq_ignore_case(
                    devices[n].name@,
                    selector,
                ) || eq_ignore_case(devices[n].host@, selector));
            } else {
                assert forall|k: int| #![trigger devices[k]] 0 <= k < devices.len() implies !(eq_ignore_case(
                    devices[k].id@,
                    selector,
                ) || eq_ignore_case(devices[k].name@, selector) || eq_ignore_case(
                    devices[k].host@,
                    selector,
                )) by {
                    if k < n {
                        assert(!selects(devices[k], selector));
                    }
                }
            }
        } else {
            let i = first_selected(t, selector)->0;
            assert(t[i] == devices[i]);
            assert(eq_ignore_case(t[i].id@, selector) || eq_ignore_case(t[i].name@, selector)
                || eq_ignore_case(t[i].host@, selector));
            assert forall|j: int| #![trigger devices[j]] 0 <= j < i implies !eq_ignore_case(
                devices[j].id@,
                selector,
            ) && !eq_ignore_case(devices[j].name@, selector) && !eq_ignore_case(
                devices[j].host@,
                selector,
            ) by {
                assert(t[j] == devices[j]);
                assert(!eq_ignore_case(t[j].id@, selector));
            }
        }
    }
}

/// Chooses the speaker a command addresses. With a selector, the first
/// device it names; without one, the only supported device, refusing when
/// there is none or more than one.
pub fn select_device<'a>(devices: &'a Vec<DiscoveredDevice>, selector: Option<&str>) -> (r: Result<
    &'a DiscoveredDevice,
>)
    ensures
        match selector {
            Some(sel) => match first_selected(devices@, sel@) {
                Some(i) => r matches Ok(d) && *d == devices@[i],
                None => r matches Err(Error::DeviceNotFound),
            },
            None => {
                let s = supported_only(devices@);
                if s.len() == 0 {
                    r matches Err(Error::DeviceNotFound)
                } else if s.len() == 1 {
                    r matches Ok(d) && *d == s[0]
                } else {
                    r matches Err(Error::AmbiguousDevice { candidates }) && string_views(
                        candidates@,
                    ) == s.map_values(|d: DiscoveredDevice| candidate_label(d))
                }
            },
        },
        selector matches Some(sel) ==> ((exists|k: int|
            #![trigger devices@[k]]
            0 <= k < devices@.len() && (eq_ignore_case(devices@[k].id@, sel@) || eq_ignore_case(
                devices@[k].name@,
                sel@,
            ) || eq_ignore_case(devices@[k].host@, sel@))) <==> r is Ok),
        selector matches Some(sel) ==> (r matches Ok(d) ==> (eq_ignore_case(d.id@, sel@)
            || eq_ignore_case(d.name@, sel@) || eq_ignore_case(d.host@, sel@))),
{
    proof {
        if selector is Some {
            selection_finds_the_first_named_device(devices@, selector->Some_0@);
        }
    }
    if let Some(sel) = selector {
        let mut i: usize = 0;
        while i < devices.len()
            invariant
                i <= devices.len(),
                selector == Some(sel),
                first_selected(devices@.take(i as int), sel@) is None,
            decreases devices.len() - i,
        {
            assert(devices@.take(i + 1).drop_last() == devices@.take(i as int));
            let d = &devices[i];
            if eq_ignore_ascii_case(d.id.as_str(), sel) || eq_ignore_ascii_case(
                d.name.as_str(),
                sel,
            ) || eq_ignore_ascii_case(d.host.as_str(), sel) {
                proof {
                    assert(devices@.take(i + 1).last() == devices@[i as int]);
                    assert(selects(devices@[i as int], sel@));
                    lemma_first_selected_prefix(devices@, sel@, i + 1, i as int);
                }
                return Ok(d);
            }
            i = i + 1;
        }
        assert(devices@.take(devices@.len() as int) == devices@);
        return Err(Error::DeviceNotFound);
    }
    let mut first: Option<usize> = None;
    let mut labels: Vec<String> = Vec::new();
    let mut i: usize = 0;
    while i < devices.len()
        invariant
            i <= devices.len(),
            string_views(labels@) == supported_only(devices@.take(i as int)).map_values(
                |d: DiscoveredDevice| candidate_label(d),
            ),
            match first {
                Some(f) => f < i && supported_only(devices@.take(i as int)).len() > 0 && supported_only(
                    devices@.take(i as int),
                )[0] == devices@[f as int],
                None => supported_only(devices@.take(i as int)).len() == 0,
            },
        decreases devices.len() - i,
    {
        assert(devices@.take(i + 1).drop_last() == devices@.take(i as int));
        let d = &devices[i];
        if supports_model(&d.model) {
            if first.is_none() {
                first = Some(i);
            }
            let mut label = String::new();
            push_str(&mut label, d.name.as_str());
            push_str(&mut label, " (");
            push_str(&mut label, d.id.as_str());
            push_str(&mut label, ")");
            let ghost before = labels@;
            labels.push(label);
            proof {
                let s = supported_only(devices@.take(i as int));
                assert(supported_only(devices@.take(i + 1)) == s.push(devices@[i as int]));
                assert(string_views(labels@) =~= string_views(before).push(label@));
                assert(s.push(devices@[i as int]).map_values(
                    |d: DiscoveredDevice| candidate_label(d),
                ) =~= s.map_values(|d: DiscoveredDevice| candidate_label(d)).push(
                    candidate_label(devices@[i as int]),
                ));
            }
        }
        i = i + 1;
    }
    assert(devices@.take(devices@.len() as int) == devices@);
    let count = labels.len();
    match first {
        None => Err(Error::DeviceNotFound),
        Some(f) => {
            if count == 1 {
                Ok(&devices[f])
            } else {
                Err(Error::AmbiguousDevice { candidates: labels })
            }
        },
    }
}

/// The model a `--model` option names; it is required with `--host`.
pub fn explicit_model(model: Option<&str>) -> (r: Result<ModelId>)
    ensures
        match model {
            Some(m) => r matches Ok(id) && id@ == crate::text::lower(m@),
            None => r matches Err(Error::Protocol { message }) && message@
                == "--model is required when --host is used"@,
        },
{
    match model {
        Some(m) => Ok(ModelId::new(m)),
        None => Err(
            Error::Protocol { message: String::from_str("--model is required when --host is used") },
        ),
    }
}

/// Lower-case hexadecimal digits of a byte string, two per byte.
pub open spec fn hex_text(bytes: Seq<u8>) -> Seq<char>
    decreases bytes.len(),
{
    if bytes.len() == 0 {
        Seq::empty()
    } else {
        hex_text(bytes.drop_last()) + hex_byte(bytes.last())
    }
}

fn push_hex_bytes(out: &mut String, bytes: &[u8])
    ensures
        final(out)@ == old(out)@ + hex_text(bytes@),
{
    let mut i: usize = 0;
    while i < bytes.len()
        invariant
            i <= bytes.len(),
            out@ == old(out)@ + hex_text(bytes@.take(i as int)),
        decreases bytes.len() - i,
    {
        assert(bytes@.take(i + 1).drop_last() == bytes@.take(i as int));
        let b = bytes[i];
        push_hex_digit(out, b / 16);
        push_hex_digit(out, b % 16);
        i = i + 1;
    }
    assert(bytes@.take(bytes@.len() as int) == bytes@);
}

/// Renders bytes as lower-case hexadecimal, two digits per byte.
pub fn hex(bytes: &[u8]) -> (s: String)
    ensures
        s@ == hex_text(bytes@),
{
    let mut s = String::new();
    push_hex_bytes(&mut s, bytes);
    s
}

/// Four lower-case hexadecimal digits of a command (`{:04x}`).
pub open spec fn hex_command(c: u16) -> Seq<char> {
    seq![
        hex_char((c / 4096) as nat),
        hex_char(((c / 256) % 16) as nat),
        hex_char(((c / 16) % 16) as nat),
        hex_char((c % 16) as nat),
    ]
}

/// The one-line rendering of an event.
pub open spec fn event_text(e: DeviceEvent) -> Seq<char> {
    match e {
        DeviceEvent::Source { source } => "source="@ + source@,
        DeviceEvent::Volume { current, max } => "volume="@ + decimal(current as nat) + seq!['/']
            + decimal(max as nat),
        DeviceEvent::Playback { state } => "playback="@ + state@,
        DeviceEvent::Equalizer { preset } => "eq="@ + decimal(preset as nat),
        DeviceEvent::TrackInfo { payload } => "track_info="@ + hex_text(payload@),
        DeviceEvent::Unknown { command, payload } => "event=0x"@ + hex_command(command)
            + " payload="@ + hex_text(payload@),
    }
}

/// Formats an event for humans, one line per event.
pub fn event_line(event: &DeviceEvent) -> (s: String)
    ensures
        s@ == event_text(*event),
{
    let mut s = String::new();
    match event {
        DeviceEvent::Source { source } => {
            push_str(&mut s, "source=");
            push_str(&mut s, source.as_str());
        },
        DeviceEvent::Volume { current, max } => {
            push_str(&mut s, "volume=");
            push_decimal(&mut s, *current as u128);
            push_char(&mut s, '/');
            push_decimal(&mut s, *max as u128);
        },
        DeviceEvent::Playback { state } => {
            push_str(&mut s, "playback=");
            push_str(&mut s, state.as_str());
        },
        DeviceEvent::Equalizer { preset } => {
            push_str(&mut s, "eq=");
            push_decimal(&mut s, *preset as u128);
        },
        DeviceEvent::TrackInfo { payload } => {
            push_str(&mut s, "track_info=");
            push_hex_bytes(&mut s, payload.as_slice());
        },
        DeviceEvent::Unknown { command, payload } => {
            push_str(&mut s, "event=0x");
            let c = *command;
            push_hex_digit(&mut s, (c / 4096) as u8);
            push_hex_digit(&mut s, ((c / 256) % 16) as u8);
            push_hex_digit(&mut s, ((c / 16) % 16) as u8);
            push_hex_digit(&mut s, (c % 16) as u8);
            push_str(&mut s, " payload=");
            push_hex_bytes(&mut s, payload.as_slice());
        },
    }
    s
}

/// The one-line human rendering of a status.
pub open spec fn status_text(s: DeviceStatus) -> Seq<char> {
    s.name@ + " | model="@ + s.model@ + " | source="@ + match s.source {
        Some(src) => src@,
        None => "n/a"@,
    } + " | volume="@ + match s.volume {
        Some(v) => decimal(v.current as nat) + seq!['/'] + decimal(v.max as nat),
        None => "n/a"@,
    } + " | eq="@ + match s.equalizer {
        Some(eq) => decimal(eq.preset as nat) + seq!['/'] + decimal(eq.preset_count as nat),
        None => "n/a"@,
    } + " | playback="@ + match s.playback {
        Some(p) => p@,
        None => "unknown"@,
    } + " | firmware="@ + s.firmware@
}

/// Formats a status for humans on one line.
pub fn status_line(status: &DeviceStatus) -> (s: String)
    ensures
        s@ == status_text(*status),
{
    let mut s = String::new();
    push_str(&mut s, status.name.as_str());
    push_str(&mut s, " | model=");
    push_str(&mut s, status.model.as_str());
    push_str(&mut s, " | source=");
    match &status.source {
        Some(src) => push_str(&mut s, src.as_str()),
        None => push_str(&mut s, "n/a"),
    }
    push_str(&mut s, " | volume=");
    match &status.volume {
        Some(v) => {
            push_decimal(&mut s, v.current as u128);
            push_char(&mut s, '/');
            push_decimal(&mut s, v.max as u128);
        },
        None => push_str(&mut s, "n/a"),
    }
    push_str(&mut s, " | eq=");
    match &status.equalizer {
        Some(eq) => {
            push_decimal(&mut s, eq.preset as u128);
            push_char(&mut s, '/');
            push_decimal(&mut s, eq.preset_count as u128);
        },
        None => push_str(&mut s, "n/a"),
    }
    push_str(&mut s, " | playback=");
    match &status.playback {
        Some(p) => push_str(&mut s, p.as_str()),
        None => push_str(&mut s, "unknown"),
    }
    push_str(&mut s, " | firmware=");
    push_str(&mut s, status.firmware.as_str());
    s
}

} // verus!
