//! Decisions of the S260 control client: configuration, the commands that
//! each operation sends and their JSON requests, the checks applied to
//! responses, request deadlines, and the write-then-verify loop. Sockets and
//! clocks are the caller's.
use vstd::prelude::*;

use crate::device::{PlaybackAction, Source};
use crate::s260::error::{Error, IoError, IoErrorKind, Result};
use crate::s260::model::{index_for_source, source_index, S260Status};
use crate::text::{chars_of, decimal, hex_byte, push_char, push_decimal, push_hex_digit, push_str};
use vstd::utf8::encode_utf8;
use crate::s260::events::READ_SLICE_MS;

verus! {

/// Connection and protocol settings for an S260 client; durations are in
/// milliseconds.
#[derive(Debug, Clone, PartialEq, Eq)]
pub struct ClientConfig {
    /// Hostname or IP address of the speaker.
    pub host: String,
    /// TCP control port.
    pub port: u16,
    /// Maximum connection duration.
    pub connect_timeout_ms: u64,
    /// Maximum duration for one request and response.
    pub request_timeout_ms: u64,
    /// Maximum duration for write-after-read verification.
    pub verification_timeout_ms: u64,
    /// Delay between verification reads.
    pub verification_interval_ms: u64,
}

impl ClientConfig {
    /// Creates a configuration using verified S260 defaults.
    pub fn new(host: String) -> (c: Self)
        ensures
            c.host == host,
            c.port == crate::s260::DEFAULT_PORT,
            c.connect_timeout_ms == 5000,
            c.request_timeout_ms == 5000,
            c.verification_timeout_ms == 1000,
            c.verification_interval_ms == 50,
    {
        ClientConfig {
            host,
            port: crate::s260::DEFAULT_PORT,
            connect_timeout_ms: 5000,
            request_timeout_ms: 5000,
            verification_timeout_ms: 1000,
            verification_interval_ms: 50,
        }
    }
}

/// Whether a configuration can be used: every duration is positive and the
/// verification interval fits in the verification window.
pub open spec fn config_is_valid(c: ClientConfig) -> bool {
    c.connect_timeout_ms > 0 && c.request_timeout_ms > 0 && c.verification_timeout_ms > 0
        && c.verification_interval_ms > 0 && c.verification_interval_ms
        <= c.verification_timeout_ms
}

/// The message of the error for an unusable configuration.
pub open spec fn invalid_config_message() -> Seq<char> {
    "timeouts must be positive and verification_interval must not exceed verification_timeout"@
}

/// Checks a configuration before any socket is opened.
pub fn validate_config(config: &ClientConfig) -> (r: Result<()>)
    ensures
        match r {
            Ok(()) => config_is_valid(*config),
            Err(Error::Io(e)) => !config_is_valid(*config) && e.kind == IoErrorKind::InvalidInput
                && e.message@ == invalid_config_message(),
            Err(_) => false,
        },
{
    let invalid = config.connect_timeout_ms == 0 || config.request_timeout_ms == 0
        || config.verification_timeout_ms == 0 || config.verification_interval_ms == 0
        || config.verification_interval_ms > config.verification_timeout_ms;
    if invalid {
        return Err(
            Error::Io(
                IoError {
                    kind: IoErrorKind::InvalidInput,
                    message: String::from_str(
                        "timeouts must be positive and verification_interval must not exceed verification_timeout",
                    ),
                },
            ),
        );
    }
    Ok(())
}

/// A request the client sends; each is a compact JSON object with an `id`,
/// a `payload` of `"status_query"` or `"settings"`, and for settings one
/// object naming what to change.
#[derive(Debug, Clone, Copy, PartialEq, Eq)]
pub enum Command {
    /// `{"payload":"status_query"}`.
    StatusQuery,
    /// `{"inputSource":{"inputIndex":..,"selectedIndex":..}}`.
    SelectInput {
        /// Vendor input group, as reported by the device.
        input_index: u64,
        /// Index of the source to select.
        selected_index: u8,
    },
    /// `{"player":{"volume":..}}`.
    SetVolume(u8),
    /// `{"soundEffect":{"selectedIndex":..}}`.
    SelectEqPreset(u8),
    /// `{"player":{"playerStatus":..}}`: 1 plays, 0 pauses.
    SetPlayerStatus(u8),
    /// `{"player":{"next":1}}`.
    Next,
    /// `{"player":{"previous":1}}`.
    Previous,
}

/// The command that selects a source, keeping the reported input group.
pub fn source_command(current: &S260Status, source: &Source) -> (r: Result<Command>)
    ensures
        match r {
            Ok(c) => index_for_source(source@) matches Some(i) && c == Command::SelectInput {
                input_index: current.input_index,
                selected_index: i,
            },
            Err(Error::UnsupportedSource(name)) => index_for_source(source@) is None && name@
                == source@,
            Err(_) => false,
        },
{
    let selected_index = source_index(source)?;
    Ok(Command::SelectInput { input_index: current.input_index, selected_index })
}

/// The command that sets the volume, refused outside the reported range.
pub fn volume_command(current: &S260Status, volume: u8) -> (r: Result<Command>)
    ensures
        match r {
            Ok(c) => current.min_volume <= volume <= current.max_volume && c == Command::SetVolume(
                volume,
            ),
            Err(e) => !(current.min_volume <= volume <= current.max_volume) && e
                == Error::InvalidVolume {
                value: volume,
                min: current.min_volume,
                max: current.max_volume,
            },
        },
{
    if !(current.min_volume <= volume && volume <= current.max_volume) {
        return Err(
            Error::InvalidVolume {
                value: volume,
                min: current.min_volume,
                max: current.max_volume,
            },
        );
    }
    Ok(Command::SetVolume(volume))
}

/// The command that selects an equalizer preset, refused when the device
/// reports no equalizer or fewer presets.
pub fn eq_preset_command(current: &S260Status, preset: u8) -> (r: Result<Command>)
    ensures
        match r {
            Ok(c) => (current.equalizer matches Some(eq) && preset < eq.preset_count) && c
                == Command::SelectEqPreset(preset),
            Err(Error::MissingField(f)) => current.equalizer is None && f@ == "soundEffect"@,
            Err(Error::InvalidEqPreset { value, preset_count }) => (current.equalizer matches Some(
                eq,
            ) && preset >= eq.preset_count && preset_count == eq.preset_count) && value == preset,
            Err(_) => false,
        },
{
    let equalizer = match current.equalizer {
        Some(eq) => eq,
        None => return Err(Error::MissingField("soundEffect")),
    };
    if preset >= equalizer.preset_count {
        return Err(
            Error::InvalidEqPreset { value: preset, preset_count: equalizer.preset_count },
        );
    }
    Ok(Command::SelectEqPreset(preset))
}

/// The command for a playback action.
pub fn playback_command(action: PlaybackAction) -> (c: Command)
    ensures
        c == match action {
            PlaybackAction::Play => Command::SetPlayerStatus(1),
            PlaybackAction::Pause => Command::SetPlayerStatus(0),
            PlaybackAction::Next => Command::Next,
            PlaybackAction::Previous => Command::Previous,
        },
{
    match action {
        PlaybackAction::Play => Command::SetPlayerStatus(1),
        PlaybackAction::Pause => Command::SetPlayerStatus(0),
        PlaybackAction::Next => Command::Next,
        PlaybackAction::Previous => Command::Previous,
    }
}

/// How a character is written inside a compact JSON string: the quote and
/// the backslash are escaped, control characters below U+0020 take their
/// short escape where JSON has one and `\u00XX` (lower-case hex) otherwise,
/// and every other character is written as it is.
pub open spec fn json_escape(c: char) -> Seq<char> {
    if c == '"' {
        seq!['\\', '"']
    } else if c == '\\' {
        seq!['\\', '\\']
    } else if c == '\u{8}' {
        seq!['\\', 'b']
    } else if c == '\t' {
        seq!['\\', 't']
    } else if c == '\n' {
        seq!['\\', 'n']
    } else if c == '\u{c}' {
        seq!['\\', 'f']
    } else if c == '\r' {
        seq!['\\', 'r']
    } else if (c as u32) < 0x20 {
        seq!['\\', 'u', '0', '0'] + hex_byte(c as u8)
    } else {
        seq![c]
    }
}

/// The characters of `s`, each escaped for a JSON string.
pub open spec fn json_escaped(s: Seq<char>) -> Seq<char>
    decreases s.len(),
{
    if s.len() == 0 {
        Seq::empty()
    } else {
        json_escaped(s.drop_last()) + json_escape(s.last())
    }
}

/// `s` as a JSON string literal.
pub open spec fn json_string(s: Seq<char>) -> Seq<char> {
    seq!['"'] + json_escaped(s) + seq!['"']
}

/// The member that a settings request carries: its key and its object.
pub open spec fn settings_member(command: Command) -> Seq<char> {
    match command {
        Command::StatusQuery => Seq::empty(),
        Command::SelectInput { input_index, selected_index } => "\"inputSource\":{\"inputIndex\":"@
            + decimal(input_index as nat) + ",\"selectedIndex\":"@ + decimal(
            selected_index as nat,
        ) + "}"@,
        Command::SetVolume(v) => "\"player\":{\"volume\":"@ + decimal(v as nat) + "}"@,
        Command::SelectEqPreset(p) => "\"soundEffect\":{\"selectedIndex\":"@ + decimal(p as nat)
            + "}"@,
        Command::SetPlayerStatus(s) => "\"player\":{\"playerStatus\":"@ + decimal(s as nat)
            + "}"@,
        Command::Next => "\"player\":{\"next\":1}"@,
        Command::Previous => "\"player\":{\"previous\":1}"@,
    }
}

/// The compact JSON text of a request: `{"id":<id>,"payload":"status_query"}`
/// for a status query, `{"id":<id>,"payload":"settings",<member>}` for a
/// setting.
pub open spec fn request_text(id: Seq<char>, command: Command) -> Seq<char> {
    "{\"id\":"@ + json_string(id) + match command {
        Command::StatusQuery => ",\"payload\":\"status_query\"}"@,
        _ => ",\"payload\":\"settings\","@ + settings_member(command) + "}"@,
    }
}

/// Appends `c` escaped for a JSON string.
fn push_json_char(out: &mut String, c: char)
    ensures
        final(out)@ == old(out)@ + json_escape(c),
{
    if c == '"' {
        push_char(out, '\\');
        push_char(out, '"');
    } else if c == '\\' {
        push_char(out, '\\');
        push_char(out, '\\');
    } else if c == '\u{8}' {
        push_char(out, '\\');
        push_char(out, 'b');
    } else if c == '\t' {
        push_char(out, '\\');
        push_char(out, 't');
    } else if c == '\n' {
        push_char(out, '\\');
        push_char(out, 'n');
    } else if c == '\u{c}' {
        push_char(out, '\\');
        push_char(out, 'f');
    } else if c == '\r' {
        push_char(out, '\\');
        push_char(out, 'r');
    } else if (c as u32) < 0x20 {
        let b: u8 = c as u8;
        push_char(out, '\\');
        push_char(out, 'u');
        push_char(out, '0');
        push_char(out, '0');
        push_hex_digit(out, b / 16);
        push_hex_digit(out, b % 16);
        assert(out@ =~= old(out)@ + json_escape(c));
    } else {
        push_char(out, c);
    }
}

/// Appends `s` as a JSON string literal.
fn push_json_string(out: &mut String, s: &str)
    ensures
        final(out)@ == old(out)@ + json_string(s@),
{
    let chars = chars_of(s);
    let ghost start = out@;
    push_char(out, '"');
    let mut i: usize = 0;
    while i < chars.len()
        invariant
            chars@ == s@,
            i <= chars.len(),
            out@ == start.push('"') + json_escaped(s@.take(i as int)),
        decreases chars.len() - i,
    {
        push_json_char(out, chars[i]);
        proof {
            assert(s@.take(i as int + 1).drop_last() =~= s@.take(i as int));
            assert(s@.take(i as int + 1).last() == s@[i as int]);
            assert(out@ =~= start.push('"') + json_escaped(s@.take(i as int + 1)));
        }
        i = i + 1;
    }
    assert(s@.take(chars.len() as int) =~= s@);
    push_char(out, '"');
    assert(out@ =~= start + json_string(s@));
}

/// The bytes of a request: the compact UTF-8 JSON of `request_text`, which
/// the speaker reads without header or delimiter.
pub fn request_message(id: &str, command: Command) -> (r: Vec<u8>)
    ensures
        r@ == encode_utf8(request_text(id@, command)),
{
    let mut out = String::new();
    push_str(&mut out, "{\"id\":");
    push_json_string(&mut out, id);
    match command {
        Command::StatusQuery => {
            push_str(&mut out, ",\"payload\":\"status_query\"}");
        },
        _ => {
            push_str(&mut out, ",\"payload\":\"settings\",");
            let ghost mid = out@;
            match command {
                Command::SelectInput { input_index, selected_index } => {
                    push_str(&mut out, "\"inputSource\":{\"inputIndex\":");
                    push_decimal(&mut out, input_index as u128);
                    push_str(&mut out, ",\"selectedIndex\":");
                    push_decimal(&mut out, selected_index as u128);
                    push_str(&mut out, "}");
                },
                Command::SetVolume(v) => {
                    push_str(&mut out, "\"player\":{\"volume\":");
                    push_decimal(&mut out, v as u128);
                    push_str(&mut out, "}");
                },
                Command::SelectEqPreset(p) => {
                    push_str(&mut out, "\"soundEffect\":{\"selectedIndex\":");
                    push_decimal(&mut out, p as u128);
                    push_str(&mut out, "}");
                },
                Command::SetPlayerStatus(s) => {
                    push_str(&mut out, "\"player\":{\"playerStatus\":");
                    push_decimal(&mut out, s as u128);
                    push_str(&mut out, "}");
                },
                Command::Next => {
                    push_str(&mut out, "\"player\":{\"next\":1}");
                },
                Command::Previous => {
                    push_str(&mut out, "\"player\":{\"previous\":1}");
                },
                Command::StatusQuery => {},
            }
            assert(out@ =~= mid + settings_member(command));
            push_str(&mut out, "}");
        },
    }
    assert(out@ =~= request_text(id@, command));
    out.as_str().as_bytes_vec()
}

/// Whether a character is a control character (general category `Cc`:
/// U+0000..U+001F and U+007F..U+009F), as `char::is_control` decides.
pub open spec fn is_control(c: char) -> bool {
    (c as u32) < 0x20 || (0x7f <= (c as u32) && (c as u32) <= 0x9f)
}

/// The characters of a text that are not control characters.
pub open spec fn printable(s: Seq<char>) -> Seq<char>
    decreases s.len(),
{
    if s.len() == 0 {
        s
    } else if is_control(s.last()) {
        printable(s.drop_last())
    } else {
        printable(s.drop_last()).push(s.last())
    }
}

/// At most the first 160 printable characters of a device message.
pub open spec fn sanitized(s: Seq<char>) -> Seq<char> {
    let p = printable(s);
    if p.len() <= 160 {
        p
    } else {
        p.take(160)
    }
}

proof fn lemma_printable_len(s: Seq<char>)
    ensures
        printable(s).len() <= s.len(),
    decreases s.len(),
{
    if s.len() > 0 {
        lemma_printable_len(s.drop_last());
    }
}

proof fn lemma_printable_prefix(s: Seq<char>, i: int)
    requires
        0 <= i <= s.len(),
    ensures
        printable(s.take(i)).is_prefix_of(printable(s)),
    decreases s.len() - i,
{
    if i < s.len() {
        lemma_printable_prefix(s, i + 1);
        assert(s.take(i + 1).drop_last() == s.take(i));
    } else {
        assert(s.take(i) == s);
    }
}


/// A sanitized device message holds at most 160 characters and no control
/// character.
pub proof fn sanitized_messages_are_bounded(m: Seq<char>)
    ensures
        sanitized(m).len() <= 160,
        forall|i: int| 0 <= i < sanitized(m).len() ==> !is_control(#[trigger] sanitized(m)[i]),
{
    lemma_printable_has_no_control(m);
}

proof fn lemma_printable_has_no_control(s: Seq<char>)
    ensures
        forall|i: int| 0 <= i < printable(s).len() ==> !is_control(#[trigger] printable(s)[i]),
    decreases s.len(),
{
    if s.len() > 0 {
        let p = printable(s.drop_last());
        lemma_printable_has_no_control(s.drop_last());
        if !is_control(s.last()) {
            assert forall|i: int| 0 <= i < printable(s).len() implies !is_control(
                #[trigger] printable(s)[i],
            ) by {
                if i < p.len() {
                    assert(printable(s)[i] == p[i]);
                }
            }
        }
    }
}

/// Removes control characters and keeps at most 160 characters of an
/// untrusted device message.
pub fn sanitize_message(message: &str) -> (r: String)
    ensures
        r@ == sanitized(message@),
{
    let chars = chars_of(message);
    let mut r = String::new();
    let mut i: usize = 0;
    while i < chars.len() && r.as_str().unicode_len() < 160
        invariant
            i <= chars.len(),
            chars@ == message@,
            r@ == printable(message@.take(i as int)),
            r@.len() <= 160,
        decreases chars.len() - i,
    {
        assert(message@.take(i + 1).drop_last() == message@.take(i as int));
        let c = chars[i];
        let code = c as u32;
        if !(code < 0x20 || (0x7f <= code && code <= 0x9f)) {
            push_char(&mut r, c);
        }
        i = i + 1;
    }
    proof {
        lemma_printable_prefix(message@, i as int);
        if i == chars.len() {
            assert(message@.take(i as int) == message@);
        }
        let p = printable(message@);
        if p.len() <= 160 {
            if i < chars.len() {
                assert(r@.len() == 160);
                assert(r@ =~= p);
            }
        } else {
            if i == chars.len() {
                assert(false);
            }
            assert(r@.len() == 160);
            assert(r@ =~= p.take(160));
        }
    }
    r
}

/// The fields of a decoded response that decide its fate: the `id` when it
/// is a string, the `code` when it is an integer, the `message` when it is
/// a string.
#[derive(Debug, Clone, PartialEq, Eq)]
pub struct ResponseFields {
    /// `id`, when present as a string.
    pub id: Option<String>,
    /// `code`, when present as an integer.
    pub code: Option<i64>,
    /// `message`, when present as a string.
    pub message: Option<String>,
}

impl View for ResponseFields {
    type V = (Option<Seq<char>>, Option<i64>, Option<Seq<char>>);

    /// The three fields as plain values: `id`, `code`, `message`.
    open spec fn view(&self) -> Self::V {
        (
            match self.id {
                Some(id) => Some(id@),
                None => None,
            },
            self.code,
            match self.message {
                Some(message) => Some(message@),
                None => None,
            },
        )
    }
}

/// What a response means for the request awaiting it.
#[derive(Debug, Clone, PartialEq, Eq)]
pub enum ResponseCheck {
    /// The response answers another request.
    Unrelated,
    /// The device accepted the request.
    Accepted,
    /// The response answers the request with an error.
    Failed(Error),
}

/// `"success"`.
pub open spec fn success_word() -> Seq<char> {
    "success"@
}

/// Whether a response carries the id of the awaited request.
pub open spec fn answers(expected_id: Seq<char>, fields: ResponseFields) -> bool {
    fields.id matches Some(id) && id@ == expected_id
}

/// Whether `r` is the judgement of a response to the request `expected_id`:
/// an unrelated id is ignored; an answer must carry an integer code, a
/// message, code 0 and message `"success"`, and is otherwise rejected with
/// its code and sanitized message.
pub open spec fn judged(expected_id: Seq<char>, fields: ResponseFields, r: ResponseCheck) -> bool {
    if !answers(expected_id, fields) {
        r == ResponseCheck::Unrelated
    } else {
        match r {
            ResponseCheck::Accepted => fields.code == Some(0i64) && (fields.message matches Some(
                m,
            ) && m@ == success_word()),
            ResponseCheck::Failed(Error::Protocol(m)) => (fields.code is None && m@
                == "response did not contain an integer code"@) || (fields.code is Some
                && fields.message is None && m@ == "response did not contain a message"@),
            ResponseCheck::Failed(Error::Rejected { code, message }) => fields.code == Some(code)
                && (fields.message matches Some(m) && (code != 0 || m@ != success_word())
                && message@ == sanitized(m@)),
            _ => false,
        }
    }
}

/// Judges one response to the request with id `expected_id`.
pub fn check_response(expected_id: &str, fields: &ResponseFields) -> (r: ResponseCheck)
    ensures
        judged(expected_id@, *fields, r),
{
    let matches_id = match &fields.id {
        Some(id) => crate::text::chars_eq(&chars_of(id.as_str()), &chars_of(expected_id)),
        None => false,
    };
    if !matches_id {
        return ResponseCheck::Unrelated;
    }
    let code = match fields.code {
        Some(code) => code,
        None => return ResponseCheck::Failed(
            Error::Protocol(String::from_str("response did not contain an integer code")),
        ),
    };
    let message = match &fields.message {
        Some(message) => message,
        None => return ResponseCheck::Failed(
            Error::Protocol(String::from_str("response did not contain a message")),
        ),
    };
    let success = crate::text::chars_eq(&chars_of(message.as_str()), &chars_of("success"));
    if code != 0 || !success {
        return ResponseCheck::Failed(
            Error::Rejected { code, message: sanitize_message(message.as_str()) },
        );
    }
    ResponseCheck::Accepted
}


/// What a batch of decoded responses means for the awaited request.
#[derive(Debug, Clone, PartialEq, Eq)]
pub enum BatchOutcome {
    /// Nothing answered the request yet; keep reading.
    KeepReading,
    /// The response at this index accepted the request.
    Accepted(usize),
    /// The request failed with this error.
    Failed(Error),
}

/// The index of the first response of a batch that answers the request.
pub open spec fn first_answer(expected_id: Seq<char>, batch: Seq<Result<ResponseFields>>) -> Option<int>
    decreases batch.len(),
{
    if batch.len() == 0 {
        None
    } else {
        match first_answer(expected_id, batch.drop_last()) {
            Some(i) => Some(i),
            None => if batch.last() matches Ok(f) && (f.id matches Some(id) && id@ == expected_id) {
                Some(batch.len() - 1)
            } else {
                None
            },
        }
    }
}

/// The index of the first response of a batch that could not be parsed.
pub open spec fn first_malformed(batch: Seq<Result<ResponseFields>>) -> Option<int>
    decreases batch.len(),
{
    if batch.len() == 0 {
        None
    } else {
        match first_malformed(batch.drop_last()) {
            Some(i) => Some(i),
            None => if batch.last() is Err {
                Some(batch.len() - 1)
            } else {
                None
            },
        }
    }
}

/// Judges the responses decoded from one read: the first response that
/// answers the request decides; if none does, the first response that could
/// not be parsed fails the request; otherwise reading goes on.
pub fn judge_batch(expected_id: &str, batch: Vec<Result<ResponseFields>>) -> (r: BatchOutcome)
    ensures
        match first_answer(expected_id@, batch@) {
            Some(i) => batch@[i] matches Ok(f) && match r {
                BatchOutcome::Accepted(k) => k == i && judged(
                    expected_id@,
                    f,
                    ResponseCheck::Accepted,
                ),
                BatchOutcome::Failed(e) => judged(expected_id@, f, ResponseCheck::Failed(e)),
                BatchOutcome::KeepReading => false,
            },
            None => match first_malformed(batch@) {
                Some(i) => batch@[i] matches Err(e) && r == BatchOutcome::Failed(e),
                None => r == BatchOutcome::KeepReading,
            },
        },
{
    let mut malformed: Option<usize> = None;
    let mut i: usize = 0;
    while i < batch.len()
        invariant
            i <= batch.len(),
            first_answer(expected_id@, batch@.take(i as int)) is None,
            match malformed {
                Some(k) => k < i && first_malformed(batch@.take(i as int)) == Some(k as int),
                None => first_malformed(batch@.take(i as int)) is None,
            },
        decreases batch.len() - i,
    {
        assert(batch@.take(i + 1).drop_last() == batch@.take(i as int));
        match &batch[i] {
            Ok(fields) => {
                match check_response(expected_id, fields) {
                    ResponseCheck::Unrelated => {},
                    ResponseCheck::Accepted => {
                        proof {
                            lemma_first_answer_prefix(expected_id@, batch@, i as int + 1, i as int);
                        }
                        return BatchOutcome::Accepted(i);
                    },
                    ResponseCheck::Failed(error) => {
                        proof {
                            lemma_first_answer_prefix(expected_id@, batch@, i as int + 1, i as int);
                        }
                        return BatchOutcome::Failed(error);
                    },
                }
            },
            Err(_) => {
                if malformed.is_none() {
                    malformed = Some(i);
                }
            },
        }
        i = i + 1;
    }
    assert(batch@.take(batch@.len() as int) == batch@);
    let ghost original = batch@;
    let mut batch = batch;
    match malformed {
        Some(k) => match batch.remove(k) {
            Err(error) => {
                assert(original[k as int] == Err::<ResponseFields, Error>(error));
                BatchOutcome::Failed(error)
            },
            Ok(_) => {
                proof {
                    lemma_first_malformed_is_err(original);
                    assert(false);
                }
                BatchOutcome::KeepReading
            },
        },
        None => BatchOutcome::KeepReading,
    }
}

proof fn lemma_first_answer_prefix(
    expected_id: Seq<char>,
    batch: Seq<Result<ResponseFields>>,
    n: int,
    i: int,
)
    requires
        0 < n <= batch.len(),
        first_answer(expected_id, batch.take(n)) == Some(i),
    ensures
        first_answer(expected_id, batch) == Some(i),
    decreases batch.len() - n,
{
    if n < batch.len() {
        assert(batch.take(n + 1).drop_last() == batch.take(n));
        lemma_first_answer_prefix(expected_id, batch, n + 1, i);
    } else {
        assert(batch.take(n) == batch);
    }
}

proof fn lemma_first_malformed_is_err(batch: Seq<Result<ResponseFields>>)
    ensures
        first_malformed(batch) matches Some(i) ==> 0 <= i < batch.len() && batch[i] is Err,
    decreases batch.len(),
{
    if batch.len() > 0 {
        lemma_first_malformed_is_err(batch.drop_last());
    }
}

/// Three decimal digits of `n < 1000`, with leading zeros (`{:03}`).
pub open spec fn three_digits(n: nat) -> Seq<char> {
    seq![
        crate::text::digit_char(n / 100),
        crate::text::digit_char((n / 10) % 10),
        crate::text::digit_char(n % 10),
    ]
}

/// The request id made of the clock reading in milliseconds and a sequence
/// number: the milliseconds in decimal, then the sequence number modulo 1000
/// as three digits.
pub fn request_id(millis: u128, sequence: u64) -> (id: String)
    ensures
        id@ == decimal(millis as nat) + three_digits((sequence % 1000) as nat),
{
    let mut id = String::new();
    push_decimal(&mut id, millis);
    let n = sequence % 1000;
    push_char(&mut id, ((n / 100) as u8 + 48) as char);
    push_char(&mut id, (((n / 10) % 10) as u8 + 48) as char);
    push_char(&mut id, ((n % 10) as u8 + 48) as char);
    id
}

/// The state a mutation must reach before it counts as done.
#[derive(Debug, Clone, PartialEq, Eq)]
pub enum VerifyTarget {
    /// The selected source.
    Source(Source),
    /// The volume.
    Volume(u8),
    /// The equalizer preset.
    Equalizer(u8),
}

/// The name of the verified field in a timeout error.
pub open spec fn target_field(t: VerifyTarget) -> Seq<char> {
    match t {
        VerifyTarget::Source(_) => "source"@,
        VerifyTarget::Volume(_) => "volume"@,
        VerifyTarget::Equalizer(_) => "equalizer"@,
    }
}

/// The requested value, as a timeout error shows it.
pub open spec fn target_text(t: VerifyTarget) -> Seq<char> {
    match t {
        VerifyTarget::Source(s) => s@,
        VerifyTarget::Volume(v) => decimal(v as nat),
        VerifyTarget::Equalizer(p) => decimal(p as nat),
    }
}

/// Whether a status shows the target reached.
pub open spec fn target_reached(t: VerifyTarget, s: S260Status) -> bool {
    match t {
        VerifyTarget::Source(source) => s.source@ == source@,
        VerifyTarget::Volume(v) => s.volume == v,
        VerifyTarget::Equalizer(p) => s.equalizer matches Some(eq) && eq.preset == p,
    }
}

/// A status verifies exactly what it shows: the target of its own source, of
/// its own volume and (when it reports one) of its own equalizer preset is
/// reached, and a target asking for any other source, volume or preset is not.
pub proof fn a_status_verifies_exactly_what_it_shows(s: S260Status, t: VerifyTarget)
    ensures
        target_reached(VerifyTarget::Volume(s.volume), s),
        target_reached(VerifyTarget::Source(s.source), s),
        s.equalizer matches Some(eq) ==> target_reached(VerifyTarget::Equalizer(eq.preset), s),
        t matches VerifyTarget::Volume(v) ==> (target_reached(t, s) ==> v == s.volume),
        t matches VerifyTarget::Source(src) ==> (target_reached(t, s) ==> src@ == s.source@),
        t matches VerifyTarget::Equalizer(p) ==> (target_reached(t, s) ==> (s.equalizer matches Some(
            eq,
        ) && eq.preset == p)),
{
}

/// The observed value of the target's field, as a timeout error shows it.
pub open spec fn observed_text(t: VerifyTarget, s: S260Status) -> Seq<char> {
    match t {
        VerifyTarget::Source(_) => s.source@,
        VerifyTarget::Volume(_) => decimal(s.volume as nat),
        VerifyTarget::Equalizer(_) => match s.equalizer {
            Some(eq) => decimal(eq.preset as nat),
            None => "missing"@,
        },
    }
}

/// What the verification loop does next.
#[derive(Debug)]
pub enum VerifyStep {
    /// Query the status, waiting at most this many milliseconds.
    Query(u64),
    /// Sleep this many milliseconds, then poll again.
    Sleep(u64),
    /// The verification is over with this result.
    Done(Result<S260Status>),
}

/// Progress of verifying an acknowledged mutation: repeated status queries
/// until the target is seen or the deadline passes.
pub struct Verification {
    target: VerifyTarget,
    started_ms: u64,
    deadline_ms: u64,
    attempts: u32,
    last_actual: String,
}

impl Verification {
    /// The state being waited for.
    pub closed spec fn target(&self) -> VerifyTarget {
        self.target
    }

    /// When the verification started.
    pub closed spec fn started(&self) -> u64 {
        self.started_ms
    }

    /// When the verification gives up.
    pub closed spec fn deadline(&self) -> u64 {
        self.deadline_ms
    }

    /// Status queries made so far.
    pub closed spec fn attempts(&self) -> u32 {
        self.attempts
    }

    /// The last observed value, or `"unobserved"`.
    pub closed spec fn last_actual(&self) -> Seq<char> {
        self.last_actual@
    }

    /// Whether an error is the timeout error for the current state at `now_ms`.
    pub open spec fn is_timeout(&self, e: Error, now_ms: u64) -> bool {
        e matches Error::VerificationTimeout { field, expected, actual, attempts, elapsed_ms }
            && field@ == target_field(self.target()) && expected@ == target_text(self.target())
            && actual@ == self.last_actual() && attempts == self.attempts() && elapsed_ms == (if now_ms
            >= self.started() {
            (now_ms - self.started()) as u64
        } else {
            0
        })
    }

    /// Starts verifying `target` at `now_ms` for at most `timeout_ms`.
    pub fn new(target: VerifyTarget, now_ms: u64, timeout_ms: u64) -> (r: Result<Self>)
        ensures
            match r {
                Ok(v) => now_ms + timeout_ms <= u64::MAX && v.target() == target && v.started()
                    == now_ms && v.deadline() == now_ms + timeout_ms && v.attempts() == 0
                    && v.last_actual() == "unobserved"@,
                Err(Error::Protocol(m)) => now_ms + timeout_ms > u64::MAX && m@
                    == "verification timeout is too large"@,
                Err(_) => false,
            },
    {
        match now_ms.checked_add(timeout_ms) {
            Some(deadline_ms) => Ok(
                Verification {
                    target,
                    started_ms: now_ms,
                    deadline_ms,
                    attempts: 0,
                    last_actual: String::from_str("unobserved"),
                },
            ),
            None => Err(Error::Protocol(String::from_str("verification timeout is too large"))),
        }
    }

    fn timeout(&self, now_ms: u64) -> (e: Error)
        ensures
            self.is_timeout(e, now_ms),
    {
        let field: &'static str = match &self.target {
            VerifyTarget::Source(_) => "source",
            VerifyTarget::Volume(_) => "volume",
            VerifyTarget::Equalizer(_) => "equalizer",
        };
        let expected = match &self.target {
            VerifyTarget::Source(s) => String::from_str(s.as_str()),
            VerifyTarget::Volume(v) => crate::text::decimal_string(*v as u128),
            VerifyTarget::Equalizer(p) => crate::text::decimal_string(*p as u128),
        };
        Error::VerificationTimeout {
            field,
            expected,
            actual: self.last_actual.clone(),
            attempts: self.attempts,
            elapsed_ms: if now_ms >= self.started_ms {
                now_ms - self.started_ms
            } else {
                0
            },
        }
    }

    /// Starts the next round at `now_ms`: past the deadline the verification
    /// fails with a timeout that reports the target, the last observed value
    /// and the number of queries; otherwise one more query is made, bounded by
    /// the request timeout and the time left.
    pub fn poll(&mut self, now_ms: u64, request_timeout_ms: u64) -> (step: VerifyStep)
        ensures
            final(self).target() == old(self).target(),
            final(self).started() == old(self).started(),
            final(self).deadline() == old(self).deadline(),
            final(self).last_actual() == old(self).last_actual(),
            now_ms >= old(self).deadline() ==> final(self).attempts() == old(self).attempts() && (
            step matches VerifyStep::Done(Err(e)) && old(self).is_timeout(e, now_ms)),
            now_ms < old(self).deadline() ==> final(self).attempts() == (if old(self).attempts()
                < u32::MAX {
                (old(self).attempts() + 1) as u32
            } else {
                u32::MAX
            }) && step == VerifyStep::Query(
                crate::s260::events::min(
                    (old(self).deadline() - now_ms) as u64,
                    request_timeout_ms,
                ),
            ),
    {
        if now_ms >= self.deadline_ms {
            return VerifyStep::Done(Err(self.timeout(now_ms)));
        }
        self.attempts = self.attempts.saturating_add(1);
        let remaining = self.deadline_ms - now_ms;
        VerifyStep::Query(
            if remaining <= request_timeout_ms {
                remaining
            } else {
                request_timeout_ms
            },
        )
    }

    /// Handles the outcome of a status query that returned at `now_ms`: a
    /// status showing the target ends the verification; any other status is
    /// remembered and the loop sleeps for the interval or the time left; a
    /// failed query ends it with that error, or with the timeout once the
    /// deadline has passed.
    pub fn query_returned(&mut self, outcome: Result<S260Status>, now_ms: u64, interval_ms: u64) -> (step:
        VerifyStep)
        ensures
            final(self).target() == old(self).target(),
            final(self).started() == old(self).started(),
            final(self).deadline() == old(self).deadline(),
            final(self).attempts() == old(self).attempts(),
            match outcome {
                Err(e) => final(self).last_actual() == old(self).last_actual() && if now_ms >= old(
                    self,
                ).deadline() {
                    step matches VerifyStep::Done(Err(t)) && old(self).is_timeout(t, now_ms)
                } else {
                    step matches VerifyStep::Done(Err(f)) && f == e
                },
                Ok(s) => if target_reached(old(self).target(), s) {
                    final(self).last_actual() == old(self).last_actual() && (step matches VerifyStep::Done(Ok(r)) && r == s)
                } else {
                    final(self).last_actual() == observed_text(old(self).target(), s) && if now_ms
                        > old(self).deadline() {
                        step matches VerifyStep::Done(Err(t)) && final(self).is_timeout(t, now_ms)
                    } else {
                        step == VerifyStep::Sleep(
                            crate::s260::events::min(
                                (old(self).deadline() - now_ms) as u64,
                                interval_ms,
                            ),
                        )
                    }
                },
            },
            step matches VerifyStep::Done(Ok(r)) ==> match old(self).target() {
                VerifyTarget::Source(src) => r.source@ == src@,
                VerifyTarget::Volume(v) => r.volume == v,
                VerifyTarget::Equalizer(p) => r.equalizer matches Some(eq) && eq.preset == p,
            },
    {
        proof {
            if outcome is Ok {
                a_status_verifies_exactly_what_it_shows(outcome->Ok_0, self.target());
            }
        }
        let status = match outcome {
            Ok(status) => status,
            Err(error) => {
                if now_ms >= self.deadline_ms {
                    return VerifyStep::Done(Err(self.timeout(now_ms)));
                }
                return VerifyStep::Done(Err(error));
            },
        };
        let reached = match &self.target {
            VerifyTarget::Source(source) => crate::text::chars_eq(
                &chars_of(status.source.as_str()),
                &chars_of(source.as_str()),
            ),
            VerifyTarget::Volume(v) => status.volume == *v,
            VerifyTarget::Equalizer(p) => match status.equalizer {
                Some(eq) => eq.preset == *p,
                None => false,
            },
        };
        if reached {
            return VerifyStep::Done(Ok(status));
        }
        self.last_actual = match &self.target {
            VerifyTarget::Source(_) => String::from_str(status.source.as_str()),
            VerifyTarget::Volume(_) => crate::text::decimal_string(status.volume as u128),
            VerifyTarget::Equalizer(_) => match status.equalizer {
                Some(eq) => crate::text::decimal_string(eq.preset as u128),
                None => String::from_str("missing"),
            },
        };
        if now_ms > self.deadline_ms {
            return VerifyStep::Done(Err(self.timeout(now_ms)));
        }
        let remaining = self.deadline_ms - now_ms;
        VerifyStep::Sleep(if remaining <= interval_ms { remaining } else { interval_ms })
    }
}

/// The digits after the decimal point of `f` thousandths (`0 < f < 1000`),
/// without trailing zeros.
pub open spec fn thousandths(f: nat) -> Seq<char> {
    if f % 100 == 0 {
        seq![crate::text::digit_char(f / 100)]
    } else if f % 10 == 0 {
        seq![crate::text::digit_char(f / 100), crate::text::digit_char((f / 10) % 10)]
    } else {
        three_digits(f)
    }
}

/// A whole number of milliseconds as Rust's `Duration` debug output writes
/// it: `0ns`, `250ms`, `5s`, `1.5s`.
pub open spec fn duration_text(ms: nat) -> Seq<char> {
    if ms == 0 {
        "0ns"@
    } else if ms < 1000 {
        decimal(ms) + "ms"@
    } else if ms % 1000 == 0 {
        decimal(ms / 1000) + "s"@
    } else {
        decimal(ms / 1000) + "."@ + thousandths(ms % 1000) + "s"@
    }
}

/// Appends `duration_text(ms)`.
fn push_duration(out: &mut String, ms: u64)
    ensures
        final(out)@ == old(out)@ + duration_text(ms as nat),
{
    if ms == 0 {
        push_str(out, "0ns");
    } else if ms < 1000 {
        push_decimal(out, ms as u128);
        push_str(out, "ms");
    } else {
        push_decimal(out, (ms / 1000) as u128);
        let f = ms % 1000;
        if f != 0 {
            push_str(out, ".");
            push_char(out, ((f / 100) as u8 + 48) as char);
            if f % 100 != 0 {
                push_char(out, (((f / 10) % 10) as u8 + 48) as char);
                if f % 10 != 0 {
                    push_char(out, ((f % 10) as u8 + 48) as char);
                }
            }
        }
        push_str(out, "s");
        assert(out@ =~= old(out)@ + duration_text(ms as nat));
    }
}

/// The error text of a request that got no answer in time.
pub open spec fn unanswered_text(request_id: Seq<char>, timeout_ms: nat) -> Seq<char> {
    "speaker did not answer request "@ + request_id + " within "@ + duration_text(timeout_ms)
}

/// The deadline of one request, on a millisecond clock, and the reads that
/// wait for its answer.
#[derive(Debug, Clone, Copy, PartialEq, Eq)]
pub struct RequestWait {
    /// When the request gives up.
    pub deadline_ms: u64,
    /// The timeout the request was given.
    pub timeout_ms: u64,
}

impl RequestWait {
    /// Starts waiting at `now_ms` for at most `timeout_ms`; a deadline past
    /// the clock's range is refused.
    pub fn new(now_ms: u64, timeout_ms: u64) -> (r: Result<RequestWait>)
        ensures
            match r {
                Ok(w) => now_ms + timeout_ms <= u64::MAX && w.deadline_ms == now_ms + timeout_ms
                    && w.timeout_ms == timeout_ms,
                Err(e) => now_ms + timeout_ms > u64::MAX && (e matches Error::Protocol(m) && m@
                    == "request timeout is too large"@),
            },
    {
        match now_ms.checked_add(timeout_ms) {
            Some(deadline_ms) => Ok(RequestWait { deadline_ms, timeout_ms }),
            None => Err(Error::Protocol(String::from_str("request timeout is too large"))),
        }
    }

    /// The timeout of the next read at `now_ms`: what is left of the request's
    /// time, at most one read slice; once the deadline has come, the error
    /// that the request was not answered.
    pub fn next_read(&self, now_ms: u64, request_id: &str) -> (r: Result<u64>)
        ensures
            match r {
                Ok(t) => now_ms < self.deadline_ms && t == if self.deadline_ms - now_ms
                    < READ_SLICE_MS {
                    self.deadline_ms - now_ms
                } else {
                    READ_SLICE_MS as int
                },
                Err(e) => now_ms >= self.deadline_ms && (e matches Error::Protocol(m) && m@
                    == unanswered_text(request_id@, self.timeout_ms as nat)),
            },
    {
        if now_ms >= self.deadline_ms {
            let mut text = String::new();
            push_str(&mut text, "speaker did not answer request ");
            push_str(&mut text, request_id);
            push_str(&mut text, " within ");
            push_duration(&mut text, self.timeout_ms);
            assert(text@ =~= unanswered_text(request_id@, self.timeout_ms as nat));
            return Err(Error::Protocol(text));
        }
        let remaining = self.deadline_ms - now_ms;
        Ok(if remaining < READ_SLICE_MS { remaining } else { READ_SLICE_MS })
    }

    /// The error of a connection that the speaker closed before answering.
    pub fn closed() -> (e: Error)
        ensures
            e matches Error::Protocol(m) && m@ == "speaker closed the connection"@,
    {
        Error::Protocol(String::from_str("speaker closed the connection"))
    }
}

} // verus!
