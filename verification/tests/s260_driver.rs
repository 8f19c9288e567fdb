use open_edifier::aaec::{Frame, HEARTBEAT_COMMAND};
use open_edifier::device::{DeviceEvent, Equalizer, PlaybackAction, Source};
use open_edifier::s260::client::{
    check_response, eq_preset_command, judge_batch, playback_command, request_id,
    request_message, sanitize_message, source_command, validate_config, volume_command,
    BatchOutcome, ClientConfig, Command, RequestWait, ResponseCheck, ResponseFields, Verification,
    VerifyStep, VerifyTarget,
};
use open_edifier::s260::error::{Error, IoErrorKind};
use open_edifier::device::Error as CoreError;
use open_edifier::s260::events::{
    decode_event, EventMachine, EventStep, INPUT_EVENT, INPUT_SUBCOMMAND, VOLUME_EVENT,
};
use open_edifier::s260::model::{
    playback_state, source_from_index, source_index, S260Status, SoundEffectReport, StatusReport,
};
use open_edifier::s260::protocol::FrameDecoder;

#[test]
fn decodes_verified_source_volume_and_unknown_events() {
    assert_eq!(
        decode_event(Frame {
            command: INPUT_EVENT,
            payload: vec![INPUT_SUBCOMMAND, 4],
        })
        .unwrap(),
        DeviceEvent::Source {
            source: Source::new(Source::AIRPLAY),
        }
    );
    assert_eq!(
        decode_event(Frame {
            command: VOLUME_EVENT,
            payload: vec![30, 18],
        })
        .unwrap(),
        DeviceEvent::Volume {
            current: 18,
            max: 30,
        }
    );
    assert!(matches!(
        decode_event(Frame {
            command: 0x9999,
            payload: vec![1, 2],
        })
        .unwrap(),
        DeviceEvent::Unknown {
            command: 0x9999,
            ..
        }
    ));
}

#[test]
fn rejects_impossible_volume_events() {
    assert!(matches!(
        decode_event(Frame {
            command: VOLUME_EVENT,
            payload: vec![30, 31],
        }),
        Err(Error::Protocol(message)) if message.contains("volume event")
    ));
}

#[test]
fn decodes_playback_equalizer_and_track_events() {
    assert_eq!(
        decode_event(Frame { command: 0x0068, payload: vec![2] }).unwrap(),
        DeviceEvent::Playback { state: playback_state(2) }
    );
    assert_eq!(
        decode_event(Frame { command: 0x00c4, payload: vec![1, 9] }).unwrap(),
        DeviceEvent::Equalizer { preset: 1 }
    );
    assert_eq!(
        decode_event(Frame { command: 0x0050, payload: vec![5, 6] }).unwrap(),
        DeviceEvent::TrackInfo { payload: vec![5, 6] }
    );
    assert_eq!(
        decode_event(Frame { command: INPUT_EVENT, payload: vec![INPUT_SUBCOMMAND, 9] }).unwrap(),
        DeviceEvent::Unknown { command: INPUT_EVENT, payload: vec![INPUT_SUBCOMMAND, 9] }
    );
    assert_eq!(
        decode_event(Frame { command: 0x0068, payload: vec![7] }).unwrap(),
        DeviceEvent::Unknown { command: 0x0068, payload: vec![7] }
    );
}

#[test]
fn playback_states_are_named() {
    assert_eq!(playback_state(0).as_str(), "stopped");
    assert_eq!(playback_state(1).as_str(), "playing");
    assert_eq!(playback_state(42).as_str(), "unknown_42");
}

#[test]
fn source_indices_round_trip() {
    for index in 0..4u64 {
        let source = source_from_index(index).unwrap();
        assert_eq!(source_index(&source).unwrap() as u64, index);
    }
    assert_eq!(source_from_index(4), Err(Error::InvalidSource(4)));
    assert_eq!(
        source_index(&Source::new("optical")),
        Err(Error::UnsupportedSource("optical".to_owned()))
    );
}

fn report(volume: u64, min: Option<u64>, max: u64) -> StatusReport {
    StatusReport {
        bluetooth_name: None,
        firmware_version: None,
        input_index: None,
        selected_index: 2,
        volume,
        min_volume: min,
        max_volume: max,
        player_status: None,
        sound_effect: None,
    }
}

#[test]
fn rejects_volume_ranges_that_do_not_fit_the_public_type() {
    assert!(matches!(
        S260Status::from_report(report(18, Some(256), 30)),
        Err(Error::Protocol(message)) if message.contains("minVolume")
    ));
}

#[test]
fn rejects_inconsistent_public_state_ranges() {
    assert!(matches!(
        S260Status::from_report(report(31, Some(0), 30)),
        Err(Error::Protocol(message)) if message.contains("volume range")
    ));
    let mut equalizer = report(18, Some(0), 30);
    equalizer.sound_effect = Some(SoundEffectReport {
        selected_index: Some(3),
        sound_index: Some(3),
    });
    assert!(matches!(
        S260Status::from_report(equalizer),
        Err(Error::Protocol(message)) if message.contains("EQ range")
    ));
}

#[test]
fn public_status_does_not_serialize_private_vendor_fields() {
    let status = S260Status::from_report(StatusReport {
        bluetooth_name: Some("EDIFIER S260".to_owned()),
        firmware_version: Some("01.00.00".to_owned()),
        input_index: Some(1),
        selected_index: 2,
        volume: 18,
        min_volume: Some(0),
        max_volume: 30,
        player_status: None,
        sound_effect: None,
    })
    .unwrap();
    let public = status.to_device_status();
    assert_eq!(public.name, "EDIFIER S260");
    assert_eq!(public.firmware, "01.00.00");
    assert_eq!(public.model.as_str(), "s260");
    let sources: Vec<&str> = public.capabilities.sources.iter().map(Source::as_str).collect();
    assert_eq!(sources, vec!["bluetooth", "aux", "usb", "airplay"]);
}

#[test]
fn status_defaults_and_messages_are_exact() {
    let status = S260Status::from_report(report(18, None, 30)).unwrap();
    assert_eq!(status.name, "EDIFIER S260");
    assert_eq!(status.firmware, "unknown");
    assert_eq!(status.input_index, 1);
    assert_eq!(status.min_volume, 0);
    assert_eq!(
        S260Status::from_report(report(31, Some(0), 30)),
        Err(Error::Protocol("invalid volume range: min=0, current=31, max=30".to_owned()))
    );
    assert_eq!(
        S260Status::from_report(report(300, Some(0), 30)),
        Err(Error::Protocol("volume does not fit in u8".to_owned()))
    );
    let mut half = report(18, Some(0), 30);
    half.sound_effect = Some(SoundEffectReport { selected_index: Some(1), sound_index: None });
    assert_eq!(
        S260Status::from_report(half),
        Err(Error::MissingField("complete soundEffect range"))
    );
    let mut bad_source = report(18, Some(0), 30);
    bad_source.selected_index = 9;
    assert_eq!(S260Status::from_report(bad_source), Err(Error::InvalidSource(9)));
}

fn frame(json: &str, prefix: &[u8]) -> Vec<u8> {
    let payload = json.as_bytes();
    let mut result = prefix.to_vec();
    result.extend([0xee, 0xdd, 0xff, 0xee]);
    result.extend((payload.len() as u16).to_be_bytes());
    result.extend(payload);
    result
}

fn binary_frame(command: u16, payload: &[u8]) -> Vec<u8> {
    let mut result = vec![0xbb, 0xec];
    result.extend(command.to_le_bytes());
    result.push(payload.len() as u8);
    result.extend(payload);
    let checksum = result.iter().fold(0_u8, |sum, byte| sum.wrapping_add(*byte));
    result.push(checksum);
    result
}

#[test]
fn decodes_fragmented_frame_after_heartbeat() {
    let text = r#"{"id":"1","payload":"status_query"}"#;
    let expected: serde_json::Value = serde_json::from_str(text).unwrap();
    let data = frame(text, &binary_frame(0x003f, &[0; 9]));
    let mut decoder = FrameDecoder::new();
    assert!(decoder.feed(&data[..7]).is_empty());
    let decoded: Vec<_> = decoder
        .feed(&data[7..])
        .into_iter()
        .collect::<Result<_, _>>()
        .unwrap();
    assert_eq!(decoded.len(), 1);
    let document: serde_json::Value = serde_json::from_slice(&decoded[0].payload).unwrap();
    assert_eq!(document, expected);
    assert_eq!(decoded[0].fields.id.as_deref(), Some("1"));
}

#[test]
fn recovers_after_malformed_json_in_the_same_chunk() {
    let text = r#"{"id":"2","payload":"status_query"}"#;
    let expected: serde_json::Value = serde_json::from_str(text).unwrap();
    let mut malformed = vec![0xee, 0xdd, 0xff, 0xee];
    malformed.extend(1_u16.to_be_bytes());
    malformed.push(b'{');
    malformed.extend(frame(text, &[]));
    let decoded = FrameDecoder::new().feed(&malformed);
    assert_eq!(decoded.len(), 2);
    assert!(matches!(decoded[0], Err(Error::Json(_))));
    let response = decoded[1].as_ref().unwrap();
    let document: serde_json::Value = serde_json::from_slice(&response.payload).unwrap();
    assert_eq!(document, expected);
    assert_eq!(
        response.fields,
        ResponseFields { id: Some("2".to_owned()), code: None, message: None }
    );
}

#[test]
fn response_payloads_survive_any_split() {
    let mut wire = frame("{}", &[1, 2, 3]);
    wire.extend(frame(r#"{"a":1}"#, &[0xee]));
    let whole = FrameDecoder::new().feed_payloads(&wire);
    assert_eq!(whole, vec![b"{}".to_vec(), br#"{"a":1}"#.to_vec()]);
    for split in 0..=wire.len() {
        let mut decoder = FrameDecoder::new();
        let mut payloads = decoder.feed_payloads(&wire[..split]);
        payloads.extend(decoder.feed_payloads(&wire[split..]));
        assert_eq!(payloads, whole);
    }
}

#[test]
fn rejects_a_zero_connection_timeout() {
    let result = validate_config(&ClientConfig {
        host: "127.0.0.1".to_owned(),
        port: 9,
        connect_timeout_ms: 0,
        request_timeout_ms: 1000,
        verification_timeout_ms: 1000,
        verification_interval_ms: 50,
    });
    assert!(matches!(result, Err(Error::Io(error)) if error.kind == IoErrorKind::InvalidInput));
}

#[test]
fn default_configuration_is_valid() {
    let config = ClientConfig::new("speaker".to_owned());
    assert_eq!(config.port, 8080);
    assert_eq!(validate_config(&config), Ok(()));
    let mut slow = config.clone();
    slow.verification_interval_ms = 2000;
    assert!(validate_config(&slow).is_err());
}

fn current() -> S260Status {
    let mut r = report(18, Some(0), 30);
    r.input_index = Some(1);
    r.sound_effect = Some(SoundEffectReport { selected_index: Some(0), sound_index: Some(3) });
    S260Status::from_report(r).unwrap()
}

#[test]
fn commands_follow_the_reported_ranges() {
    let now = current();
    assert_eq!(
        source_command(&now, &Source::new("aux")),
        Ok(Command::SelectInput { input_index: 1, selected_index: 1 })
    );
    assert_eq!(volume_command(&now, 19), Ok(Command::SetVolume(19)));
    assert_eq!(
        volume_command(&now, 31),
        Err(Error::InvalidVolume { value: 31, min: 0, max: 30 })
    );
    assert_eq!(eq_preset_command(&now, 1), Ok(Command::SelectEqPreset(1)));
    assert_eq!(
        eq_preset_command(&now, 3),
        Err(Error::InvalidEqPreset { value: 3, preset_count: 3 })
    );
    let mut without_eq = now.clone();
    without_eq.equalizer = None;
    assert_eq!(eq_preset_command(&without_eq, 0), Err(Error::MissingField("soundEffect")));
    assert_eq!(playback_command(PlaybackAction::Pause), Command::SetPlayerStatus(0));
    assert_eq!(playback_command(PlaybackAction::Play), Command::SetPlayerStatus(1));
    assert_eq!(playback_command(PlaybackAction::Next), Command::Next);
}

fn fields(id: Option<&str>, code: Option<i64>, message: Option<&str>) -> ResponseFields {
    ResponseFields {
        id: id.map(str::to_owned),
        code,
        message: message.map(str::to_owned),
    }
}

#[test]
fn rejects_a_response_without_an_explicit_result_code() {
    assert!(matches!(
        check_response("7", &fields(Some("7"), None, Some("success"))),
        ResponseCheck::Failed(Error::Protocol(message)) if message.contains("code")
    ));
}

#[test]
fn rejected_errors_do_not_include_untrusted_response_fields() {
    assert_eq!(
        check_response("7", &fields(Some("7"), Some(7), Some("rejected"))),
        ResponseCheck::Failed(Error::Rejected { code: 7, message: "rejected".to_owned() })
    );
    assert_eq!(check_response("7", &fields(Some("8"), Some(0), Some("success"))), ResponseCheck::Unrelated);
    assert_eq!(check_response("7", &fields(Some("7"), Some(0), Some("success"))), ResponseCheck::Accepted);
    assert_eq!(
        check_response("7", &fields(Some("7"), Some(0), None)),
        ResponseCheck::Failed(Error::Protocol("response did not contain a message".to_owned()))
    );
}

#[test]
fn sanitizing_drops_control_characters_and_bounds_length() {
    assert_eq!(sanitize_message("bad\u{7}\nvalue\u{85}!"), "badvalue!");
    let long: String = "x".repeat(200);
    assert_eq!(sanitize_message(&long).len(), 160);
}

#[test]
fn a_batch_is_decided_by_its_first_answer() {
    let batch = vec![
        Err(Error::Json("bad".to_owned())),
        Ok(fields(Some("other"), Some(0), Some("success"))),
        Ok(fields(Some("9"), Some(0), Some("success"))),
    ];
    assert_eq!(judge_batch("9", batch), BatchOutcome::Accepted(2));
    let malformed = vec![Ok(fields(Some("other"), Some(0), Some("success"))), Err(Error::Json("bad".to_owned()))];
    assert_eq!(judge_batch("9", malformed), BatchOutcome::Failed(Error::Json("bad".to_owned())));
    assert_eq!(judge_batch("9", vec![]), BatchOutcome::KeepReading);
}

#[test]
fn request_ids_pad_the_sequence_number() {
    assert_eq!(request_id(1700000000123, 7), "1700000000123007");
    assert_eq!(request_id(5, 12345), "5345");
}

#[test]
fn volume_verification_retries_until_the_device_reports_the_target() {
    let mut verification = Verification::new(VerifyTarget::Volume(19), 1000, 1000).unwrap();
    assert!(matches!(verification.poll(1000, 5000), VerifyStep::Query(1000)));
    let stale = current();
    assert!(matches!(verification.query_returned(Ok(stale.clone()), 1010, 50), VerifyStep::Sleep(50)));
    assert!(matches!(verification.poll(1060, 5000), VerifyStep::Query(940)));
    let mut reached = stale;
    reached.volume = 19;
    assert!(matches!(
        verification.query_returned(Ok(reached), 1070, 50),
        VerifyStep::Done(Ok(status)) if status.volume == 19
    ));
}

#[test]
fn volume_verification_has_a_bounded_structured_failure() {
    let mut verification = Verification::new(VerifyTarget::Volume(19), 0, 120).unwrap();
    let _ = verification.poll(0, 2000);
    let _ = verification.query_returned(Ok(current()), 10, 20);
    let _ = verification.poll(30, 2000);
    let _ = verification.query_returned(Ok(current()), 40, 20);
    match verification.poll(130, 2000) {
        VerifyStep::Done(Err(Error::VerificationTimeout { field, expected, actual, attempts, elapsed_ms })) => {
            assert_eq!(field, "volume");
            assert_eq!(expected, "19");
            assert_eq!(actual, "18");
            assert_eq!(attempts, 2);
            assert_eq!(elapsed_ms, 130);
        }
        other => panic!("unexpected step {other:?}"),
    }
}

#[test]
fn event_machine_delivers_in_order_and_skips_heartbeats() {
    let mut machine = EventMachine::new(0);
    let mut wire = binary_frame(HEARTBEAT_COMMAND, &[0; 9]);
    wire.extend(binary_frame(0x0066, &[30, 18]));
    wire.extend(binary_frame(0x00d5, &[2]));
    assert_eq!(machine.bytes_received(&wire), Ok(()));
    assert!(matches!(
        machine.next_step(0, 100, 50),
        EventStep::Return(Ok(Some(DeviceEvent::Volume { current: 18, max: 30 })))
    ));
    assert!(matches!(
        machine.next_step(0, 100, 50),
        EventStep::Return(Ok(Some(DeviceEvent::Equalizer { preset: 2 })))
    ));
    assert!(matches!(machine.next_step(0, 100, 50), EventStep::Read(100)));
    assert!(matches!(machine.next_step(10, 1000, 50), EventStep::Read(500)));
    assert!(matches!(machine.next_step(100, 100, 50), EventStep::Return(Ok(None))));
}

#[test]
fn reconnect_backoff_waits_instead_of_busy_looping() {
    let mut machine = EventMachine::new(0);
    machine.connection_lost(1000, "speaker closed the connection".to_owned());
    assert!(matches!(machine.next_step(1000, 1300, 100), EventStep::Sleep(200)));
    assert!(matches!(machine.next_step(1200, 1300, 100), EventStep::Connect(100)));
    machine.connection_lost(1250, "refused".to_owned());
    assert!(matches!(machine.next_step(1260, 1300, 100), EventStep::Sleep(40)));
    assert!(matches!(
        machine.next_step(1300, 1300, 100),
        EventStep::Return(Err(Error::Reconnect(message))) if message == "refused"
    ));
    machine.connection_opened();
    assert!(matches!(machine.next_step(1400, 1500, 100), EventStep::Read(100)));
}

#[test]
fn backoff_doubles_up_to_its_bound() {
    let mut machine = EventMachine::new(0);
    let mut now = 0u64;
    let mut waits = Vec::new();
    for _ in 0..7 {
        machine.connection_lost(now, "down".to_owned());
        match machine.next_step(now, now + 100_000, 100) {
            EventStep::Sleep(wait) => waits.push(wait),
            _ => panic!("expected a backoff sleep"),
        }
        now += 100_000;
    }
    assert_eq!(waits, vec![200, 400, 800, 1600, 3200, 5000, 5000]);
}

#[test]
fn event_waits_must_be_positive_and_bounded() {
    assert_eq!(EventMachine::deadline(10, 5), Ok(15));
    assert!(matches!(EventMachine::deadline(10, 0), Err(Error::Protocol(m)) if m.contains("greater than zero")));
    assert!(matches!(EventMachine::deadline(u64::MAX, 1), Err(Error::Protocol(m)) if m.contains("too large")));
}

#[test]
fn a_bad_volume_event_stops_the_batch() {
    let mut machine = EventMachine::new(0);
    let mut wire = binary_frame(0x00d5, &[1]);
    wire.extend(binary_frame(0x0066, &[30, 31]));
    assert!(matches!(machine.bytes_received(&wire), Err(Error::Protocol(_))));
    assert!(matches!(
        machine.next_step(0, 10, 10),
        EventStep::Return(Ok(Some(DeviceEvent::Equalizer { preset: 1 })))
    ));
}

#[test]
fn driver_errors_map_to_device_errors() {
    assert_eq!(
        Error::MissingField("soundEffect").into_device_error(),
        CoreError::Protocol { message: "missing field soundEffect".to_owned() }
    );
    assert_eq!(
        Error::InvalidSource(9).into_device_error(),
        CoreError::Protocol { message: "invalid source index 9".to_owned() }
    );
    assert_eq!(
        Error::UnsupportedSource("Line-In".to_owned()).into_device_error(),
        CoreError::UnsupportedSource(Source::new("aux"))
    );
    assert_eq!(
        Error::Reconnect("down".to_owned()).into_device_error(),
        CoreError::Network { operation: "event stream reconnect", message: "down".to_owned() }
    );
    let _ = Equalizer { preset: 0, preset_count: 1 };
}

fn status_with_source(index: u64) -> S260Status {
    let mut r = report(18, Some(0), 30);
    r.selected_index = index;
    r.input_index = Some(1);
    r.sound_effect = Some(SoundEffectReport { selected_index: Some(0), sound_index: Some(3) });
    S260Status::from_report(r).unwrap()
}

#[test]
fn status_and_source_change_are_verified_end_to_end() {
    let current = status_with_source(2);
    assert_eq!(current.clone().to_device_status().source, Some(Source::new(Source::USB)));
    assert_eq!(
        source_command(&current, &Source::new(Source::AUX)),
        Ok(Command::SelectInput { input_index: 1, selected_index: 1 })
    );
    let mut verification =
        Verification::new(VerifyTarget::Source(Source::new(Source::AUX)), 0, 1000).unwrap();
    assert!(matches!(verification.poll(0, 2000), VerifyStep::Query(1000)));
    match verification.query_returned(Ok(status_with_source(1)), 5, 50) {
        VerifyStep::Done(Ok(status)) => {
            assert_eq!(status.to_device_status().source, Some(Source::new(Source::AUX)));
        }
        other => panic!("unexpected step {other:?}"),
    }
}

#[test]
fn eq_and_playback_commands_use_verified_json_fields() {
    let current = status_with_source(2);
    assert_eq!(eq_preset_command(&current, 1), Ok(Command::SelectEqPreset(1)));
    let mut verification = Verification::new(VerifyTarget::Equalizer(1), 0, 1000).unwrap();
    let _ = verification.poll(0, 2000);
    let mut updated = current.clone();
    updated.equalizer = Some(Equalizer { preset: 1, preset_count: 3 });
    match verification.query_returned(Ok(updated), 5, 50) {
        VerifyStep::Done(Ok(status)) => {
            assert_eq!(status.to_device_status().equalizer.unwrap().preset, 1);
        }
        other => panic!("unexpected step {other:?}"),
    }
    assert_eq!(playback_command(PlaybackAction::Pause), Command::SetPlayerStatus(0));
    assert_eq!(
        request_message("7", Command::SelectEqPreset(1)),
        br#"{"id":"7","payload":"settings","soundEffect":{"selectedIndex":1}}"#.to_vec()
    );
    assert_eq!(
        request_message("7", playback_command(PlaybackAction::Pause)),
        br#"{"id":"7","payload":"settings","player":{"playerStatus":0}}"#.to_vec()
    );
}

#[test]
fn event_stream_ignores_heartbeat_and_decodes_volume() {
    let mut machine = EventMachine::new(0);
    let mut bytes = binary_frame(0x003f, &[0; 9]);
    bytes.extend(binary_frame(0x0066, &[30, 18]));
    machine.bytes_received(&bytes).unwrap();
    assert!(matches!(
        machine.next_step(0, 2000, 100),
        EventStep::Return(Ok(Some(DeviceEvent::Volume { current: 18, max: 30 })))
    ));
}

#[test]
fn event_stream_reconnects_after_the_speaker_closes_the_socket() {
    let mut machine = EventMachine::new(0);
    machine.bytes_received(&binary_frame(0x003f, &[0; 9])).unwrap();
    assert!(matches!(machine.next_step(10, 3000, 100), EventStep::Read(500)));
    machine.connection_lost(20, "speaker closed the connection".to_owned());
    assert!(matches!(machine.next_step(20, 3000, 100), EventStep::Sleep(200)));
    assert!(matches!(machine.next_step(220, 3000, 100), EventStep::Connect(100)));
    machine.connection_opened();
    assert!(matches!(machine.next_step(230, 3000, 100), EventStep::Read(500)));
    machine.bytes_received(&binary_frame(0x0066, &[30, 12])).unwrap();
    assert!(matches!(
        machine.next_step(240, 3000, 100),
        EventStep::Return(Ok(Some(DeviceEvent::Volume { current: 12, max: 30 })))
    ));
}

#[test]
fn requests_are_the_documented_compact_json() {
    assert_eq!(
        request_message("17", Command::StatusQuery),
        br#"{"id":"17","payload":"status_query"}"#.to_vec()
    );
    assert_eq!(
        request_message("17", Command::SelectInput { input_index: 1, selected_index: 2 }),
        br#"{"id":"17","payload":"settings","inputSource":{"inputIndex":1,"selectedIndex":2}}"#
            .to_vec()
    );
    assert_eq!(
        request_message("17", Command::SetVolume(18)),
        br#"{"id":"17","payload":"settings","player":{"volume":18}}"#.to_vec()
    );
    assert_eq!(
        request_message("17", Command::SetPlayerStatus(1)),
        br#"{"id":"17","payload":"settings","player":{"playerStatus":1}}"#.to_vec()
    );
    assert_eq!(
        request_message("17", Command::Next),
        br#"{"id":"17","payload":"settings","player":{"next":1}}"#.to_vec()
    );
    assert_eq!(
        request_message("17", Command::Previous),
        br#"{"id":"17","payload":"settings","player":{"previous":1}}"#.to_vec()
    );
}

#[test]
fn request_ids_are_escaped_as_serde_json_does() {
    let id = "a\"b\\c\n\u{1}\u{7f}é";
    let message = request_message(id, Command::StatusQuery);
    let text = String::from_utf8(message.clone()).unwrap();
    assert_eq!(text, "{\"id\":\"a\\\"b\\\\c\\n\\u0001\u{7f}é\",\"payload\":\"status_query\"}");
    let expected = serde_json::to_vec(&serde_json::Value::String(id.to_owned())).unwrap();
    assert!(message.windows(expected.len()).any(|w| w == expected.as_slice()));
    let parsed: serde_json::Value = serde_json::from_slice(&message).unwrap();
    assert_eq!(parsed["id"].as_str(), Some(id));
}

#[test]
fn a_request_waits_in_read_slices_until_its_deadline() {
    let wait = RequestWait::new(1_000, 1_200).unwrap();
    assert_eq!(wait.next_read(1_000, "9"), Ok(500));
    assert_eq!(wait.next_read(1_900, "9"), Ok(300));
    assert_eq!(
        wait.next_read(2_200, "9"),
        Err(Error::Protocol("speaker did not answer request 9 within 1.2s".to_owned()))
    );
    let wait = RequestWait::new(0, 5_000).unwrap();
    assert_eq!(
        wait.next_read(5_000, "x"),
        Err(Error::Protocol("speaker did not answer request x within 5s".to_owned()))
    );
    let wait = RequestWait::new(0, 250).unwrap();
    assert_eq!(
        wait.next_read(300, "x"),
        Err(Error::Protocol("speaker did not answer request x within 250ms".to_owned()))
    );
    assert_eq!(
        RequestWait::new(u64::MAX, 1),
        Err(Error::Protocol("request timeout is too large".to_owned()))
    );
    assert_eq!(RequestWait::closed(), Error::Protocol("speaker closed the connection".to_owned()));
}

#[test]
fn responses_carry_the_fields_their_payload_holds() {
    let data = frame(r#"{"id":"5","code":3,"message":"busy","extra":[1]}"#, &[]);
    let decoded = FrameDecoder::new().feed(&data);
    assert_eq!(
        decoded[0].as_ref().unwrap().fields,
        ResponseFields { id: Some("5".to_owned()), code: Some(3), message: Some("busy".to_owned()) }
    );
    let data = frame(r#"{"id":5,"code":"0","message":null}"#, &[]);
    let decoded = FrameDecoder::new().feed(&data);
    assert_eq!(
        decoded[0].as_ref().unwrap().fields,
        ResponseFields { id: None, code: None, message: None }
    );
    let data = frame("[1,2]", &[]);
    assert_eq!(
        FrameDecoder::new().feed(&data)[0].as_ref().unwrap().fields,
        ResponseFields { id: None, code: None, message: None }
    );
}

#[test]
fn every_payload_handed_out_was_framed_in_the_input() {
    let mut fed = binary_frame(0x003f, &[0; 9]);
    fed.extend([0xee, 0xdd]);
    fed.extend(frame(r#"{"id":"3","code":0,"message":"success"}"#, &[0x00]));
    fed.extend(frame("{}", &[]));
    fed.extend([0xee, 0xdd, 0xff]);
    let mut decoder = FrameDecoder::new();
    let mut payloads = Vec::new();
    for chunk in fed.chunks(5) {
        payloads.extend(decoder.feed_payloads(chunk));
    }
    assert_eq!(payloads.len(), 2);
    for payload in &payloads {
        let run = frame(std::str::from_utf8(payload).unwrap(), &[]);
        assert!(fed.windows(run.len()).any(|window| window == run.as_slice()));
    }
}
