use open_edifier::bridge::error_kind;
use open_edifier::device::{ModelId, PlaybackState, Source};
use open_edifier::device::Error as CoreError;
use open_edifier::discovery::{
    classify, classify_model, collect_devices, ServiceRecord, S260_AIRPLAY_MODEL,
};
use open_edifier::device::{DiscoveredDevice, IpAddress, MODEL_S260};
use open_edifier::facade::{driver_port, supports_model};

#[test]
fn source_aliases_are_canonical() {
    assert_eq!(Source::new("BT").as_str(), Source::BLUETOOTH);
    assert_eq!(Source::new("air-play2").as_str(), Source::AIRPLAY);
    assert_eq!(Source::new("optical").as_str(), "optical");
}

#[test]
fn source_aliases_cover_line_in_usb_and_case() {
    assert_eq!(Source::new("Line_In").as_str(), Source::AUX);
    assert_eq!(Source::new("USB").as_str(), Source::USB);
    assert_eq!(Source::new("BlueTooth").as_str(), Source::BLUETOOTH);
    assert_eq!(Source::new("Optical-In").as_str(), "optical-in");
}

#[test]
fn normalizing_a_source_twice_changes_nothing() {
    for raw in ["BT", "air-play2", "Optical-In", "line_in", "", "USB"] {
        let once = Source::new(raw);
        assert_eq!(Source::new(once.as_str()), once);
    }
}

#[test]
fn model_and_playback_identifiers_are_lower_case() {
    assert_eq!(ModelId::new("S260").as_str(), "s260");
    assert_eq!(PlaybackState::new("Playing").as_str(), PlaybackState::PLAYING);
}

#[test]
fn recognizes_s260_after_user_renames_airplay_service() {
    assert_eq!(
        classify_model("Living Room", S260_AIRPLAY_MODEL).as_str(),
        MODEL_S260
    );
}

#[test]
fn preserves_unknown_advertised_model() {
    assert_eq!(
        classify_model("EDIFIER Studio", "EDF999999").as_str(),
        "edf999999"
    );
}

#[test]
fn the_instance_name_never_selects_the_driver() {
    assert_eq!(classify_model("Kitchen S260", "EDF999999").as_str(), "edf999999");
    assert_eq!(classify_model("Speaker", "edf100122").as_str(), "s260");
}

fn record(fullname: &str, manufacturer: Option<&str>) -> ServiceRecord {
    ServiceRecord {
        fullname: fullname.to_owned(),
        hostname: "speaker.local.".to_owned(),
        manufacturer: manufacturer.map(str::to_owned),
        model: Some("EDF100122".to_owned()),
        device_id: Some(String::new()),
        addresses: vec![
            IpAddress::V6([0xfe80, 0, 0, 0, 0, 0, 0, 1]),
            IpAddress::V4([192, 168, 1, 20]),
            IpAddress::V4([10, 0, 0, 5]),
        ],
    }
}

#[test]
fn classifies_an_edifier_airplay_record() {
    let device = classify(record("Living Room._airplay._tcp.local.", Some("EDIFIER"))).unwrap();
    assert_eq!(device.name, "Living Room");
    assert_eq!(device.model.as_str(), "s260");
    assert_eq!(device.id, "speaker.local.");
    assert_eq!(device.host, "speaker.local");
    assert_eq!(
        device.addresses,
        vec![
            IpAddress::V4([10, 0, 0, 5]),
            IpAddress::V4([192, 168, 1, 20]),
            IpAddress::V6([0xfe80, 0, 0, 0, 0, 0, 0, 1]),
        ]
    );
}

#[test]
fn ignores_records_of_other_manufacturers() {
    assert!(classify(record("Kitchen._airplay._tcp.local.", Some("Acme"))).is_none());
    assert!(classify(record("Edifier Kitchen._airplay._tcp.local.", None)).is_some());
}

#[test]
fn model_dispatch_distinguishes_supported_and_unknown_models() {
    assert!(supports_model(&ModelId::new(open_edifier::s260::MODEL_ID)));
    assert!(!supports_model(&ModelId::new("unknown")));
}

#[test]
fn driver_port_defaults_to_the_verified_port() {
    assert_eq!(driver_port(&ModelId::new("s260"), None), Ok(8080));
    assert_eq!(driver_port(&ModelId::new("S260"), Some(9000)), Ok(9000));
    assert_eq!(
        driver_port(&ModelId::new("edf999999"), None),
        Err(CoreError::UnsupportedModel(ModelId::new("edf999999")))
    );
}

#[test]
fn ffi_preserves_structured_verification_context() {
    let error = CoreError::VerificationTimeout {
        field: "volume",
        expected: "19".into(),
        actual: "18".into(),
        attempts: 3,
        elapsed_ms: 100,
    };
    assert_eq!(error_kind(&error), "verification_timeout");
    match error {
        CoreError::VerificationTimeout { field, attempts, .. } => {
            assert_eq!(field, "volume");
            assert_eq!(attempts, 3);
        }
        _ => unreachable!(),
    }
}

#[test]
fn every_error_has_a_stable_kind() {
    assert_eq!(error_kind(&CoreError::DeviceNotFound), "device_not_found");
    assert_eq!(
        error_kind(&CoreError::InvalidEqPreset { value: 3, preset_count: 3 }),
        "invalid_equalizer"
    );
    assert_eq!(error_kind(&CoreError::UnsupportedCapability("playback")), "unsupported_capability");
}

fn candidate(id: &str, name: &str) -> DiscoveredDevice {
    DiscoveredDevice {
        id: id.to_owned(),
        name: name.to_owned(),
        model: ModelId::new("s260"),
        host: "speaker.local".to_owned(),
        addresses: Vec::new(),
    }
}

#[test]
fn discovery_reports_each_identifier_once_sorted_by_name() {
    let devices = collect_devices(vec![
        candidate("b", "Studio"),
        candidate("a", "Office"),
        candidate("b", "Attic"),
        candidate("c", "Kitchen"),
        candidate("a", "Den"),
    ]);
    let ids: Vec<&str> = devices.iter().map(|d| d.id.as_str()).collect();
    let names: Vec<&str> = devices.iter().map(|d| d.name.as_str()).collect();
    assert_eq!(ids, vec!["c", "a", "b"]);
    assert_eq!(names, vec!["Kitchen", "Office", "Studio"]);
}
