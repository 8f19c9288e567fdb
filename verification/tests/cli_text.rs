use open_edifier::cli::{event_line, explicit_model, hex, select_device, status_line};
use open_edifier::device::{
    DeviceCapabilities, DeviceEvent, DeviceStatus, DiscoveredDevice, Error, IpAddress, ModelId,
    PlaybackState, Source, Volume,
};
use open_edifier::facade::{preferred_host, retain_supported, s260_config};

fn device(id: &str, name: &str, model: &str) -> DiscoveredDevice {
    DiscoveredDevice {
        id: id.to_owned(),
        name: name.to_owned(),
        model: ModelId::new(model),
        host: format!("{id}.local"),
        addresses: vec![IpAddress::V4([127, 0, 0, 1])],
    }
}

#[test]
fn formats_typed_events_for_humans() {
    assert_eq!(
        event_line(&DeviceEvent::Source {
            source: Source::new(Source::USB),
        }),
        "source=usb"
    );
}

#[test]
fn formats_every_event_kind() {
    assert_eq!(event_line(&DeviceEvent::Volume { current: 18, max: 30 }), "volume=18/30");
    assert_eq!(event_line(&DeviceEvent::Equalizer { preset: 2 }), "eq=2");
    assert_eq!(
        event_line(&DeviceEvent::Playback { state: PlaybackState::new("paused") }),
        "playback=paused"
    );
    assert_eq!(
        event_line(&DeviceEvent::TrackInfo { payload: vec![0x0a, 0xff] }),
        "track_info=0aff"
    );
    assert_eq!(
        event_line(&DeviceEvent::Unknown { command: 0x00d5, payload: vec![1, 2] }),
        "event=0x00d5 payload=0102"
    );
    assert_eq!(hex(&[]), "");
}

#[test]
fn selection_requires_a_selector_when_multiple_devices_exist() {
    let devices = vec![device("one", "Office", "s260"), device("two", "Studio", "s260")];
    assert!(select_device(&devices, None).is_err());
    assert_eq!(select_device(&devices, Some("Studio")).unwrap().id, "two");
    assert_eq!(
        select_device(&devices, None),
        Err(Error::AmbiguousDevice {
            candidates: vec!["Office (one)".to_owned(), "Studio (two)".to_owned()]
        })
    );
}

#[test]
fn automatic_selection_ignores_devices_without_a_driver() {
    let devices = vec![device("one", "Office", "s260"), device("two", "Unknown", "edf999999")];
    assert_eq!(select_device(&devices, None).unwrap().id, "one");
    assert_eq!(select_device(&devices, Some("TWO.LOCAL")).unwrap().id, "two");
    assert_eq!(select_device(&devices, Some("three")), Err(Error::DeviceNotFound));
    assert_eq!(select_device(&[][..].to_vec(), None), Err(Error::DeviceNotFound));
}

#[test]
fn facade_keeps_supported_devices_and_prefers_ipv4() {
    let kept = retain_supported(vec![device("one", "A", "s260"), device("two", "B", "x1")]);
    assert_eq!(kept.len(), 1);
    assert_eq!(kept[0].id, "one");
    let mut d = device("three", "C", "s260");
    d.addresses = vec![IpAddress::V6([0, 0, 0, 0, 0, 0, 0, 1]), IpAddress::V4([192, 168, 0, 7])];
    assert_eq!(preferred_host(&d), "192.168.0.7");
    d.addresses = vec![IpAddress::V6([0, 0, 0, 0, 0, 0, 0, 1])];
    assert_eq!(preferred_host(&d), "three.local");
    let config = s260_config("h".to_owned(), 8081, 1500);
    assert_eq!((config.port, config.connect_timeout_ms, config.request_timeout_ms), (8081, 1500, 1500));
}

#[test]
fn explicit_model_is_required_with_a_host() {
    assert_eq!(explicit_model(Some("S260")).unwrap().as_str(), "s260");
    assert!(matches!(explicit_model(None), Err(Error::Protocol { message }) if message.contains("--model")));
}

#[test]
fn status_line_shows_every_field() {
    let status = DeviceStatus {
        name: "EDIFIER S260".to_owned(),
        model: ModelId::new("s260"),
        firmware: "01.00.00".to_owned(),
        source: Some(Source::new("usb")),
        volume: Some(Volume { current: 18, min: 0, max: 30 }),
        equalizer: None,
        playback: None,
        capabilities: DeviceCapabilities {
            sources: vec![],
            volume: true,
            equalizer: false,
            playback: false,
            events: false,
        },
    };
    assert_eq!(
        status_line(&status),
        "EDIFIER S260 | model=s260 | source=usb | volume=18/30 | eq=n/a | playback=unknown | firmware=01.00.00"
    );
}

