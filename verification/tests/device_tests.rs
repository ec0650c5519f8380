use strom::device::{
    discover, enumeration_property_names, event_property_names, get_provider_name, select_properties,
    DeviceCategory, DeviceDiscovery, DeviceInfo, DeviceRegistry, DiscoveredDevice, StartDecision,
};
use strom::property::StrMap;

fn string_map(pairs: &[(&str, &str)]) -> StrMap<String> {
    let mut m = StrMap::new();
    for (k, v) in pairs {
        m.insert(k.to_string(), v.to_string());
    }
    m
}

fn device(id: &str, provider: &str, props: &[(&str, &str)], first: u64, last: u64) -> DiscoveredDevice {
    DiscoveredDevice {
        id: id.to_string(),
        name: "Device".to_string(),
        device_class: "Audio/Source".to_string(),
        category: DeviceCategory::AudioSource,
        provider: provider.to_string(),
        properties: string_map(props),
        first_seen: first,
        last_seen: last,
    }
}

#[test]
fn test_device_category_from_class() {
    assert_eq!(
        DeviceCategory::from_device_class("Audio/Source"),
        DeviceCategory::AudioSource
    );
    assert_eq!(
        DeviceCategory::from_device_class("Audio/Sink"),
        DeviceCategory::AudioSink
    );
    assert_eq!(
        DeviceCategory::from_device_class("Video/Source"),
        DeviceCategory::VideoSource
    );
    assert_eq!(
        DeviceCategory::from_device_class("Source/Network"),
        DeviceCategory::NetworkSource
    );
    assert_eq!(
        DeviceCategory::from_device_class("Unknown/Class"),
        DeviceCategory::Other
    );
}

#[test]
fn test_device_generate_id() {
    let id1 = DiscoveredDevice::generate_id("Audio/Source", "pulsedeviceprovider", "Mic 1");
    let id2 = DiscoveredDevice::generate_id("Audio/Source", "pulsedeviceprovider", "Mic 1");
    let id3 = DiscoveredDevice::generate_id("Audio/Source", "pulsedeviceprovider", "Mic 2");

    // Same inputs should produce same ID
    assert_eq!(id1, id2);
    // Different name should produce different ID
    assert_ne!(id1, id3);
    // ID should start with "dev-"
    assert!(id1.starts_with("dev-"));
}

#[test]
fn device_id_is_sixteen_hex_digits() {
    let id = DiscoveredDevice::generate_id("Video/Source", "v4l2deviceprovider", "Camera");
    assert_eq!(id.len(), 20);
    assert!(id[4..].chars().all(|c| c.is_ascii_hexdigit() && !c.is_ascii_uppercase()));
}

#[test]
fn device_id_depends_on_class_and_provider() {
    let a = DiscoveredDevice::generate_id("Audio/Source", "pulsedeviceprovider", "Mic");
    let b = DiscoveredDevice::generate_id("Audio/Sink", "pulsedeviceprovider", "Mic");
    let c = DiscoveredDevice::generate_id("Audio/Source", "alsadeviceprovider", "Mic");
    assert_ne!(a, b);
    assert_ne!(a, c);
}

#[test]
fn category_filter_round_trip() {
    for c in [
        DeviceCategory::AudioSource,
        DeviceCategory::AudioSink,
        DeviceCategory::VideoSource,
        DeviceCategory::NetworkSource,
    ] {
        let f = c.to_filter_string().expect("a filter");
        assert_eq!(DeviceCategory::from_device_class(f), c);
    }
    assert_eq!(DeviceCategory::Other.to_filter_string(), None);
    assert_eq!(DeviceCategory::AudioSource.to_filter_string(), Some("Audio/Source"));
    assert_eq!(DeviceCategory::NetworkSource.to_filter_string(), Some("Source/Network"));
}

#[test]
fn api_response_reports_ages_in_seconds() {
    let d = device("dev-1", "pulsedeviceprovider", &[("device.api", "pulse")], 1_000, 5_500);
    let r = d.to_api_response(10_000);
    assert_eq!(r.first_seen_secs_ago, 9);
    assert_eq!(r.last_seen_secs_ago, 4);
    assert_eq!(r.id, "dev-1");
    assert_eq!(r.provider, "pulsedeviceprovider");
    assert_eq!(r.category, DeviceCategory::AudioSource);
    assert_eq!(r.properties.get("device.api"), Some(&"pulse".to_string()));
    // A clock reading before the first sighting counts as no time at all.
    let r = d.to_api_response(500);
    assert_eq!(r.first_seen_secs_ago, 0);
    assert_eq!(r.last_seen_secs_ago, 0);
}

#[test]
fn ndi_devices_are_recognised() {
    assert!(device("a", "ndideviceprovider", &[], 0, 0).is_ndi());
    assert!(device("b", "pulsedeviceprovider", &[("ndi-name", "CAM (1)")], 0, 0).is_ndi());
    assert!(!device("c", "pulsedeviceprovider", &[], 0, 0).is_ndi());
}

#[test]
fn provider_name_from_api_property_is_lower_cased() {
    let props = Some(string_map(&[("device.api", "ALSA")]));
    assert_eq!(get_provider_name(&props, "Audio/Source"), "alsaprovider");
    let props = Some(string_map(&[("device.api", "v4l2")]));
    assert_eq!(get_provider_name(&props, "Unknown"), "v4l2provider");
}

#[test]
fn provider_name_fallbacks() {
    let ndi = Some(string_map(&[("ndi-name", "X")]));
    assert_eq!(get_provider_name(&ndi, "Video/Source"), "ndideviceprovider");
    assert_eq!(get_provider_name(&None, "Audio/Source"), "pulsedeviceprovider");
    assert_eq!(get_provider_name(&None, "Audio/Sink"), "pulsedeviceprovider");
    assert_eq!(get_provider_name(&None, "Video/Source"), "v4l2deviceprovider");
    assert_eq!(get_provider_name(&Some(StrMap::new()), "Source/Network"), "unknown");
}

#[test]
fn property_selection_keeps_listed_names_only() {
    let all = string_map(&[("device.api", "alsa"), ("secret", "x"), ("ip", "10.0.0.1")]);
    let kept = select_properties(&all, &event_property_names());
    assert_eq!(kept.len(), 2);
    assert_eq!(kept.get("device.api"), Some(&"alsa".to_string()));
    assert_eq!(kept.get("ip"), Some(&"10.0.0.1".to_string()));
    assert!(!kept.contains_key("secret"));
    assert_eq!(enumeration_property_names().len(), 21);
    assert_eq!(event_property_names()[0], "device.api");
}

#[test]
fn discovered_device_takes_identity_from_class_provider_and_name() {
    let info = DeviceInfo {
        display_name: "USB Mic".to_string(),
        device_class: "Audio/Source".to_string(),
        properties: Some(string_map(&[("device.api", "alsa"), ("other", "y")])),
    };
    let d = discover(&info, &enumeration_property_names(), 42);
    assert_eq!(d.provider, "alsaprovider");
    assert_eq!(d.id, DiscoveredDevice::generate_id("Audio/Source", "alsaprovider", "USB Mic"));
    assert_eq!(d.category, DeviceCategory::AudioSource);
    assert_eq!(d.first_seen, 42);
    assert_eq!(d.last_seen, 42);
    assert!(d.properties.contains_key("device.api"));
    assert!(!d.properties.contains_key("other"));
}

#[test]
fn registry_records_updates_and_removes() {
    let mut reg = DeviceRegistry::new();
    assert!(reg.record(device("dev-a", "p", &[], 10, 10), 10));
    assert!(reg.record(device("dev-b", "p", &[], 20, 20), 20));
    // Seeing a known device again only moves its last sighting.
    assert!(!reg.record(device("dev-a", "q", &[], 99, 99), 30));
    assert_eq!(reg.len(), 2);
    let a = reg.get("dev-a").expect("known");
    assert_eq!(a.first_seen, 10);
    assert_eq!(a.last_seen, 30);
    assert_eq!(a.provider, "p");
    assert!(reg.remove("dev-a"));
    assert!(!reg.remove("dev-a"));
    assert!(reg.get("dev-a").is_none());
    assert_eq!(reg.get_devices().len(), 1);
}

#[test]
fn registry_filters_by_category_and_ndi() {
    let mut reg = DeviceRegistry::new();
    let mut cam = device("dev-cam", "ndideviceprovider", &[], 0, 0);
    cam.category = DeviceCategory::VideoSource;
    reg.record(cam, 0);
    reg.record(device("dev-mic", "pulsedeviceprovider", &[], 0, 0), 0);
    let video = reg.get_devices_by_category(DeviceCategory::VideoSource);
    assert_eq!(video.len(), 1);
    assert_eq!(video[0].id, "dev-cam");
    let ndi = reg.get_ndi_devices();
    assert_eq!(ndi.len(), 1);
    assert_eq!(ndi[0].id, "dev-cam");
    reg.clear();
    assert_eq!(reg.len(), 0);
}

#[test]
fn discovery_start_and_stop() {
    let mut d = DeviceDiscovery::new();
    assert!(!d.is_running());
    assert_eq!(d.start_decision(), StartDecision::StartMonitor);
    let initial = vec![DeviceInfo {
        display_name: "Cam".to_string(),
        device_class: "Video/Source".to_string(),
        properties: None,
    }];
    d.finish_start(&initial, 5);
    assert!(d.is_running());
    assert_eq!(d.start_decision(), StartDecision::AlreadyRunning);
    let id = DiscoveredDevice::generate_id("Video/Source", "v4l2deviceprovider", "Cam");
    assert!(d.get_device(&id).is_some());
    assert!(d.device_removed(&initial[0]));
    assert!(d.get_device(&id).is_none());
    d.stop();
    assert!(!d.is_running());
}

#[test]
fn refresh_records_only_while_running() {
    let info = DeviceInfo {
        display_name: "NDI Cam".to_string(),
        device_class: "Source/Network".to_string(),
        properties: Some(string_map(&[("ndi-name", "HOST (Cam)")])),
    };
    let id = DiscoveredDevice::generate_id("Source/Network", "ndideviceprovider", "NDI Cam");
    let mut d = DeviceDiscovery::new();
    d.refresh(&vec![DeviceInfo { display_name: info.display_name.clone(), device_class: info.device_class.clone(), properties: None }], 1);
    assert!(d.get_devices().is_empty());
    d.finish_start(&vec![], 1);
    d.refresh(&vec![info], 2);
    let dev = d.get_device(&id).expect("recorded");
    assert!(dev.is_ndi());
    assert_eq!(d.get_ndi_devices().len(), 1);
    assert_eq!(DeviceDiscovery::monitor_filters(), vec!["Source/Network"]);
}

#[test]
fn event_devices_keep_fewer_properties() {
    let info = DeviceInfo {
        display_name: "Mic".to_string(),
        device_class: "Audio/Source".to_string(),
        properties: Some(string_map(&[("device.api", "pulse"), ("device.serial", "123")])),
    };
    let mut d = DeviceDiscovery::new();
    d.finish_start(&vec![], 0);
    d.device_added_event(&info, 7);
    let id = DiscoveredDevice::generate_id("Audio/Source", "pulseprovider", "Mic");
    let dev = d.get_device(&id).expect("recorded");
    assert!(dev.properties.contains_key("device.api"));
    assert!(!dev.properties.contains_key("device.serial"));
    // Seen again later: only the last sighting moves.
    d.device_added_event(&info, 9);
    let dev = d.get_device(&id).unwrap();
    assert_eq!((dev.first_seen, dev.last_seen), (7, 9));
}
