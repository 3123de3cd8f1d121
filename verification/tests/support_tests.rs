use loopmix::config::AppConfig;
use loopmix::devices::{default_device_name, label_devices};
use loopmix::engine::UNITY_GAIN;
use loopmix::rate::{negotiate, ConfigRange, DeviceCaps, StreamParams};

#[test]
fn negotiation_picks_first_containing_range() {
    let caps = DeviceCaps {
        supported: vec![
            ConfigRange { channels: 1, min_rate: 8000, max_rate: 16000 },
            ConfigRange { channels: 2, min_rate: 44100, max_rate: 96000 },
            ConfigRange { channels: 6, min_rate: 44100, max_rate: 192000 },
        ],
        fallback: StreamParams { channels: 2, sample_rate: 44100 },
    };
    let p = negotiate(&caps, 48000);
    assert_eq!(p.channels, 2);
    assert_eq!(p.sample_rate, 48000);
}

#[test]
fn negotiation_falls_back_when_nothing_matches() {
    let caps = DeviceCaps {
        supported: vec![ConfigRange { channels: 2, min_rate: 44100, max_rate: 44100 }],
        fallback: StreamParams { channels: 2, sample_rate: 44100 },
    };
    let p = negotiate(&caps, 48000);
    assert_eq!(p, caps.fallback);
}

#[test]
fn negotiation_with_no_ranges_falls_back() {
    let caps = DeviceCaps {
        supported: vec![],
        fallback: StreamParams { channels: 2, sample_rate: 22050 },
    };
    assert_eq!(negotiate(&caps, 48000), caps.fallback);
}

#[test]
fn negotiation_accepts_range_edges() {
    let caps = DeviceCaps {
        supported: vec![ConfigRange { channels: 2, min_rate: 44100, max_rate: 48000 }],
        fallback: StreamParams { channels: 2, sample_rate: 96000 },
    };
    assert_eq!(negotiate(&caps, 44100).sample_rate, 44100);
    assert_eq!(negotiate(&caps, 48000).sample_rate, 48000);
    assert_eq!(negotiate(&caps, 44099), caps.fallback);
    assert_eq!(negotiate(&caps, 48001), caps.fallback);
}

#[test]
fn device_labels_follow_enumeration_order() {
    let names = vec![String::from("Speakers"), String::from("Headphones")];
    let devices = label_devices(names);
    assert_eq!(devices.len(), 2);
    assert_eq!(devices[0].name, "Speakers");
    assert_eq!(devices[0].index, 0);
    assert_eq!(devices[1].name, "Headphones");
    assert_eq!(devices[1].index, 1);
}

#[test]
fn missing_default_device_reports_sentinel() {
    assert_eq!(default_device_name(Some(String::from("Monitor"))), "Monitor");
    assert_eq!(default_device_name(None), "Unknown");
}

#[test]
fn default_config_is_unity_and_empty() {
    let c = AppConfig::default_config();
    assert_eq!(c.input_volume, UNITY_GAIN);
    assert_eq!(f32::from_bits(c.input_volume), 1.0);
    assert!(!c.input_muted);
    assert!(c.outputs.is_empty());
}
