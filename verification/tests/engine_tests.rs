use loopmix::channel::TransferChannel;
use loopmix::engine::{AudioActor, CHANNEL_CAPACITY, SILENCE, UNITY_GAIN};
use loopmix::rate::{ConfigRange, DeviceCaps, StreamParams};

fn caps(channels: u16, min_rate: u32, max_rate: u32, fallback_rate: u32) -> DeviceCaps {
    DeviceCaps {
        supported: vec![ConfigRange { channels, min_rate, max_rate }],
        fallback: StreamParams { channels, sample_rate: fallback_rate },
    }
}

fn scale(sample_bits: u32, gain_bits: u32) -> f32 {
    f32::from_bits(sample_bits) * f32::from_bits(gain_bits)
}

#[test]
fn test_ring_buffer_transfer() {
    let mut channel = TransferChannel::new(100);
    let _ = channel.try_push(0.5f32.to_bits());
    assert_eq!(channel.pop().unwrap(), 0.5f32.to_bits());
}

#[test]
fn test_volume_application_logic() {
    let volume = 0.5f32;
    let input_sample = 1.0f32;
    let mut actor = AudioActor::new();
    actor.add_output(String::from("deck"), Some(&caps(2, 44100, 48000, 44100)));
    actor.set_volume(String::from("deck"), volume.to_bits());
    actor.fan_out(&vec![input_sample.to_bits()]);
    let (gain, slots) = actor.render(&String::from("deck"), 1).unwrap();
    let output_sample = scale(slots[0], gain);
    assert_eq!(output_sample, 0.5);
}

#[test]
fn channel_is_first_in_first_out() {
    let mut channel = TransferChannel::new(8);
    assert!(channel.try_push(1));
    assert!(channel.try_push(2));
    assert!(channel.try_push(3));
    assert_eq!(channel.len(), 3);
    assert_eq!(channel.pop(), Some(1));
    assert_eq!(channel.pop(), Some(2));
    assert_eq!(channel.pop(), Some(3));
    assert_eq!(channel.pop(), None);
}

#[test]
fn channel_drops_on_full() {
    let mut channel = TransferChannel::new(2);
    assert!(channel.try_push(10));
    assert!(channel.try_push(20));
    assert!(!channel.try_push(30));
    assert_eq!(channel.len(), 2);
    assert_eq!(channel.pop(), Some(10));
    assert_eq!(channel.pop(), Some(20));
    assert_eq!(channel.pop(), None);
}

#[test]
fn rendered_sample_is_sample_times_volume_when_unmuted() {
    let mut actor = AudioActor::new();
    actor.add_output(String::from("a"), Some(&caps(2, 8000, 96000, 44100)));
    actor.set_volume(String::from("a"), 0.25f32.to_bits());
    actor.fan_out(&vec![0.8f32.to_bits()]);
    let (gain, slots) = actor.render(&String::from("a"), 1).unwrap();
    assert_eq!(scale(slots[0], gain), 0.8f32 * 0.25f32);
}

#[test]
fn rendered_sample_is_zero_when_muted_regardless_of_volume() {
    let mut actor = AudioActor::new();
    actor.add_output(String::from("a"), Some(&caps(2, 8000, 96000, 44100)));
    actor.set_volume(String::from("a"), 0.9f32.to_bits());
    actor.set_mute(String::from("a"), true);
    actor.fan_out(&vec![1.0f32.to_bits(), 0.7f32.to_bits()]);
    let (gain, slots) = actor.render(&String::from("a"), 2).unwrap();
    assert_eq!(gain, SILENCE);
    assert_eq!(scale(slots[0], gain), 0.0);
    assert_eq!(scale(slots[1], gain), 0.0);
}

#[test]
fn add_then_remove_restores_registry() {
    let mut actor = AudioActor::new();
    actor.add_output(String::from("keep"), Some(&caps(2, 44100, 48000, 44100)));
    assert_eq!(actor.route_count(), 1);
    actor.add_output(String::from("gone"), Some(&caps(2, 44100, 48000, 44100)));
    assert_eq!(actor.route_count(), 2);
    actor.remove_output(String::from("gone"));
    assert_eq!(actor.route_count(), 1);
    assert!(actor.has_output(&String::from("keep")));
    assert!(!actor.has_output(&String::from("gone")));
}

#[test]
fn add_existing_output_is_noop() {
    let mut actor = AudioActor::new();
    let first = actor.add_output(String::from("dup"), Some(&caps(2, 44100, 48000, 44100)));
    assert!(first.is_some());
    let second = actor.add_output(String::from("dup"), Some(&caps(2, 44100, 48000, 44100)));
    assert!(second.is_none());
    assert_eq!(actor.route_count(), 1);
}

#[test]
fn add_unknown_device_is_noop() {
    let mut actor = AudioActor::new();
    let opened = actor.add_output(String::from("ghost"), None);
    assert!(opened.is_none());
    assert_eq!(actor.route_count(), 0);
}

#[test]
fn set_controls_on_unknown_name_is_noop() {
    let mut actor = AudioActor::new();
    actor.add_output(String::from("real"), Some(&caps(2, 44100, 48000, 44100)));
    actor.set_volume(String::from("missing"), 0.3f32.to_bits());
    actor.set_mute(String::from("missing"), true);
    assert_eq!(actor.route_count(), 1);
    actor.fan_out(&vec![1.0f32.to_bits()]);
    let (gain, slots) = actor.render(&String::from("real"), 1).unwrap();
    assert_eq!(gain, UNITY_GAIN);
    assert_eq!(scale(slots[0], gain), 1.0);
    assert!(actor.render(&String::from("missing"), 4).is_none());
}

#[test]
fn underrun_renders_silence() {
    let mut actor = AudioActor::new();
    actor.add_output(String::from("idle"), Some(&caps(2, 44100, 48000, 44100)));
    let (gain, slots) = actor.render(&String::from("idle"), 4).unwrap();
    assert_eq!(slots, vec![SILENCE, SILENCE, SILENCE, SILENCE]);
    assert_eq!(scale(slots[0], gain), 0.0);
}

#[test]
fn underrun_after_drain_renders_silence() {
    let mut actor = AudioActor::new();
    actor.add_output(String::from("short"), Some(&caps(2, 44100, 48000, 44100)));
    actor.fan_out(&vec![0.5f32.to_bits()]);
    let (_, slots) = actor.render(&String::from("short"), 3).unwrap();
    assert_eq!(slots[0], 0.5f32.to_bits());
    assert_eq!(slots[1], SILENCE);
    assert_eq!(slots[2], SILENCE);
}

#[test]
fn fan_out_reaches_every_route() {
    let mut actor = AudioActor::new();
    actor.add_output(String::from("left"), Some(&caps(2, 44100, 48000, 44100)));
    actor.add_output(String::from("right"), Some(&caps(2, 44100, 48000, 44100)));
    let block: Vec<u32> = (0..5u32).collect();
    actor.fan_out(&block);
    let (_, left) = actor.render(&String::from("left"), 5).unwrap();
    let (_, right) = actor.render(&String::from("right"), 5).unwrap();
    assert_eq!(left, block);
    assert_eq!(right, block);
}

#[test]
fn fan_out_drops_only_the_overflow() {
    let mut actor = AudioActor::new();
    actor.add_output(String::from("full"), Some(&caps(2, 44100, 48000, 44100)));
    let block: Vec<u32> = (0..(CHANNEL_CAPACITY as u32 + 7)).collect();
    actor.fan_out(&block);
    let (_, slots) = actor.render(&String::from("full"), CHANNEL_CAPACITY + 7).unwrap();
    for i in 0..CHANNEL_CAPACITY {
        assert_eq!(slots[i], i as u32);
    }
    for i in CHANNEL_CAPACITY..CHANNEL_CAPACITY + 7 {
        assert_eq!(slots[i], SILENCE);
    }
}

#[test]
fn removing_one_route_leaves_delivery_to_the_rest() {
    let mut actor = AudioActor::new();
    actor.add_output(String::from("stays"), Some(&caps(2, 44100, 48000, 44100)));
    actor.add_output(String::from("leaves"), Some(&caps(2, 44100, 48000, 44100)));
    actor.fan_out(&vec![11, 22]);
    actor.remove_output(String::from("leaves"));
    actor.fan_out(&vec![33]);
    let (_, slots) = actor.render(&String::from("stays"), 3).unwrap();
    assert_eq!(slots, vec![11, 22, 33]);
}

#[test]
fn capture_rate_negotiation_scenario() {
    let mut actor = AudioActor::new();
    actor.start_loopback(Some(48000));
    assert!(actor.capture_active());
    assert_eq!(actor.target_rate(), 48000);

    let speakers = caps(2, 44100, 48000, 44100);
    let opened = actor.add_output(String::from("Speakers"), Some(&speakers)).unwrap();
    assert_eq!(opened.sample_rate, 48000);
    assert_eq!(opened.channels, 2);

    let old_dac = caps(2, 44100, 44100, 44100);
    let opened = actor.add_output(String::from("OldDAC"), Some(&old_dac)).unwrap();
    assert_eq!(opened.sample_rate, 44100);
}

#[test]
fn fallback_rate_without_capture() {
    let mut actor = AudioActor::new();
    assert!(!actor.capture_active());
    assert_eq!(actor.target_rate(), 48000);
    let opened = actor.add_output(String::from("out"), Some(&caps(1, 8000, 96000, 22050))).unwrap();
    assert_eq!(opened.sample_rate, 48000);
}

#[test]
fn stop_capture_keeps_routes() {
    let mut actor = AudioActor::new();
    actor.start_loopback(Some(44100));
    actor.add_output(String::from("live"), Some(&caps(2, 44100, 48000, 44100)));
    actor.stop_loopback();
    assert!(!actor.capture_active());
    assert_eq!(actor.route_count(), 1);
    let (_, slots) = actor.render(&String::from("live"), 2).unwrap();
    assert_eq!(slots, vec![SILENCE, SILENCE]);
}

#[test]
fn start_loopback_twice_keeps_first_rate() {
    let mut actor = AudioActor::new();
    actor.start_loopback(Some(44100));
    actor.start_loopback(Some(96000));
    assert_eq!(actor.target_rate(), 44100);
}

#[test]
fn start_loopback_without_device_is_noop() {
    let mut actor = AudioActor::new();
    actor.start_loopback(None);
    assert!(!actor.capture_active());
}

#[test]
fn mute_overrides_later_volume_changes() {
    let mut actor = AudioActor::new();
    actor.add_output(String::from("X"), Some(&caps(2, 44100, 48000, 44100)));
    actor.set_mute(String::from("X"), true);
    actor.set_volume(String::from("X"), 0.8f32.to_bits());

    actor.fan_out(&vec![0.5f32.to_bits()]);
    let (gain, slots) = actor.render(&String::from("X"), 1).unwrap();
    assert_eq!(scale(slots[0], gain), 0.0);

    actor.set_mute(String::from("X"), false);
    actor.fan_out(&vec![0.5f32.to_bits()]);
    let (gain, slots) = actor.render(&String::from("X"), 1).unwrap();
    assert_eq!(scale(slots[0], gain), 0.5f32 * 0.8f32);
}

#[test]
fn input_gain_follows_input_controls() {
    let mut actor = AudioActor::new();
    assert_eq!(actor.input_gain(), UNITY_GAIN);
    actor.set_input_volume(0.4f32.to_bits());
    assert_eq!(f32::from_bits(actor.input_gain()), 0.4);
    actor.set_input_mute(true);
    assert_eq!(actor.input_gain(), SILENCE);
    actor.set_input_mute(false);
    assert_eq!(f32::from_bits(actor.input_gain()), 0.4);
}
