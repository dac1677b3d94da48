use capture_card_gaming::delivery::{
    delivery_result, delivery_step, frame_channel, publish, try_take_latest_frame, Delivery,
};
use capture_card_gaming::stats::{CaptureStats, StatsSnapshot};
use capture_card_gaming::types::{ColorInfo, FrameData, VideoFormat, VideoFrame};

fn frame(tag: u32) -> VideoFrame {
    VideoFrame {
        width: tag,
        height: 1,
        format: VideoFormat::Rgba,
        stride: 4,
        uv_stride: 0,
        color: ColorInfo::default(),
        data: FrameData::Owned(vec![0; 4]),
    }
}

#[test]
fn consumer_sees_last_of_many_frames() {
    let (tx, rx) = frame_channel();
    let stats = CaptureStats::new();
    stats.set_enabled(true);
    let n = 10u32;
    for i in 0..n {
        let d = publish(&tx, &rx, &stats, stats.enabled(), frame(i));
        if i == 0 {
            assert_eq!(d.outcome, Delivery::Sent);
            assert!(!d.drained && !d.drop_counted);
        } else {
            assert_eq!(d.outcome, Delivery::Replaced);
            assert!(d.drained && d.drop_counted);
        }
    }
    let seen = try_take_latest_frame(&rx).expect("a frame");
    assert_eq!(seen.width, n - 1);
    assert!(try_take_latest_frame(&rx).is_none());
    assert_eq!(stats.snapshot().drops, (n - 1) as u64);
}

#[test]
fn drops_plus_observed_equals_sent() {
    let (tx, rx) = frame_channel();
    let stats = CaptureStats::new();
    stats.set_enabled(true);
    let mut observed = 0u64;
    let mut sent = 0u64;
    for i in 0..7u32 {
        publish(&tx, &rx, &stats, true, frame(i));
        sent += 1;
        if i % 3 == 0 {
            if try_take_latest_frame(&rx).is_some() {
                observed += 1;
            }
        }
    }
    if try_take_latest_frame(&rx).is_some() {
        observed += 1;
    }
    assert_eq!(stats.snapshot().drops, sent - observed);
}

#[test]
fn drops_not_counted_when_disabled() {
    let (tx, rx) = frame_channel();
    let stats = CaptureStats::new();
    publish(&tx, &rx, &stats, stats.enabled(), frame(1));
    let d = publish(&tx, &rx, &stats, stats.enabled(), frame(2));
    assert!(d.drained && !d.drop_counted);
    assert_eq!(stats.snapshot().drops, 0);
    assert_eq!(try_take_latest_frame(&rx).unwrap().width, 2);
}

#[test]
fn stats_counters() {
    let stats = CaptureStats::new();
    assert!(!stats.enabled());
    stats.set_enabled(true);
    assert!(stats.enabled());
    stats.on_frame_enabled(120);
    stats.on_frame_enabled(80);
    stats.on_drop_enabled();
    let s = stats.snapshot();
    assert_eq!((s.frames, s.drops, s.decode_us), (2, 1, 80));
    stats.reset();
    let s = stats.snapshot();
    assert_eq!((s.frames, s.drops, s.decode_us), (0, 0, 0));
    stats.on_drop_enabled();
    stats.set_recording(true);
    let s = stats.snapshot();
    assert_eq!((s.frames, s.drops, s.decode_us), (0, 0, 0));
    assert!(stats.enabled());
    stats.set_recording(false);
    assert!(!stats.enabled());
    let d = StatsSnapshot::default();
    assert_eq!((d.frames, d.drops, d.decode_us), (0, 0, 0));
}

#[test]
fn delivery_decisions() {
    assert_eq!(delivery_step(true, true), (false, false));
    assert_eq!(delivery_step(false, true), (true, true));
    assert_eq!(delivery_step(false, false), (true, false));
    assert_eq!(delivery_result(true, false), Delivery::Sent);
    assert_eq!(delivery_result(false, true), Delivery::Replaced);
    assert_eq!(delivery_result(false, false), Delivery::Lost);
}

#[test]
fn send_after_consumer_gone_is_lost() {
    let (tx, rx) = frame_channel();
    let stats = CaptureStats::new();
    let d = publish(&tx, &rx, &stats, false, frame(1));
    assert_eq!(d.outcome, Delivery::Sent);
    drop(rx);
    let (_, other_rx) = frame_channel();
    let d = publish(&tx, &other_rx, &stats, true, frame(2));
    assert_eq!(d.outcome, Delivery::Lost);
    assert!(d.drained && d.drop_counted);
}
