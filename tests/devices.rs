use capture_card_gaming::devices::{
    list_video_devices, VideoNode, CAP_STREAMING, CAP_VIDEO_CAPTURE, CAP_VIDEO_CAPTURE_MPLANE,
};

fn node(path: &str, name: Option<&str>, card: &str, caps: u32) -> VideoNode {
    VideoNode {
        path: path.to_string(),
        name: name.map(|s| s.to_string()),
        card: card.to_string(),
        capabilities: caps,
    }
}

#[test]
fn repeated_names_get_path_suffix() {
    let caps = CAP_VIDEO_CAPTURE | CAP_STREAMING;
    let nodes = vec![
        node("/dev/video0", Some("USB Capture"), "card", caps),
        node("/dev/video1", Some("Metadata"), "card", 0x0080_0000 | CAP_STREAMING),
        node("/dev/video2", Some("USB Capture"), "card", CAP_VIDEO_CAPTURE_MPLANE | CAP_STREAMING),
        node("/dev/video3", None, "Webcam", caps),
        node("/dev/video4", Some("No stream"), "card", CAP_VIDEO_CAPTURE),
    ];
    let devs = list_video_devices(&nodes);
    assert_eq!(devs.len(), 3);
    assert_eq!(devs[0].id, "/dev/video0");
    assert_eq!(devs[0].name, "USB Capture (video0)");
    assert_eq!(devs[1].id, "/dev/video2");
    assert_eq!(devs[1].name, "USB Capture (video2)");
    assert_eq!(devs[2].id, "/dev/video3");
    assert_eq!(devs[2].name, "Webcam");
}

#[test]
fn path_without_slash_is_its_own_suffix() {
    let caps = CAP_VIDEO_CAPTURE | CAP_STREAMING;
    let nodes = vec![node("cam-a", Some("Cam"), "c", caps), node("cam-b", Some("Cam"), "c", caps)];
    let devs = list_video_devices(&nodes);
    assert_eq!(devs[0].name, "Cam (cam-a)");
    assert_eq!(devs[1].name, "Cam (cam-b)");
    assert!(list_video_devices(&vec![]).is_empty());
}
