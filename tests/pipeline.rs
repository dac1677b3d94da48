use capture_card_gaming::modes::{rounded_fps, FrameRate};
use capture_card_gaming::pipeline::{
    decimal_string, mjpeg_hw_decoder, mjpeg_pipeline_variants, HwJpegDecoder,
};
use capture_card_gaming::types::VideoFormat;

const QUEUE: &str = "queue leaky=downstream max-size-buffers=1 max-size-time=0 max-size-bytes=0";
const SINK: &str =
    "appsink name=sink max-buffers=1 drop=true sync=false async=false enable-last-sample=false";

#[test]
fn decoder_priority() {
    assert_eq!(mjpeg_hw_decoder([true, true, true, true]), Some(HwJpegDecoder::Nvjpeg));
    assert_eq!(mjpeg_hw_decoder([false, true, true, false]), Some(HwJpegDecoder::Vaapi));
    assert_eq!(mjpeg_hw_decoder([false, false, false, true]), Some(HwJpegDecoder::Qsv));
    assert_eq!(mjpeg_hw_decoder([false; 4]), None);
    assert_eq!(HwJpegDecoder::V4l2.element(), "v4l2jpegdec");
}

#[test]
fn decimal_digits() {
    assert_eq!(decimal_string(0), "0");
    assert_eq!(decimal_string(7), "7");
    assert_eq!(decimal_string(1920), "1920");
    assert_eq!(decimal_string(u32::MAX), "4294967295");
}

#[test]
fn vaapi_variants_with_postproc_first() {
    let v = mjpeg_pipeline_variants("/dev/video0", 1920, 1080, HwJpegDecoder::Vaapi, true, true);
    assert_eq!(v.len(), 3);
    let head = format!(
        "v4l2src device=/dev/video0 io-mode=2 do-timestamp=true ! image/jpeg ! jpegparse ! {QUEUE} ! vaapijpegdec"
    );
    let caps = "video/x-raw,format=NV12,width=1920,height=1080";
    assert_eq!(v[0], format!("{head} ! vaapipostproc format=nv12 ! {caps} ! {SINK}"));
    assert_eq!(v[1], format!("{head} ! {QUEUE} ! {caps} ! {SINK}"));
    assert_eq!(v[2], format!("{head} ! {QUEUE} ! videoconvert ! {caps} ! {SINK}"));
}

#[test]
fn other_decoders_have_two_variants() {
    let v = mjpeg_pipeline_variants("/dev/video2", 640, 480, HwJpegDecoder::Nvjpeg, false, true);
    assert_eq!(v.len(), 2);
    let head = format!("v4l2src device=/dev/video2 io-mode=2 do-timestamp=true ! image/jpeg ! {QUEUE} ! nvjpegdec");
    assert_eq!(v[0], format!("{head} ! {QUEUE} ! video/x-raw,format=NV12,width=640,height=480 ! {SINK}"));
}

#[test]
fn rounded_rates() {
    assert_eq!(rounded_fps(FrameRate { frames: 60000, seconds: 1001 }), 60);
    assert_eq!(rounded_fps(FrameRate { frames: 30, seconds: 1 }), 30);
    assert_eq!(rounded_fps(FrameRate { frames: 5, seconds: 2 }), 3);
    assert_eq!(rounded_fps(FrameRate { frames: 1, seconds: 10 }), 1);
    assert_eq!(rounded_fps(FrameRate { frames: 0, seconds: 1 }), 1);
}

#[test]
fn format_names() {
    assert_eq!(VideoFormat::Rgba.name(), "RGBA");
    assert_eq!(VideoFormat::Yuyv.name(), "YUYV");
    assert_eq!(VideoFormat::Nv12.name(), "NV12");
}
