use capture_card_gaming::capture::{
    capture_stride, decode_mjpeg, decoded_layout, expand_decoded, frame_from_buffer, DecodedJpeg,
    DecoderOutput, JpegPixels,
};
use capture_card_gaming::modes::CaptureLayout;
use capture_card_gaming::types::{ColorMatrix, ColorRange, FrameData, VideoFormat};

/// A 16x16 baseline RGB JPEG image.
const SMALL_JPEG: [u8; 543] = [
    255, 216, 255, 224, 0, 16, 74, 70, 73, 70, 0, 1, 1, 1, 0, 1,
    0, 1, 0, 0, 255, 219, 0, 67, 0, 3, 2, 2, 2, 2, 2, 3,
    2, 2, 2, 3, 3, 3, 3, 4, 6, 4, 4, 4, 4, 4, 8, 6,
    6, 5, 6, 9, 8, 10, 10, 9, 8, 9, 9, 10, 12, 15, 12, 10,
    11, 14, 11, 9, 9, 13, 17, 13, 14, 15, 16, 16, 17, 16, 10, 12,
    18, 19, 18, 16, 19, 15, 16, 16, 16, 255, 219, 0, 67, 1, 3, 3,
    3, 4, 3, 4, 8, 4, 4, 8, 16, 11, 9, 11, 16, 16, 16, 16,
    16, 16, 16, 16, 16, 16, 16, 16, 16, 16, 16, 16, 16, 16, 16, 16,
    16, 16, 16, 16, 16, 16, 16, 16, 16, 16, 16, 16, 16, 16, 16, 16,
    16, 16, 16, 16, 16, 16, 16, 16, 16, 16, 16, 16, 16, 16, 255, 192,
    0, 17, 8, 0, 16, 0, 16, 3, 1, 34, 0, 2, 17, 1, 3, 17,
    1, 255, 196, 0, 22, 0, 1, 1, 1, 0, 0, 0, 0, 0, 0, 0,
    0, 0, 0, 0, 0, 0, 7, 4, 5, 255, 196, 0, 36, 16, 0, 1,
    4, 1, 4, 2, 2, 3, 0, 0, 0, 0, 0, 0, 0, 0, 1, 2,
    3, 4, 6, 5, 7, 8, 18, 19, 17, 34, 0, 20, 9, 49, 50, 255,
    196, 0, 21, 1, 1, 1, 0, 0, 0, 0, 0, 0, 0, 0, 0, 0,
    0, 0, 0, 0, 0, 6, 255, 196, 0, 35, 17, 0, 1, 2, 5, 3,
    5, 0, 0, 0, 0, 0, 0, 0, 0, 0, 0, 1, 2, 17, 3, 4,
    5, 6, 33, 0, 18, 49, 21, 22, 97, 129, 225, 255, 218, 0, 12, 3,
    1, 0, 2, 17, 3, 17, 0, 63, 0, 20, 166, 210, 106, 27, 115, 193,
    230, 19, 18, 212, 149, 28, 243, 17, 99, 228, 37, 101, 190, 186, 90, 236,
    105, 69, 64, 177, 229, 32, 178, 84, 165, 31, 210, 202, 184, 250, 242, 32,
    171, 150, 61, 151, 108, 147, 53, 230, 155, 119, 215, 230, 109, 167, 23, 129,
    165, 87, 28, 127, 28, 234, 113, 226, 75, 57, 215, 227, 34, 83, 242, 26,
    105, 222, 212, 113, 74, 56, 180, 130, 232, 75, 137, 42, 113, 105, 30, 205,
    45, 33, 59, 241, 239, 185, 26, 116, 172, 238, 161, 90, 117, 142, 213, 72,
    172, 101, 91, 133, 139, 129, 133, 123, 33, 41, 152, 103, 169, 107, 148, 185,
    73, 101, 79, 185, 200, 133, 41, 17, 75, 129, 42, 240, 122, 217, 242, 60,
    128, 126, 85, 190, 13, 246, 98, 161, 64, 204, 232, 230, 154, 61, 92, 183,
    67, 179, 215, 122, 101, 88, 177, 217, 81, 33, 136, 191, 100, 184, 211, 241,
    195, 104, 4, 41, 192, 208, 254, 187, 60, 2, 224, 60, 84, 7, 180, 189,
    217, 123, 84, 230, 39, 251, 110, 223, 148, 96, 20, 130, 98, 19, 141, 184,
    82, 152, 40, 55, 5, 137, 114, 121, 96, 228, 50, 137, 111, 195, 130, 142,
    167, 82, 140, 234, 32, 141, 190, 120, 25, 31, 7, 173, 127, 255, 217,
];

#[test]
fn software_decode_expands_to_rgba() {
    let (w, h, rgba) = decode_mjpeg(&SMALL_JPEG).expect("decodes");
    assert_eq!((w, h), (16, 16));
    assert_eq!(rgba.len(), 16 * 16 * 4);
    assert!(rgba.chunks_exact(4).all(|px| px[3] == 255));
}

#[test]
fn software_decode_rejects_garbage() {
    assert!(decode_mjpeg(&[0u8, 1, 2, 3]).is_none());
    assert!(decode_mjpeg(&[]).is_none());
}

#[test]
fn expansion_by_sample_layout() {
    let grey = DecodedJpeg { width: 2, height: 1, format: JpegPixels::L8, pixels: vec![3, 4] };
    assert_eq!(expand_decoded(&grey), Some((2, 1, vec![3, 3, 3, 255, 4, 4, 4, 255])));
    let rgb = DecodedJpeg { width: 1, height: 1, format: JpegPixels::Rgb24, pixels: vec![1, 2, 3] };
    assert_eq!(expand_decoded(&rgb), Some((1, 1, vec![1, 2, 3, 255])));
    let short = DecodedJpeg { width: 2, height: 1, format: JpegPixels::Rgb24, pixels: vec![1, 2, 3] };
    assert_eq!(expand_decoded(&short), None);
    let cmyk = DecodedJpeg { width: 1, height: 1, format: JpegPixels::Cmyk32, pixels: vec![0; 4] };
    assert_eq!(expand_decoded(&cmyk), None);
}

#[test]
fn stride_defaults() {
    assert_eq!(capture_stride(CaptureLayout::Yuyv, 640, 0), 1280);
    assert_eq!(capture_stride(CaptureLayout::Nv12, 640, 0), 640);
    assert_eq!(capture_stride(CaptureLayout::Nv12, 640, 704), 704);
}

#[test]
fn raw_buffers_become_frames() {
    let data = [1u8, 2, 3, 4];
    let f = frame_from_buffer(CaptureLayout::Yuyv, 2, 1, 4, &data).unwrap();
    assert_eq!(f.format, VideoFormat::Yuyv);
    assert_eq!(f.uv_stride, 0);
    assert_eq!(f.color.matrix, ColorMatrix::Bt601);
    assert_eq!(f.color.range, ColorRange::Limited);
    let FrameData::Owned(bytes) = &f.data;
    assert_eq!(bytes, &data.to_vec());
    let f = frame_from_buffer(CaptureLayout::Nv12, 1920, 1, 4, &data).unwrap();
    assert_eq!(f.format, VideoFormat::Nv12);
    assert_eq!(f.uv_stride, 4);
    assert_eq!(f.color.matrix, ColorMatrix::Bt709);
}

#[test]
fn jpeg_buffers_are_decoded() {
    let f = frame_from_buffer(CaptureLayout::Mjpeg, 16, 16, 0, &SMALL_JPEG).unwrap();
    assert_eq!(f.format, VideoFormat::Rgba);
    assert_eq!((f.width, f.height, f.stride), (16, 16, 64));
    assert_eq!(f.color.range, ColorRange::Full);
    assert_eq!(f.data.as_slice().len(), 1024);
    assert!(frame_from_buffer(CaptureLayout::Mjpeg, 16, 16, 0, &[9, 9]).is_none());
}

#[test]
fn decoder_output_layouts() {
    assert_eq!(decoded_layout(DecoderOutput::Nv12, 1920, 1920), Some((VideoFormat::Nv12, 1920, 1920)));
    assert_eq!(decoded_layout(DecoderOutput::Yuy2, 3840, 7), Some((VideoFormat::Yuyv, 3840, 0)));
    assert_eq!(decoded_layout(DecoderOutput::Rgba, 7680, 7), Some((VideoFormat::Rgba, 7680, 0)));
    assert_eq!(decoded_layout(DecoderOutput::Other, 1, 1), None);
}
