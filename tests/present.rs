use capture_card_gaming::present::{quad_scale, Presenter, QuadScale};
use capture_card_gaming::types::{ColorInfo, ColorMatrix, ColorRange, VideoFormat};
use capture_card_gaming::upload::{
    nv12_planes, padded_stride, plan_upload, prepare_upload, repack_rows, TextureUpload,
};

fn ratio(num: u64, den: u64) -> f64 {
    num as f64 / den as f64
}

#[test]
fn wide_window_pillarboxes() {
    let s = quad_scale(1920, 1080, 640, 480, true).unwrap();
    assert_eq!((s.y_num, s.y_den), (1, 1));
    let expected = (640.0 / 480.0) / (1920.0 / 1080.0);
    assert!((ratio(s.x_num, s.x_den) - expected).abs() < 1e-9);
}

#[test]
fn tall_window_letterboxes() {
    let s = quad_scale(1000, 1000, 1920, 1080, true).unwrap();
    assert_eq!((s.x_num, s.x_den), (1, 1));
    let expected = 1.0 / (1920.0 / 1080.0);
    assert!((ratio(s.y_num, s.y_den) - expected).abs() < 1e-9);
}

#[test]
fn equal_aspect_fills() {
    let s = quad_scale(1280, 720, 1920, 1080, true).unwrap();
    assert_eq!(ratio(s.x_num, s.x_den), 1.0);
    assert_eq!(ratio(s.y_num, s.y_den), 1.0);
}

#[test]
fn correction_off_fills_window() {
    let s = quad_scale(1920, 1080, 640, 480, false).unwrap();
    assert_eq!(s, QuadScale { x_num: 1, x_den: 1, y_num: 1, y_den: 1 });
    assert_eq!(quad_scale(1920, 1080, 0, 0, false), Some(s));
    assert_eq!(quad_scale(1920, 1080, 0, 0, true), None);
    assert_eq!(quad_scale(0, 1080, 640, 480, true), None);
}

#[test]
fn presenter_tracks_changes() {
    let mut p = Presenter::new(1920, 1080, false);
    assert_eq!((p.video_w, p.video_h), (1, 1));
    assert_eq!(p.format, VideoFormat::Rgba);
    let limited = ColorInfo { matrix: ColorMatrix::Bt709, range: ColorRange::Limited };
    let u = p.submit_frame(1280, 720, VideoFormat::Nv12, limited);
    assert!(u.recreate);
    assert_eq!(u.scale.map(|s| ratio(s.x_num, s.x_den)), Some(1.0));
    assert!(u.color.is_none());
    let u = p.submit_frame(1280, 720, VideoFormat::Nv12, limited);
    assert!(!u.recreate);
    assert!(u.scale.is_none());
    let full = ColorInfo { matrix: ColorMatrix::Bt709, range: ColorRange::Full };
    let u = p.submit_frame(1280, 720, VideoFormat::Yuyv, full);
    assert!(u.recreate);
    assert!(u.scale.is_none());
    assert!(u.color.is_some());
    assert_eq!(p.resize(0, 100), None);
    assert_eq!(p.window_w, 1920);
    let s = p.resize(1000, 1000).unwrap();
    assert_eq!((s.x_num, s.x_den), (1, 1));
    assert_eq!(p.set_aspect_correction(true), None);
    let s = p.set_aspect_correction(false).unwrap();
    assert_eq!(s, QuadScale { x_num: 1, x_den: 1, y_num: 1, y_den: 1 });
}

#[test]
fn padded_stride_rounds_up() {
    assert_eq!(padded_stride(256, 256), 256);
    assert_eq!(padded_stride(257, 256), 512);
    assert_eq!(padded_stride(3840, 256), 3840);
    assert_eq!(padded_stride(2, 256), 256);
    assert_eq!(padded_stride(u32::MAX - 255, 256), u32::MAX - 255);
}

#[test]
fn aligned_complete_data_goes_directly() {
    let data = vec![7u8; 512];
    match prepare_upload(&data, 256, 2, 256) {
        TextureUpload::Direct { bytes_per_row } => assert_eq!(bytes_per_row, 256),
        TextureUpload::Repacked { .. } => panic!("expected a direct upload"),
    }
}

#[test]
fn truncated_buffer_is_zero_filled() {
    // three rows of 4 bytes expected, one and a half present
    let data = [1u8, 2, 3, 4, 5, 6];
    match prepare_upload(&data, 4, 3, 8) {
        TextureUpload::Repacked { data: out, bytes_per_row } => {
            assert_eq!(bytes_per_row, 8);
            assert_eq!(out.len(), 24);
            assert_eq!(&out[0..8], &[1, 2, 3, 4, 0, 0, 0, 0]);
            assert_eq!(&out[8..16], &[5, 6, 0, 0, 0, 0, 0, 0]);
            assert_eq!(&out[16..24], &[0; 8]);
        }
        TextureUpload::Direct { .. } => panic!("expected a repacked upload"),
    }
}

#[test]
fn aligned_but_short_data_is_repacked() {
    let data = [9u8; 4];
    match prepare_upload(&data, 4, 2, 4) {
        TextureUpload::Repacked { data: out, bytes_per_row } => {
            assert_eq!(bytes_per_row, 4);
            assert_eq!(out, vec![9, 9, 9, 9, 0, 0, 0, 0]);
        }
        TextureUpload::Direct { .. } => panic!("expected a repacked upload"),
    }
}

#[test]
fn repack_pads_each_row() {
    let out = repack_rows(&[1, 2, 3, 4, 5, 6], 3, 2, 4);
    assert_eq!(out, vec![1, 2, 3, 0, 4, 5, 6, 0]);
}

#[test]
fn nv12_plane_spans() {
    let full = nv12_planes(4, 3, 4, 20);
    assert_eq!((full.y_len, full.uv_start, full.uv_len), (12, 12, 8));
    let short = nv12_planes(4, 3, 4, 14);
    assert_eq!((short.y_len, short.uv_start, short.uv_len), (12, 12, 2));
    let tiny = nv12_planes(4, 3, 4, 5);
    assert_eq!((tiny.y_len, tiny.uv_start, tiny.uv_len), (5, 5, 0));
}

#[test]
fn plan_refuses_sizes_beyond_32_bits() {
    assert!(plan_upload(&[1, 2, 3], 4, 2, 0).is_none());
    assert!(plan_upload(&[1, 2, 3], u32::MAX, 1, 256).is_none());
    assert!(plan_upload(&[1, 2, 3], 256, 1 << 24, 256).is_none());
    match plan_upload(&[1, 2, 3], 4, 2, 8) {
        Some(TextureUpload::Repacked { data, bytes_per_row }) => {
            assert_eq!(bytes_per_row, 8);
            assert_eq!(data, vec![1, 2, 3, 0, 0, 0, 0, 0, 0, 0, 0, 0, 0, 0, 0, 0]);
        }
        _ => panic!("expected a repacked upload"),
    }
}
