use vstd::prelude::*;

use crate::color::{color_info_from_source, source_color, SourceMatrix, SourceRange};
use crate::modes::CaptureLayout;
use crate::pixel::{l8_byte, l8_to_rgba, rgb24_byte, rgb24_to_rgba};
use crate::types::{ColorInfo, ColorRange, FrameData, VideoFormat, VideoFrame, matrix_for_width};

verus! {

/// The negotiated mode of a running capture, for display.
#[derive(Clone, Debug)]
pub struct VideoInfo {
    pub width: u32,
    pub height: u32,
    pub format: String,
    pub fps: Option<u32>,
}

/// Sample layout of a decoded JPEG image.
#[derive(Clone, Copy, Debug, PartialEq, Eq, Structural)]
pub enum JpegPixels {
    L8,
    L16,
    Rgb24,
    Cmyk32,
}

/// A decoded JPEG image as the decoder hands it out.
#[derive(Clone, Debug)]
pub struct DecodedJpeg {
    pub width: u16,
    pub height: u16,
    pub format: JpegPixels,
    pub pixels: Vec<u8>,
}

/// What the JPEG decoder makes of the given bytes: size, sample layout
/// and samples, or nothing where it rejects them.
pub uninterp spec fn jpeg_decoded(data: Seq<u8>) -> Option<(u16, u16, JpegPixels, Seq<u8>)>;

/// Relies on jpeg_decoder's `Decoder::decode` followed by `info`: the
/// samples and the image description. With the crate's
/// `platform_independent` feature (enabled in Cargo.toml) only the
/// bit-exact scalar code runs, so the result is a function of the bytes
/// alone. `info` cannot panic here: `decode` has already refused sample
/// precisions outside 2..=16 and component counts other than 1, 3 and 4.
#[verifier::external_body]
fn decode_jpeg(data: &[u8]) -> (r: Option<DecodedJpeg>)
    ensures
        r is None ==> jpeg_decoded(data@) is None,
        r matches Some(d) ==> jpeg_decoded(data@) == Some((d.width, d.height, d.format, d.pixels@)),
{
    let mut decoder = jpeg_decoder::Decoder::new(data);
    let pixels = decoder.decode().ok()?;
    let info = decoder.info()?;
    let format = match info.pixel_format {
        jpeg_decoder::PixelFormat::L8 => JpegPixels::L8,
        jpeg_decoder::PixelFormat::L16 => JpegPixels::L16,
        jpeg_decoder::PixelFormat::RGB24 => JpegPixels::Rgb24,
        jpeg_decoder::PixelFormat::CMYK32 => JpegPixels::Cmyk32,
    };
    Some(DecodedJpeg { width: info.width, height: info.height, format, pixels })
}

/// A decoded image the software path can expand to RGBA: RGB or grey
/// samples, enough of them, and an RGBA size that fits in memory.
pub open spec fn expandable(format: JpegPixels, w: int, h: int, len: int) -> bool {
    &&& 4 * (w * h) <= usize::MAX
    &&& match format {
        JpegPixels::Rgb24 => len >= 3 * (w * h),
        JpegPixels::L8 => len >= w * h,
        _ => false,
    }
}

/// Byte `i` of the RGBA expansion of the samples.
pub open spec fn expanded_byte(format: JpegPixels, pixels: Seq<u8>, i: int) -> u8 {
    if format == JpegPixels::Rgb24 {
        rgb24_byte(pixels, i)
    } else {
        l8_byte(pixels, i)
    }
}

/// The RGBA expansion `out` of a decoded `w` x `h` image.
pub open spec fn is_expansion(
    format: JpegPixels,
    w: int,
    h: int,
    pixels: Seq<u8>,
    out: Seq<u8>,
) -> bool {
    &&& out.len() == 4 * (w * h)
    &&& forall|i: int| 0 <= i < out.len() ==> #[trigger] out[i] == expanded_byte(format, pixels, i)
}

proof fn lemma_u16_product(a: u16, b: u16)
    ensures
        0 <= a * b <= 0xfffe_0001,
{
    assert(0 <= a * b <= 0xfffe_0001) by (nonlinear_arith)
        requires
            0 <= a <= 0xffff,
            0 <= b <= 0xffff,
    ;
}

/// Expands a decoded image to RGBA with full alpha: RGB triples and grey
/// samples are supported, anything else, or too few samples, is refused.
pub fn expand_decoded(img: &DecodedJpeg) -> (r: Option<(u32, u32, Vec<u8>)>)
    ensures
        r is Some <==> expandable(img.format, img.width as int, img.height as int, img.pixels.len() as int),
        r matches Some((w, h, out)) ==> w == img.width && h == img.height && is_expansion(
            img.format,
            img.width as int,
            img.height as int,
            img.pixels@,
            out@,
        ),
{
    proof {
        lemma_u16_product(img.width, img.height);
    }
    let width = img.width as u32;
    let height = img.height as u32;
    let pixel_count = (img.width as usize) * (img.height as usize);
    let out_len = pixel_count.checked_mul(4);
    if out_len.is_none() {
        return None;
    }
    match img.format {
        JpegPixels::Rgb24 => {
            let expected = pixel_count.checked_mul(3);
            match expected {
                Some(n) => {
                    if img.pixels.len() < n {
                        None
                    } else {
                        let out = rgb24_to_rgba(img.pixels.as_slice(), pixel_count);
                        Some((width, height, out))
                    }
                },
                None => None,
            }
        },
        JpegPixels::L8 => {
            if img.pixels.len() < pixel_count {
                None
            } else {
                let out = l8_to_rgba(img.pixels.as_slice(), pixel_count);
                Some((width, height, out))
            }
        },
        _ => None,
    }
}

/// The RGBA image the software path makes of one motion-JPEG buffer.
pub open spec fn mjpeg_ok(data: Seq<u8>) -> bool {
    jpeg_decoded(data) matches Some((w, h, f, px)) && expandable(f, w as int, h as int, px.len() as int)
}

/// Decodes one motion-JPEG buffer in software to RGBA.
pub fn decode_mjpeg(data: &[u8]) -> (r: Option<(u32, u32, Vec<u8>)>)
    ensures
        r is Some <==> mjpeg_ok(data@),
        r matches Some((w, h, out)) ==> jpeg_decoded(data@) matches Some((dw, dh, f, px)) && w == dw
            && h == dh && is_expansion(f, w as int, h as int, px, out@),
{
    match decode_jpeg(data) {
        Some(img) => expand_decoded(&img),
        None => None,
    }
}

/// Bytes per row of a capture whose driver reports `reported` (zero when
/// it reports none): two bytes per pixel for YUYV, one for the luma rows
/// of the others.
pub open spec fn row_bytes(layout: CaptureLayout, width: u32, reported: u32) -> int {
    if reported != 0 {
        reported as int
    } else if layout == CaptureLayout::Yuyv {
        2 * width
    } else {
        width as int
    }
}

pub fn capture_stride(layout: CaptureLayout, width: u32, reported: u32) -> (r: usize)
    requires
        2 * width <= usize::MAX,
    ensures
        r == row_bytes(layout, width, reported),
{
    if reported != 0 {
        reported as usize
    } else if layout == CaptureLayout::Yuyv {
        2 * (width as usize)
    } else {
        width as usize
    }
}

fn copy_bytes(data: &[u8]) -> (r: Vec<u8>)
    ensures
        r@ == data@,
{
    let mut out: Vec<u8> = Vec::new();
    let mut i: usize = 0;
    while i < data.len()
        invariant
            i <= data.len(),
            out@ == data@.subrange(0, i as int),
        decreases data.len() - i,
    {
        out.push(data[i]);
        i += 1;
        assert(out@ =~= data@.subrange(0, i as int));
    }
    assert(data@.subrange(0, data.len() as int) =~= data@);
    out
}

/// A raw YUYV or NV12 buffer as a frame.
pub open spec fn raw_frame(
    f: VideoFrame,
    layout: CaptureLayout,
    width: u32,
    height: u32,
    stride: usize,
    data: Seq<u8>,
) -> bool {
    &&& f.width == width && f.height == height && f.stride == stride
    &&& f.color == ColorInfo { matrix: matrix_for_width(width), range: ColorRange::Limited }
    &&& f.data.bytes() == data
    &&& if layout == CaptureLayout::Yuyv {
        f.format == VideoFormat::Yuyv && f.uv_stride == 0
    } else {
        f.format == VideoFormat::Nv12 && f.uv_stride == stride
    }
}

/// A motion-JPEG buffer decoded to an RGBA frame.
pub open spec fn decoded_frame(f: VideoFrame, data: Seq<u8>) -> bool {
    jpeg_decoded(data) matches Some((dw, dh, fmt, px)) && {
        &&& f.width == dw && f.height == dh
        &&& f.format == VideoFormat::Rgba && f.stride == 4 * dw && f.uv_stride == 0
        &&& f.color == source_color(f.width, true, SourceRange::Unknown, SourceMatrix::Unknown)
        &&& is_expansion(fmt, dw as int, dh as int, px, f.data.bytes())
    }
}

/// The frame the capture thread hands on for one buffer of a
/// `width` x `height` capture in `layout`: raw YUYV and NV12 bytes go as
/// they are (colour from the width), motion JPEG is decoded to RGBA in
/// software (full range); a buffer that does not decode gives nothing.
pub fn frame_from_buffer(
    layout: CaptureLayout,
    width: u32,
    height: u32,
    stride: usize,
    data: &[u8],
) -> (r: Option<VideoFrame>)
    ensures
        layout != CaptureLayout::Mjpeg ==> (r matches Some(f) && raw_frame(
            f,
            layout,
            width,
            height,
            stride,
            data@,
        )),
        layout == CaptureLayout::Mjpeg ==> (r is Some <==> mjpeg_ok(data@)),
        layout == CaptureLayout::Mjpeg ==> (r matches Some(f) ==> decoded_frame(f, data@)),
        r matches Some(f) ==> (f.well_formed() || (layout == CaptureLayout::Nv12 && stride == 0)),
{
    match layout {
        CaptureLayout::Yuyv => Some(
            VideoFrame {
                width,
                height,
                format: VideoFormat::Yuyv,
                stride,
                uv_stride: 0,
                color: ColorInfo::default_for_size(width),
                data: FrameData::Owned(copy_bytes(data)),
            },
        ),
        CaptureLayout::Nv12 => Some(
            VideoFrame {
                width,
                height,
                format: VideoFormat::Nv12,
                stride,
                uv_stride: stride,
                color: ColorInfo::default_for_size(width),
                data: FrameData::Owned(copy_bytes(data)),
            },
        ),
        CaptureLayout::Mjpeg => match decode_mjpeg(data) {
            Some((w, h, rgba)) => Some(
                VideoFrame {
                    width: w,
                    height: h,
                    format: VideoFormat::Rgba,
                    stride: (w as usize) * 4,
                    uv_stride: 0,
                    color: color_info_from_source(
                        w,
                        true,
                        SourceRange::Unknown,
                        SourceMatrix::Unknown,
                    ),
                    data: FrameData::Owned(rgba),
                },
            ),
            None => None,
        },
    }
}

/// Pixel formats a hardware decode pipeline may hand out.
#[derive(Clone, Copy, Debug, PartialEq, Eq, Structural)]
pub enum DecoderOutput {
    Nv12,
    Yuy2,
    Rgba,
    Other,
}

/// Packing and row strides of a decoded frame: NV12 keeps both plane
/// strides, the packed formats the first; other formats are skipped.
pub open spec fn decoded_layout_of(
    format: DecoderOutput,
    stride0: usize,
    stride1: usize,
) -> Option<(VideoFormat, usize, usize)> {
    match format {
        DecoderOutput::Nv12 => Some((VideoFormat::Nv12, stride0, stride1)),
        DecoderOutput::Yuy2 => Some((VideoFormat::Yuyv, stride0, 0usize)),
        DecoderOutput::Rgba => Some((VideoFormat::Rgba, stride0, 0usize)),
        DecoderOutput::Other => None,
    }
}

/// How a frame from the hardware decode path is described to the
/// presenter.
pub fn decoded_layout(format: DecoderOutput, stride0: usize, stride1: usize) -> (r: Option<
    (VideoFormat, usize, usize),
>)
    ensures
        r == decoded_layout_of(format, stride0, stride1),
{
    match format {
        DecoderOutput::Nv12 => Some((VideoFormat::Nv12, stride0, stride1)),
        DecoderOutput::Yuy2 => Some((VideoFormat::Yuyv, stride0, 0)),
        DecoderOutput::Rgba => Some((VideoFormat::Rgba, stride0, 0)),
        DecoderOutput::Other => None,
    }
}

} // verus!
