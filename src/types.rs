use vstd::prelude::*;

verus! {

/// A capture source as (opaque platform id, display name).
#[derive(Clone, Debug)]
pub struct DeviceInfo {
    pub id: String,
    pub name: String,
}

/// Pixel packing of a frame handed to the presenter.
#[derive(Clone, Copy, Debug, PartialEq, Eq, Structural)]
pub enum VideoFormat {
    Rgba,
    Yuyv,
    Nv12,
}

impl VideoFormat {
    /// Short display name of the packing.
    pub fn name(&self) -> (r: &'static str)
        ensures
            *self == VideoFormat::Rgba ==> r@ == "RGBA"@,
            *self == VideoFormat::Yuyv ==> r@ == "YUYV"@,
            *self == VideoFormat::Nv12 ==> r@ == "NV12"@,
    {
        match self {
            VideoFormat::Rgba => "RGBA",
            VideoFormat::Yuyv => "YUYV",
            VideoFormat::Nv12 => "NV12",
        }
    }
}

#[derive(Clone, Copy, Debug, PartialEq, Eq, Structural)]
pub enum ColorMatrix {
    Bt601,
    Bt709,
    Bt2020,
}

#[derive(Clone, Copy, Debug, PartialEq, Eq, Structural)]
pub enum ColorRange {
    Limited,
    Full,
}

#[derive(Clone, Copy, Debug, PartialEq, Eq, Structural)]
pub struct ColorInfo {
    pub matrix: ColorMatrix,
    pub range: ColorRange,
}

/// Width from which a source without colorimetry is taken to be HD.
pub const HD_MIN_WIDTH: u32 = 1280;

/// Matrix assumed for a source of the given width that reports none.
pub open spec fn matrix_for_width(width: u32) -> ColorMatrix {
    if width >= HD_MIN_WIDTH {
        ColorMatrix::Bt709
    } else {
        ColorMatrix::Bt601
    }
}

impl ColorInfo {
    /// Colour information for a source that reports none: BT.709 from
    /// HD widths up, BT.601 below, limited range.
    pub fn default_for_size(width: u32) -> (r: Self)
        ensures
            r.matrix == matrix_for_width(width),
            r.range == ColorRange::Limited,
    {
        let matrix = if width >= HD_MIN_WIDTH {
            ColorMatrix::Bt709
        } else {
            ColorMatrix::Bt601
        };
        ColorInfo { matrix, range: ColorRange::Limited }
    }
}

impl Default for ColorInfo {
    fn default() -> (r: Self)
        ensures
            r.matrix == ColorMatrix::Bt709,
            r.range == ColorRange::Limited,
    {
        ColorInfo { matrix: ColorMatrix::Bt709, range: ColorRange::Limited }
    }
}

/// Pixel bytes of a frame.
#[derive(Clone, Debug)]
pub enum FrameData {
    Owned(Vec<u8>),
}

impl FrameData {
    pub open spec fn bytes(&self) -> Seq<u8> {
        match self {
            FrameData::Owned(v) => v@,
        }
    }

    pub fn as_slice(&self) -> (r: &[u8])
        ensures
            r@ == self.bytes(),
    {
        match self {
            FrameData::Owned(v) => v.as_slice(),
        }
    }
}

/// One captured frame: geometry, packing, colour and pixel bytes.
#[derive(Clone, Debug)]
pub struct VideoFrame {
    pub width: u32,
    pub height: u32,
    pub format: VideoFormat,
    /// Bytes per row of plane 0.
    pub stride: usize,
    /// Bytes per row of plane 1; 0 for single-plane formats.
    pub uv_stride: usize,
    pub color: ColorInfo,
    pub data: FrameData,
}

impl VideoFrame {
    /// A second plane is described exactly for the planar format.
    pub open spec fn well_formed(&self) -> bool {
        (self.uv_stride > 0) <==> (self.format == VideoFormat::Nv12)
    }
}

} // verus!
