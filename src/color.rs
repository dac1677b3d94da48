use vstd::prelude::*;

use crate::types::{ColorInfo, ColorMatrix, ColorRange, matrix_for_width};

verus! {

/// An exact signed rational `num / den` handed to the shader as a float.
#[derive(Clone, Copy, Debug, PartialEq, Eq, Structural)]
pub struct Coefficient {
    pub num: i32,
    pub den: u32,
}

/// Parameters of the YUV to RGB conversion in the fragment shaders:
/// `c = (y + y_offset) * y_scale`, `r = c + m_rv * e`,
/// `g = c - m_gu * d - m_gv * e`, `b = c + m_bu * d`, with `d`, `e` the
/// centred chroma samples; `srgb_output` asks for a linear result.
#[derive(Clone, Copy, Debug, PartialEq, Eq, Structural)]
pub struct ColorParams {
    pub y_offset: Coefficient,
    pub y_scale: Coefficient,
    pub m_rv: Coefficient,
    pub m_gu: Coefficient,
    pub m_gv: Coefficient,
    pub m_bu: Coefficient,
    pub srgb_output: bool,
}

pub open spec fn coef(num: int, den: int) -> Coefficient {
    Coefficient { num: num as i32, den: den as u32 }
}

/// Luma offset and scale: limited range maps 16..235 onto 0..1.
pub open spec fn luma_terms(range: ColorRange) -> (Coefficient, Coefficient) {
    match range {
        ColorRange::Limited => (coef(-16, 255), coef(255, 219)),
        ColorRange::Full => (coef(0, 1), coef(1, 1)),
    }
}

/// The chroma coefficients `(m_rv, m_gu, m_gv, m_bu)` for each standard
/// and range, in ten-thousandths.
pub open spec fn chroma_terms(matrix: ColorMatrix, range: ColorRange) -> (
    Coefficient,
    Coefficient,
    Coefficient,
    Coefficient,
) {
    match (matrix, range) {
        (ColorMatrix::Bt709, ColorRange::Limited) => (
            coef(17930, 10000),
            coef(2130, 10000),
            coef(5330, 10000),
            coef(21120, 10000),
        ),
        (ColorMatrix::Bt2020, ColorRange::Limited) => (
            coef(16780, 10000),
            coef(1870, 10000),
            coef(6500, 10000),
            coef(21410, 10000),
        ),
        (ColorMatrix::Bt601, ColorRange::Limited) => (
            coef(15960, 10000),
            coef(3920, 10000),
            coef(8130, 10000),
            coef(20170, 10000),
        ),
        (ColorMatrix::Bt709, ColorRange::Full) => (
            coef(15750, 10000),
            coef(1870, 10000),
            coef(4680, 10000),
            coef(18560, 10000),
        ),
        (ColorMatrix::Bt2020, ColorRange::Full) => (
            coef(14746, 10000),
            coef(1645, 10000),
            coef(5714, 10000),
            coef(18814, 10000),
        ),
        (ColorMatrix::Bt601, ColorRange::Full) => (
            coef(14020, 10000),
            coef(3440, 10000),
            coef(7140, 10000),
            coef(17720, 10000),
        ),
    }
}

pub open spec fn params_for(color: ColorInfo, output_is_srgb: bool) -> ColorParams {
    let (y_offset, y_scale) = luma_terms(color.range);
    let (m_rv, m_gu, m_gv, m_bu) = chroma_terms(color.matrix, color.range);
    ColorParams { y_offset, y_scale, m_rv, m_gu, m_gv, m_bu, srgb_output: output_is_srgb }
}

fn c(num: i32, den: u32) -> (r: Coefficient)
    ensures
        r == coef(num as int, den as int),
{
    Coefficient { num, den }
}

/// The shader parameters for a frame's colour information.
pub fn color_params_from_info(color: ColorInfo, output_is_srgb: bool) -> (r: ColorParams)
    ensures
        r == params_for(color, output_is_srgb),
{
    let (y_offset, y_scale) = match color.range {
        ColorRange::Limited => (c(-16, 255), c(255, 219)),
        ColorRange::Full => (c(0, 1), c(1, 1)),
    };
    let (m_rv, m_gu, m_gv, m_bu) = match (color.matrix, color.range) {
        (ColorMatrix::Bt709, ColorRange::Limited) => (
            c(17930, 10000),
            c(2130, 10000),
            c(5330, 10000),
            c(21120, 10000),
        ),
        (ColorMatrix::Bt2020, ColorRange::Limited) => (
            c(16780, 10000),
            c(1870, 10000),
            c(6500, 10000),
            c(21410, 10000),
        ),
        (ColorMatrix::Bt601, ColorRange::Limited) => (
            c(15960, 10000),
            c(3920, 10000),
            c(8130, 10000),
            c(20170, 10000),
        ),
        (ColorMatrix::Bt709, ColorRange::Full) => (
            c(15750, 10000),
            c(1870, 10000),
            c(4680, 10000),
            c(18560, 10000),
        ),
        (ColorMatrix::Bt2020, ColorRange::Full) => (
            c(14746, 10000),
            c(1645, 10000),
            c(5714, 10000),
            c(18814, 10000),
        ),
        (ColorMatrix::Bt601, ColorRange::Full) => (
            c(14020, 10000),
            c(3440, 10000),
            c(7140, 10000),
            c(17720, 10000),
        ),
    };
    ColorParams { y_offset, y_scale, m_rv, m_gu, m_gv, m_bu, srgb_output: output_is_srgb }
}

/// Range signalled by a source's colorimetry.
#[derive(Clone, Copy, Debug, PartialEq, Eq, Structural)]
pub enum SourceRange {
    Unknown,
    Full,
    Limited,
}

/// Matrix signalled by a source's colorimetry.
#[derive(Clone, Copy, Debug, PartialEq, Eq, Structural)]
pub enum SourceMatrix {
    Unknown,
    Rgb,
    Fcc,
    Bt709,
    Bt601,
    Smpte240m,
    Bt2020,
}

/// What a source's colorimetry means for the conversion: a signalled
/// value wins; otherwise the width decides the matrix, and the range is
/// full for decoded compressed sources and limited for the others.
pub open spec fn source_color(
    width: u32,
    compressed: bool,
    range: SourceRange,
    matrix: SourceMatrix,
) -> ColorInfo {
    ColorInfo {
        range: match range {
            SourceRange::Full => ColorRange::Full,
            SourceRange::Limited => ColorRange::Limited,
            SourceRange::Unknown => if compressed {
                ColorRange::Full
            } else {
                ColorRange::Limited
            },
        },
        matrix: match matrix {
            SourceMatrix::Bt709 => ColorMatrix::Bt709,
            SourceMatrix::Bt2020 => ColorMatrix::Bt2020,
            SourceMatrix::Bt601 | SourceMatrix::Fcc | SourceMatrix::Smpte240m => ColorMatrix::Bt601,
            _ => matrix_for_width(width),
        },
    }
}

/// Colour information of a frame from what its source signals.
pub fn color_info_from_source(
    width: u32,
    compressed: bool,
    range: SourceRange,
    matrix: SourceMatrix,
) -> (r: ColorInfo)
    ensures
        r == source_color(width, compressed, range, matrix),
{
    let mut out = ColorInfo::default_for_size(width);
    if compressed {
        out.range = ColorRange::Full;
    }
    out.range = match range {
        SourceRange::Full => ColorRange::Full,
        SourceRange::Limited => ColorRange::Limited,
        SourceRange::Unknown => out.range,
    };
    out.matrix = match matrix {
        SourceMatrix::Bt709 => ColorMatrix::Bt709,
        SourceMatrix::Bt2020 => ColorMatrix::Bt2020,
        SourceMatrix::Bt601 | SourceMatrix::Fcc | SourceMatrix::Smpte240m => ColorMatrix::Bt601,
        _ => out.matrix,
    };
    out
}

} // verus!
