use vstd::prelude::*;
use vstd::arithmetic::div_mod::{
    lemma_fundamental_div_mod,
    lemma_fundamental_div_mod_converse,
    lemma_mod_multiples_basic,
    lemma_mod_pos_bound,
};
use vstd::arithmetic::mul::lemma_mul_inequality;

use crate::modes::lemma_u32_product;

verus! {

/// Row pitch `bytes_per_row` rounded up to a multiple of `align`.
pub open spec fn padded(bytes_per_row: int, align: int) -> int {
    ((bytes_per_row + align - 1) / align) * align
}

/// Byte `i` of the repacked plane: row `i / pitch` of the source where
/// the source holds it, zero elsewhere.
pub open spec fn repacked_byte(data: Seq<u8>, bytes_per_row: int, pitch: int, i: int) -> u8 {
    let y = i / pitch;
    let x = i % pitch;
    if x < bytes_per_row && y * bytes_per_row + x < data.len() {
        data[y * bytes_per_row + x]
    } else {
        0
    }
}

/// The padded pitch, computed in 64 bits so that no bound is needed.
fn padded_wide(bytes_per_row: u32, align: u32) -> (r: u64)
    requires
        align > 0,
    ensures
        r == padded(bytes_per_row as int, align as int),
        bytes_per_row <= r < bytes_per_row + align,
        (r as int) % (align as int) == 0,
{
    let n = bytes_per_row as u64 + align as u64 - 1;
    let q = n / (align as u64);
    proof {
        lemma_fundamental_div_mod(n as int, align as int);
        lemma_mod_pos_bound(n as int, align as int);
        lemma_mod_multiples_basic(q as int, align as int);
        assert(q * align == align * q) by (nonlinear_arith);
    }
    q * (align as u64)
}

/// The row pitch that the GPU copy accepts for `bytes_per_row`: the
/// next multiple of `align`.
pub fn padded_stride(bytes_per_row: u32, align: u32) -> (r: u32)
    requires
        align > 0,
        padded(bytes_per_row as int, align as int) <= u32::MAX,
    ensures
        r == padded(bytes_per_row as int, align as int),
        bytes_per_row <= r < bytes_per_row + align,
        r % align == 0,
{
    padded_wide(bytes_per_row, align) as u32
}

/// Copies `height` rows of `bytes_per_row` bytes into rows of `pitch`
/// bytes, zero-filling the padding and whatever the source lacks.
pub fn repack_rows(data: &[u8], bytes_per_row: u32, height: u32, pitch: u32) -> (r: Vec<u8>)
    requires
        bytes_per_row <= pitch,
        pitch * height <= u32::MAX,
    ensures
        r.len() == pitch * height,
        forall|i: int|
            0 <= i < r.len() ==> #[trigger] r@[i] == repacked_byte(
                data@,
                bytes_per_row as int,
                pitch as int,
                i,
            ),
{
    let mut out: Vec<u8> = Vec::new();
    let bpr = bytes_per_row as usize;
    let p = pitch as usize;
    let h = height as usize;
    let mut y: usize = 0;
    while y < h
        invariant
            y <= h,
            bpr == bytes_per_row,
            p == pitch,
            h == height,
            bpr <= p,
            p * h <= u32::MAX,
            out.len() == y * p,
            forall|j: int|
                0 <= j < out.len() ==> #[trigger] out@[j] == repacked_byte(
                    data@,
                    bpr as int,
                    p as int,
                    j,
                ),
        decreases h - y,
    {
        proof {
            lemma_mul_inequality(y as int + 1, h as int, p as int);
            lemma_mul_inequality(y as int, h as int, bpr as int);
            lemma_mul_inequality(bpr as int, p as int, h as int);
            lemma_mul_inequality(bpr as int, p as int, y as int);
            assert((y as int + 1) * p == y * p + p) by (nonlinear_arith);
            assert(y * bpr == bpr * y && y * p == p * y) by (nonlinear_arith);
        }
        let row = y * bpr;
        let mut x: usize = 0;
        while x < p
            invariant
                y < h,
                x <= p,
                bpr == bytes_per_row,
                p == pitch,
                bpr <= p,
                row == y * bpr,
                row <= y * p,
                y * p + p <= u32::MAX,
                out.len() == y * p + x,
                forall|j: int|
                    0 <= j < out.len() ==> #[trigger] out@[j] == repacked_byte(
                        data@,
                        bpr as int,
                        p as int,
                        j,
                    ),
            decreases p - x,
        {
            let b: u8 = if x < bpr && row + x < data.len() {
                data[row + x]
            } else {
                0
            };
            let ghost before = out@;
            out.push(b);
            proof {
                lemma_fundamental_div_mod_converse(y * p + x, p as int, y as int, x as int);
                assert forall|j: int| 0 <= j < out.len() implies #[trigger] out@[j] == repacked_byte(
                    data@,
                    bpr as int,
                    p as int,
                    j,
                ) by {
                    if j < before.len() {
                        assert(out@[j] == before[j]);
                    }
                }
            }
            x += 1;
        }
        y += 1;
    }
    proof {
        assert(h * p == p * h) by (nonlinear_arith);
    }
    out
}

/// How one plane goes to the GPU.
#[derive(Clone, Debug)]
pub enum TextureUpload {
    /// The frame's own bytes, with this row pitch.
    Direct { bytes_per_row: u32 },
    /// A repacked copy with an aligned row pitch.
    Repacked { data: Vec<u8>, bytes_per_row: u32 },
}

/// The source can be handed over as it is: its rows are aligned and it
/// holds all of them.
pub open spec fn copies_directly(len: int, bytes_per_row: int, height: int, align: int) -> bool {
    bytes_per_row % align == 0 && len >= bytes_per_row * height
}

/// `r` is how a plane of `height` rows of `bytes_per_row` bytes goes to a
/// copy that needs pitches in multiples of `align`: the data as it is where
/// it is aligned and complete; otherwise a copy with the padded pitch, of
/// exactly `height` padded rows, each byte the source's where the source
/// holds it and zero elsewhere.
pub open spec fn prepared(
    r: TextureUpload,
    data: Seq<u8>,
    bytes_per_row: u32,
    height: u32,
    align: u32,
) -> bool {
    if copies_directly(data.len() as int, bytes_per_row as int, height as int, align as int) {
        r == (TextureUpload::Direct { bytes_per_row })
    } else {
        r matches TextureUpload::Repacked { data: out, bytes_per_row: pitch } && pitch == padded(
            bytes_per_row as int,
            align as int,
        ) && out.len() == pitch * height && forall|i: int|
            0 <= i < out.len() ==> #[trigger] out@[i] == repacked_byte(
                data,
                bytes_per_row as int,
                pitch as int,
                i,
            )
    }
}

/// The plane fits the copy's 32-bit sizes: a non-zero alignment, and the
/// padded pitch and the padded plane within `u32`.
pub open spec fn upload_fits(bytes_per_row: u32, height: u32, align: u32) -> bool {
    &&& align > 0
    &&& padded(bytes_per_row as int, align as int) <= u32::MAX
    &&& padded(bytes_per_row as int, align as int) * height <= u32::MAX
}

/// Prepares a plane for the copy whatever its sizes: `None` exactly where
/// they do not fit 32 bits, else what `prepare_upload` gives. No input
/// makes it panic or read past the end of `data`.
pub fn plan_upload(data: &[u8], bytes_per_row: u32, height: u32, align: u32) -> (r: Option<
    TextureUpload,
>)
    ensures
        r is None <==> !upload_fits(bytes_per_row, height, align),
        r matches Some(u) ==> prepared(u, data@, bytes_per_row, height, align),
{
    if align == 0 {
        return None;
    }
    let pitch = padded_wide(bytes_per_row, align);
    if pitch > u32::MAX as u64 {
        return None;
    }
    proof {
        lemma_u32_product(pitch as u32, height);
    }
    if pitch * (height as u64) > u32::MAX as u64 {
        return None;
    }
    Some(prepare_upload(data, bytes_per_row, height, align))
}

/// Prepares a plane of `height` rows for a GPU copy that needs row
/// pitches in multiples of `align`: aligned and complete data goes as it
/// is; otherwise it is repacked into aligned rows, missing bytes zero.
pub fn prepare_upload(data: &[u8], bytes_per_row: u32, height: u32, align: u32) -> (r:
    TextureUpload)
    requires
        align > 0,
        padded(bytes_per_row as int, align as int) <= u32::MAX,
        padded(bytes_per_row as int, align as int) * height <= u32::MAX,
    ensures
        prepared(r, data@, bytes_per_row, height, align),
{
    let pitch = padded_stride(bytes_per_row, align);
    proof {
        lemma_mul_inequality(bytes_per_row as int, pitch as int, height as int);
    }
    let expected = (bytes_per_row as usize) * (height as usize);
    if bytes_per_row % align == 0 && data.len() >= expected {
        TextureUpload::Direct { bytes_per_row }
    } else {
        let out = repack_rows(data, bytes_per_row, height, pitch);
        TextureUpload::Repacked { data: out, bytes_per_row: pitch }
    }
}

/// Byte spans of the two planes of an NV12 frame within its data.
#[derive(Clone, Copy, Debug, PartialEq, Eq, Structural)]
pub struct PlaneSpans {
    pub y_len: usize,
    pub uv_start: usize,
    pub uv_len: usize,
}

pub open spec fn half_up(n: int) -> int {
    (n + 1) / 2
}

/// Splits `len` bytes of NV12 data into the luma plane (`stride` by
/// `height`) and the chroma plane that follows (`uv_stride` by half the
/// height, rounded up), each cut short where the data ends.
pub fn nv12_planes(stride: usize, height: u32, uv_stride: usize, len: usize) -> (r: PlaneSpans)
    requires
        stride * height <= usize::MAX,
        uv_stride * half_up(height as int) <= usize::MAX,
    ensures
        r.y_len == if stride * height <= len {
            stride * height
        } else {
            len as int
        },
        r.uv_start == r.y_len,
        r.uv_len == if uv_stride * half_up(height as int) <= len - r.y_len {
            uv_stride * half_up(height as int)
        } else {
            len - r.y_len
        },
        r.uv_start + r.uv_len <= len,
{
    let y_full = stride * (height as usize);
    let y_len = if y_full <= len {
        y_full
    } else {
        len
    };
    let uv_height = height / 2 + height % 2;
    assert(uv_height == half_up(height as int));
    let uv_full = uv_stride * (uv_height as usize);
    let rest = len - y_len;
    let uv_len = if uv_full <= rest {
        uv_full
    } else {
        rest
    };
    PlaneSpans { y_len, uv_start: y_len, uv_len }
}

} // verus!
