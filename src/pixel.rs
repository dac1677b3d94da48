use vstd::prelude::*;
use vstd::arithmetic::div_mod::lemma_fundamental_div_mod_converse;
use vstd::arithmetic::mul::lemma_mul_inequality;

verus! {

pub open spec fn clamp_byte(v: int) -> u8 {
    if v < 0 {
        0
    } else if v > 255 {
        255
    } else {
        v as u8
    }
}

/// Saturates a value to the byte range.
pub fn clamp(v: i32) -> (r: u8)
    ensures
        r == clamp_byte(v as int),
{
    if v < 0 {
        0
    } else if v > 255 {
        255
    } else {
        v as u8
    }
}

/// A fixed-point sum scaled down by 256 (rounding towards minus
/// infinity) and saturated to a byte.
pub open spec fn descale(v: int) -> u8 {
    clamp_byte(v / 256)
}

/// Integer BT.601 limited-range YUV to RGB.
pub open spec fn yuv_rgb(y: u8, u: u8, v: u8) -> (u8, u8, u8) {
    let c = y - 16;
    let d = u - 128;
    let e = v - 128;
    (
        descale(298 * c + 409 * e + 128),
        descale(298 * c - 100 * d - 208 * e + 128),
        descale(298 * c + 516 * d + 128),
    )
}

fn descale_exec(v: i32) -> (r: u8)
    ensures
        r == descale(v as int),
{
    if v < 0 {
        clamp(-1)
    } else {
        clamp(v / 256)
    }
}

/// Converts one YUV sample triple to RGB.
pub fn yuv_to_rgb(y: u8, u: u8, v: u8) -> (r: (u8, u8, u8))
    ensures
        r == yuv_rgb(y, u, v),
{
    let c = y as i32 - 16;
    let d = u as i32 - 128;
    let e = v as i32 - 128;
    let r = descale_exec(298 * c + 409 * e + 128);
    let g = descale_exec(298 * c - 100 * d - 208 * e + 128);
    let b = descale_exec(298 * c + 516 * d + 128);
    (r, g, b)
}

/// Byte `k` of an RGBA pixel with the given colour and full alpha.
pub open spec fn rgba_channel(rgb: (u8, u8, u8), k: int) -> u8 {
    if k == 0 {
        rgb.0
    } else if k == 1 {
        rgb.1
    } else if k == 2 {
        rgb.2
    } else {
        255
    }
}

fn push_rgba(out: &mut Vec<u8>, rgb: (u8, u8, u8))
    ensures
        final(out)@ == old(out)@ + seq![rgb.0, rgb.1, rgb.2, 255u8],
{
    out.push(rgb.0);
    out.push(rgb.1);
    out.push(rgb.2);
    out.push(255);
}

/// Index arithmetic of a row-major RGBA image `w` pixels wide.
proof fn lemma_pixel_index(w: int, y: int, x: int, k: int)
    requires
        0 <= x < w,
        0 <= y,
        0 <= k < 4,
    ensures
        (4 * (y * w + x) + k) / 4 == y * w + x,
        (4 * (y * w + x) + k) % 4 == k,
        (y * w + x) / w == y,
        (y * w + x) % w == x,
{
    lemma_fundamental_div_mod_converse(4 * (y * w + x) + k, 4, y * w + x, k);
    lemma_fundamental_div_mod_converse(y * w + x, w, y, x);
}

/// Every byte of `out` from `from` on is `channel(j)` for its index `j`,
/// given that each pushed pixel has the right colour.
proof fn lemma_pushed_pixel(
    before: Seq<u8>,
    after: Seq<u8>,
    rgb: (u8, u8, u8),
    w: int,
    y: int,
    x: int,
)
    requires
        0 <= x < w,
        0 <= y,
        before.len() == 4 * (y * w + x),
        after == before + seq![rgb.0, rgb.1, rgb.2, 255u8],
    ensures
        after.len() == 4 * (y * w + x + 1),
        (y * w + x) / w == y,
        (y * w + x) % w == x,
        forall|j: int|
            before.len() <= j < after.len() ==> j / 4 == y * w + x && #[trigger] after[j]
                == rgba_channel(rgb, j % 4),
{
    lemma_pixel_index(w, y, x, 0);
    assert forall|j: int| before.len() <= j < after.len() implies j / 4 == y * w + x
        && #[trigger] after[j] == rgba_channel(rgb, j % 4) by {
        let k = j - 4 * (y * w + x);
        lemma_pixel_index(w, y, x, k);
        assert(j == 4 * (y * w + x) + k);
        let px = seq![rgb.0, rgb.1, rgb.2, 255u8];
        assert(after[j] == px[k]);
        assert(px[k] == rgba_channel(rgb, k));
    }
}

/// RGBA of 24-bit RGB pixels: each triple gains a full alpha byte.
pub open spec fn rgb24_byte(pixels: Seq<u8>, i: int) -> u8 {
    if i % 4 < 3 {
        pixels[3 * (i / 4) + i % 4]
    } else {
        255
    }
}

/// Expands `pixel_count` packed RGB triples to RGBA with full alpha.
pub fn rgb24_to_rgba(pixels: &[u8], pixel_count: usize) -> (r: Vec<u8>)
    requires
        3 * pixel_count <= pixels.len(),
    ensures
        r.len() == 4 * pixel_count,
        forall|i: int| 0 <= i < r.len() ==> #[trigger] r@[i] == rgb24_byte(pixels@, i),
{
    let mut out: Vec<u8> = Vec::new();
    let mut i: usize = 0;
    while i < pixel_count
        invariant
            i <= pixel_count,
            3 * pixel_count <= pixels.len(),
            out.len() == 4 * i,
            forall|j: int| 0 <= j < out.len() ==> #[trigger] out@[j] == rgb24_byte(pixels@, j),
        decreases pixel_count - i,
    {
        let s = 3 * i;
        let ghost before = out@;
        push_rgba(&mut out, (pixels[s], pixels[s + 1], pixels[s + 2]));
        proof {
            lemma_pushed_pixel(before, out@, (pixels@[s as int], pixels@[s + 1], pixels@[s + 2]), 1, i as int, 0);
            assert forall|j: int| 0 <= j < out.len() implies #[trigger] out@[j] == rgb24_byte(pixels@, j) by {
                if j >= before.len() {
                    assert((j / 4) / 1 == i);
                } else {
                    assert(out@[j] == before[j]);
                }
            }
        }
        i += 1;
    }
    out
}

/// RGBA of 8-bit grey pixels: the grey level in each colour channel.
pub open spec fn l8_byte(pixels: Seq<u8>, i: int) -> u8 {
    if i % 4 < 3 {
        pixels[i / 4]
    } else {
        255
    }
}

/// Expands `pixel_count` grey samples to RGBA with full alpha.
pub fn l8_to_rgba(pixels: &[u8], pixel_count: usize) -> (r: Vec<u8>)
    requires
        pixel_count <= pixels.len(),
        4 * pixel_count <= usize::MAX,
    ensures
        r.len() == 4 * pixel_count,
        forall|i: int| 0 <= i < r.len() ==> #[trigger] r@[i] == l8_byte(pixels@, i),
{
    let mut out: Vec<u8> = Vec::new();
    let mut i: usize = 0;
    while i < pixel_count
        invariant
            i <= pixel_count,
            pixel_count <= pixels.len(),
            4 * pixel_count <= usize::MAX,
            out.len() == 4 * i,
            forall|j: int| 0 <= j < out.len() ==> #[trigger] out@[j] == l8_byte(pixels@, j),
        decreases pixel_count - i,
    {
        let v = pixels[i];
        let ghost before = out@;
        push_rgba(&mut out, (v, v, v));
        proof {
            lemma_pushed_pixel(before, out@, (v, v, v), 1, i as int, 0);
            assert forall|j: int| 0 <= j < out.len() implies #[trigger] out@[j] == l8_byte(pixels@, j) by {
                if j >= before.len() {
                    assert((j / 4) / 1 == i);
                } else {
                    assert(out@[j] == before[j]);
                }
            }
        }
        i += 1;
    }
    out
}

/// Byte `i` of the RGBA image converted from packed YUYV rows: each pair
/// of pixels shares the chroma of its four-byte group `Y0 U Y1 V`.
pub open spec fn yuyv_byte(src: Seq<u8>, w: int, stride: int, i: int) -> u8 {
    let p = i / 4;
    let y = p / w;
    let x = p % w;
    let base = y * stride + 4 * (x / 2);
    rgba_channel(yuv_rgb(src[base + 2 * (x % 2)], src[base + 1], src[base + 3]), i % 4)
}

/// Converts a packed 4:2:2 (YUYV) image to RGBA.
pub fn yuyv_to_rgba(width: u32, height: u32, stride: usize, src: &[u8]) -> (r: Vec<u8>)
    requires
        width % 2 == 0,
        width * height * 4 <= u32::MAX,
        height > 0 ==> (height - 1) * stride + 2 * width <= src.len(),
    ensures
        r.len() == width * height * 4,
        forall|i: int|
            0 <= i < r.len() ==> #[trigger] r@[i] == yuyv_byte(src@, width as int, stride as int, i),
{
    let mut out: Vec<u8> = Vec::new();
    let w = width as usize;
    let h = height as usize;
    let mut y: usize = 0;
    while y < h
        invariant
            y <= h,
            w == width,
            h == height,
            w % 2 == 0,
            w * h * 4 <= u32::MAX,
            h > 0 ==> (h - 1) * stride + 2 * w <= src.len(),
            out.len() == 4 * (y * w),
            forall|j: int|
                0 <= j < out.len() ==> #[trigger] out@[j] == yuyv_byte(src@, w as int, stride as int, j),
        decreases h - y,
    {
        proof {
            lemma_mul_inequality(y as int, h - 1, stride as int);
        }
        let row = y * stride;
        let mut pair: usize = 0;
        while pair < w / 2
            invariant
                y < h,
                w == width,
                w % 2 == 0,
                row == y * stride,
                row + 2 * w <= src.len(),
                pair <= w / 2,
                out.len() == 4 * (y * w + 2 * pair),
                forall|j: int|
                    0 <= j < out.len() ==> #[trigger] out@[j] == yuyv_byte(
                        src@,
                        w as int,
                        stride as int,
                        j,
                    ),
            decreases w / 2 - pair,
        {
            let i = row + 4 * pair;
            let y0 = src[i];
            let u = src[i + 1];
            let y1 = src[i + 2];
            let v = src[i + 3];
            let ghost before = out@;
            push_rgba(&mut out, yuv_to_rgb(y0, u, v));
            let ghost mid = out@;
            push_rgba(&mut out, yuv_to_rgb(y1, u, v));
            proof {
                lemma_pushed_pixel(before, mid, yuv_rgb(y0, u, v), w as int, y as int, 2 * pair);
                lemma_pushed_pixel(mid, out@, yuv_rgb(y1, u, v), w as int, y as int, 2 * pair + 1);
                assert forall|j: int| 0 <= j < out.len() implies #[trigger] out@[j] == yuyv_byte(
                    src@,
                    w as int,
                    stride as int,
                    j,
                ) by {
                    if j >= mid.len() {
                        assert(out@[j] == rgba_channel(yuv_rgb(y1, u, v), j % 4));
                    } else if j >= before.len() {
                        assert(out@[j] == mid[j]);
                        assert(mid[j] == rgba_channel(yuv_rgb(y0, u, v), j % 4));
                    } else {
                        assert(out@[j] == mid[j]);
                        assert(mid[j] == before[j]);
                    }
                }
            }
            pair += 1;
        }
        proof {
            assert((y as int + 1) * w == y * w + w) by (nonlinear_arith);
        }
        y += 1;
    }
    proof {
        assert(w * h * 4 == 4 * (h * w)) by (nonlinear_arith);
    }
    out
}

/// Byte `i` of the RGBA image converted from NV12: a full-resolution
/// luma plane, then interleaved U V samples at half resolution.
pub open spec fn nv12_byte(
    src: Seq<u8>,
    w: int,
    h: int,
    y_stride: int,
    uv_stride: int,
    i: int,
) -> u8 {
    let p = i / 4;
    let y = p / w;
    let x = p % w;
    let c = y_stride * h + (y / 2) * uv_stride + 2 * (x / 2);
    rgba_channel(yuv_rgb(src[y * y_stride + x], src[c], src[c + 1]), i % 4)
}

/// Converts a planar 4:2:0 (NV12) image to RGBA.
pub fn nv12_to_rgba(
    width: u32,
    height: u32,
    y_stride: usize,
    uv_stride: usize,
    src: &[u8],
) -> (r: Vec<u8>)
    requires
        width * height * 4 <= u32::MAX,
        y_stride * height <= src.len(),
        height > 0 ==> width <= y_stride,
        height > 0 ==> y_stride * height + ((height - 1) / 2) * uv_stride + 2 * ((width + 1) / 2)
            <= src.len(),
    ensures
        r.len() == width * height * 4,
        forall|i: int|
            0 <= i < r.len() ==> #[trigger] r@[i] == nv12_byte(
                src@,
                width as int,
                height as int,
                y_stride as int,
                uv_stride as int,
                i,
            ),
{
    let mut out: Vec<u8> = Vec::new();
    let w = width as usize;
    let h = height as usize;
    let uv_base = y_stride * h;
    let mut y: usize = 0;
    while y < h
        invariant
            y <= h,
            w == width,
            h == height,
            uv_base == y_stride * h,
            w * h * 4 <= u32::MAX,
            y_stride * h <= src.len(),
            h > 0 ==> w <= y_stride,
            h > 0 ==> uv_base + ((h - 1) / 2) * uv_stride + 2 * ((w + 1) / 2) <= src.len(),
            out.len() == 4 * (y * w),
            forall|j: int|
                0 <= j < out.len() ==> #[trigger] out@[j] == nv12_byte(
                    src@,
                    w as int,
                    h as int,
                    y_stride as int,
                    uv_stride as int,
                    j,
                ),
        decreases h - y,
    {
        proof {
            lemma_mul_inequality(y as int + 1, h as int, y_stride as int);
            lemma_mul_inequality(y as int / 2, (h as int - 1) / 2, uv_stride as int);
            assert((y as int + 1) * y_stride == y * y_stride + y_stride) by (nonlinear_arith);
        }
        let y_row = y * y_stride;
        let uv_row = uv_base + (y / 2) * uv_stride;
        let mut x: usize = 0;
        while x < w
            invariant
                y < h,
                w == width,
                h == height,
                x <= w,
                y_row == y * y_stride,
                y_row + w <= src.len(),
                uv_row == y_stride * h + (y / 2) * uv_stride,
                uv_row + 2 * ((w + 1) / 2) <= src.len(),
                out.len() == 4 * (y * w + x),
                forall|j: int|
                    0 <= j < out.len() ==> #[trigger] out@[j] == nv12_byte(
                        src@,
                        w as int,
                        h as int,
                        y_stride as int,
                        uv_stride as int,
                        j,
                    ),
            decreases w - x,
        {
            let c = uv_row + 2 * (x / 2);
            let yv = src[y_row + x];
            let u = src[c];
            let v = src[c + 1];
            let ghost before = out@;
            push_rgba(&mut out, yuv_to_rgb(yv, u, v));
            proof {
                lemma_pushed_pixel(before, out@, yuv_rgb(yv, u, v), w as int, y as int, x as int);
                assert forall|j: int| 0 <= j < out.len() implies #[trigger] out@[j] == nv12_byte(
                    src@,
                    w as int,
                    h as int,
                    y_stride as int,
                    uv_stride as int,
                    j,
                ) by {
                    if j < before.len() {
                        assert(out@[j] == before[j]);
                    }
                }
            }
            x += 1;
        }
        proof {
            assert((y as int + 1) * w == y * w + w) by (nonlinear_arith);
        }
        y += 1;
    }
    proof {
        assert(w * h * 4 == 4 * (h * w)) by (nonlinear_arith);
    }
    out
}

/// Byte `i` of the RGBA image converted from BGRA rows: blue and red
/// swapped, alpha made opaque.
pub open spec fn bgra_byte(src: Seq<u8>, w: int, stride: int, i: int) -> u8 {
    let p = i / 4;
    let k = i % 4;
    let base = (p / w) * stride + 4 * (p % w);
    if k < 3 {
        src[base + 2 - k]
    } else {
        255
    }
}

/// Converts a BGRA (or BGRX) image to RGBA with full alpha.
pub fn bgra_to_rgba(width: u32, height: u32, stride: usize, src: &[u8]) -> (r: Vec<u8>)
    requires
        width * height * 4 <= u32::MAX,
        height > 0 ==> (height - 1) * stride + 4 * width <= src.len(),
    ensures
        r.len() == width * height * 4,
        forall|i: int|
            0 <= i < r.len() ==> #[trigger] r@[i] == bgra_byte(src@, width as int, stride as int, i),
{
    let mut out: Vec<u8> = Vec::new();
    let w = width as usize;
    let h = height as usize;
    let mut y: usize = 0;
    while y < h
        invariant
            y <= h,
            w == width,
            h == height,
            w * h * 4 <= u32::MAX,
            h > 0 ==> (h - 1) * stride + 4 * w <= src.len(),
            out.len() == 4 * (y * w),
            forall|j: int|
                0 <= j < out.len() ==> #[trigger] out@[j] == bgra_byte(src@, w as int, stride as int, j),
        decreases h - y,
    {
        proof {
            lemma_mul_inequality(y as int, h - 1, stride as int);
        }
        let row = y * stride;
        let mut x: usize = 0;
        while x < w
            invariant
                y < h,
                w == width,
                x <= w,
                row == y * stride,
                row + 4 * w <= src.len(),
                out.len() == 4 * (y * w + x),
                forall|j: int|
                    0 <= j < out.len() ==> #[trigger] out@[j] == bgra_byte(
                        src@,
                        w as int,
                        stride as int,
                        j,
                    ),
            decreases w - x,
        {
            let i = row + 4 * x;
            let ghost before = out@;
            push_rgba(&mut out, (src[i + 2], src[i + 1], src[i]));
            proof {
                lemma_pushed_pixel(
                    before,
                    out@,
                    (src@[i + 2], src@[i + 1], src@[i as int]),
                    w as int,
                    y as int,
                    x as int,
                );
                assert forall|j: int| 0 <= j < out.len() implies #[trigger] out@[j] == bgra_byte(
                    src@,
                    w as int,
                    stride as int,
                    j,
                ) by {
                    if j < before.len() {
                        assert(out@[j] == before[j]);
                    }
                }
            }
            x += 1;
        }
        proof {
            assert((y as int + 1) * w == y * w + w) by (nonlinear_arith);
        }
        y += 1;
    }
    proof {
        assert(w * h * 4 == 4 * (h * w)) by (nonlinear_arith);
    }
    out
}

} // verus!
