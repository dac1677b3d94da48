use vstd::prelude::*;
use vstd::string::StringExecFns;

verus! {

/// Hardware JPEG decoders, in the order they are tried.
#[derive(Clone, Copy, Debug, PartialEq, Eq, Structural)]
pub enum HwJpegDecoder {
    Nvjpeg,
    Vaapi,
    V4l2,
    Qsv,
}

pub open spec fn decoder_element(d: HwJpegDecoder) -> Seq<char> {
    match d {
        HwJpegDecoder::Nvjpeg => "nvjpegdec"@,
        HwJpegDecoder::Vaapi => "vaapijpegdec"@,
        HwJpegDecoder::V4l2 => "v4l2jpegdec"@,
        HwJpegDecoder::Qsv => "qsvjpegdec"@,
    }
}

impl HwJpegDecoder {
    /// The element that implements the decoder.
    pub fn element(&self) -> (r: &'static str)
        ensures
            r@ == decoder_element(*self),
    {
        match self {
            HwJpegDecoder::Nvjpeg => "nvjpegdec",
            HwJpegDecoder::Vaapi => "vaapijpegdec",
            HwJpegDecoder::V4l2 => "v4l2jpegdec",
            HwJpegDecoder::Qsv => "qsvjpegdec",
        }
    }
}

/// The first decoder of the priority list whose element is installed;
/// `present` says that of NVIDIA, VA-API, V4L2 and Quick Sync in turn.
pub open spec fn first_present(present: [bool; 4]) -> Option<HwJpegDecoder> {
    if present[0] {
        Some(HwJpegDecoder::Nvjpeg)
    } else if present[1] {
        Some(HwJpegDecoder::Vaapi)
    } else if present[2] {
        Some(HwJpegDecoder::V4l2)
    } else if present[3] {
        Some(HwJpegDecoder::Qsv)
    } else {
        None
    }
}

/// Picks the hardware JPEG decoder to try first.
pub fn mjpeg_hw_decoder(present: [bool; 4]) -> (r: Option<HwJpegDecoder>)
    ensures
        r == first_present(present),
{
    if present[0] {
        Some(HwJpegDecoder::Nvjpeg)
    } else if present[1] {
        Some(HwJpegDecoder::Vaapi)
    } else if present[2] {
        Some(HwJpegDecoder::V4l2)
    } else if present[3] {
        Some(HwJpegDecoder::Qsv)
    } else {
        None
    }
}

pub open spec fn digit_char(d: int) -> char {
    if d == 0 {
        '0'
    } else if d == 1 {
        '1'
    } else if d == 2 {
        '2'
    } else if d == 3 {
        '3'
    } else if d == 4 {
        '4'
    } else if d == 5 {
        '5'
    } else if d == 6 {
        '6'
    } else if d == 7 {
        '7'
    } else if d == 8 {
        '8'
    } else {
        '9'
    }
}

/// Decimal digits of `n`, most significant first.
pub open spec fn decimal(n: nat) -> Seq<char>
    decreases n,
{
    if n < 10 {
        seq![digit_char(n as int)]
    } else {
        decimal(n / 10).push(digit_char((n % 10) as int))
    }
}

fn digit_str(d: u32) -> (r: &'static str)
    requires
        d < 10,
    ensures
        r@ == seq![digit_char(d as int)],
{
    proof {
        reveal_strlit("0");
        reveal_strlit("1");
        reveal_strlit("2");
        reveal_strlit("3");
        reveal_strlit("4");
        reveal_strlit("5");
        reveal_strlit("6");
        reveal_strlit("7");
        reveal_strlit("8");
        reveal_strlit("9");
    }
    if d == 0 {
        "0"
    } else if d == 1 {
        "1"
    } else if d == 2 {
        "2"
    } else if d == 3 {
        "3"
    } else if d == 4 {
        "4"
    } else if d == 5 {
        "5"
    } else if d == 6 {
        "6"
    } else if d == 7 {
        "7"
    } else if d == 8 {
        "8"
    } else {
        "9"
    }
}

/// Writes `n` in decimal.
pub fn decimal_string(n: u32) -> (r: String)
    ensures
        r@ == decimal(n as nat),
    decreases n,
{
    if n < 10 {
        let mut s = String::new();
        s.append(digit_str(n));
        s
    } else {
        let mut s = decimal_string(n / 10);
        s.append(digit_str(n % 10));
        s
    }
}

pub open spec fn source_desc(device: Seq<char>) -> Seq<char> {
    "v4l2src device="@ + device + " io-mode=2 do-timestamp=true"@
}

/// A one-buffer queue that drops the oldest buffer when full.
pub open spec fn queue_desc() -> Seq<char> {
    "queue leaky=downstream max-size-buffers=1 max-size-time=0 max-size-bytes=0"@
}

/// The sink the capture thread pulls decoded frames from.
pub open spec fn sink_desc() -> Seq<char> {
    "appsink name=sink max-buffers=1 drop=true sync=false async=false enable-last-sample=false"@
}

pub open spec fn caps_desc(width: u32, height: u32) -> Seq<char> {
    "video/x-raw,format=NV12,width="@ + decimal(width as nat) + ",height="@ + decimal(
        height as nat,
    )
}

pub open spec fn parse_desc(has_jpegparse: bool) -> Seq<char> {
    if has_jpegparse {
        "jpegparse ! "@
    } else {
        Seq::empty()
    }
}

/// Source, JPEG caps, optional parser, queue and decoder.
pub open spec fn head_desc(
    device: Seq<char>,
    decoder: HwJpegDecoder,
    has_jpegparse: bool,
) -> Seq<char> {
    source_desc(device) + " ! image/jpeg ! "@ + parse_desc(has_jpegparse) + queue_desc() + " ! "@
        + decoder_element(decoder)
}

/// Decoder followed by the VA-API post-processor producing NV12.
pub open spec fn postproc_variant(
    device: Seq<char>,
    width: u32,
    height: u32,
    decoder: HwJpegDecoder,
    has_jpegparse: bool,
) -> Seq<char> {
    head_desc(device, decoder, has_jpegparse) + " ! vaapipostproc format=nv12 ! "@ + caps_desc(
        width,
        height,
    ) + " ! "@ + sink_desc()
}

/// Decoder output taken as it is.
pub open spec fn direct_variant(
    device: Seq<char>,
    width: u32,
    height: u32,
    decoder: HwJpegDecoder,
    has_jpegparse: bool,
) -> Seq<char> {
    head_desc(device, decoder, has_jpegparse) + " ! "@ + queue_desc() + " ! "@ + caps_desc(
        width,
        height,
    ) + " ! "@ + sink_desc()
}

/// Decoder output converted in software.
pub open spec fn convert_variant(
    device: Seq<char>,
    width: u32,
    height: u32,
    decoder: HwJpegDecoder,
    has_jpegparse: bool,
) -> Seq<char> {
    head_desc(device, decoder, has_jpegparse) + " ! "@ + queue_desc() + " ! videoconvert ! "@
        + caps_desc(width, height) + " ! "@ + sink_desc()
}

fn head_string(device: &str, decoder: HwJpegDecoder, has_jpegparse: bool) -> (r: String)
    ensures
        r@ == head_desc(device@, decoder, has_jpegparse),
{
    let mut s = String::new();
    s.append("v4l2src device=");
    s.append(device);
    s.append(" io-mode=2 do-timestamp=true");
    s.append(" ! image/jpeg ! ");
    if has_jpegparse {
        s.append("jpegparse ! ");
    }
    s.append("queue leaky=downstream max-size-buffers=1 max-size-time=0 max-size-bytes=0");
    s.append(" ! ");
    s.append(decoder.element());
    proof {
        assert(s@ =~= head_desc(device@, decoder, has_jpegparse));
    }
    s
}

fn tail_string(s: &mut String, width: u32, height: u32)
    ensures
        final(s)@ == old(s)@ + caps_desc(width, height) + " ! "@ + sink_desc(),
{
    let w = decimal_string(width);
    let h = decimal_string(height);
    s.append("video/x-raw,format=NV12,width=");
    s.append(w.as_str());
    s.append(",height=");
    s.append(h.as_str());
    s.append(" ! ");
    s.append(
        "appsink name=sink max-buffers=1 drop=true sync=false async=false enable-last-sample=false",
    );
    proof {
        assert(final(s)@ =~= old(s)@ + caps_desc(width, height) + " ! "@ + sink_desc());
    }
}

/// The pipeline descriptions of the hardware decode path, in the order
/// they are tried: with the VA-API post-processor where that decoder and
/// element are available, then the decoder's output as it is, then with a
/// software conversion.
pub open spec fn pipeline_variants(
    device: Seq<char>,
    width: u32,
    height: u32,
    decoder: HwJpegDecoder,
    has_jpegparse: bool,
    has_postproc: bool,
) -> Seq<Seq<char>> {
    let first = if decoder == HwJpegDecoder::Vaapi && has_postproc {
        seq![postproc_variant(device, width, height, decoder, has_jpegparse)]
    } else {
        Seq::empty()
    };
    first + seq![
        direct_variant(device, width, height, decoder, has_jpegparse),
        convert_variant(device, width, height, decoder, has_jpegparse),
    ]
}

pub open spec fn views(v: Seq<String>) -> Seq<Seq<char>> {
    v.map_values(|s: String| s@)
}

/// Builds the hardware decode pipeline descriptions to try in turn.
pub fn mjpeg_pipeline_variants(
    device: &str,
    width: u32,
    height: u32,
    decoder: HwJpegDecoder,
    has_jpegparse: bool,
    has_postproc: bool,
) -> (r: Vec<String>)
    ensures
        views(r@) == pipeline_variants(device@, width, height, decoder, has_jpegparse, has_postproc),
{
    let mut variants: Vec<String> = Vec::new();
    if decoder == HwJpegDecoder::Vaapi && has_postproc {
        let mut s = head_string(device, decoder, has_jpegparse);
        s.append(" ! vaapipostproc format=nv12 ! ");
        tail_string(&mut s, width, height);
        variants.push(s);
    }
    let mut direct = head_string(device, decoder, has_jpegparse);
    direct.append(" ! ");
    direct.append("queue leaky=downstream max-size-buffers=1 max-size-time=0 max-size-bytes=0");
    direct.append(" ! ");
    tail_string(&mut direct, width, height);
    variants.push(direct);
    let mut convert = head_string(device, decoder, has_jpegparse);
    convert.append(" ! ");
    convert.append("queue leaky=downstream max-size-buffers=1 max-size-time=0 max-size-bytes=0");
    convert.append(" ! videoconvert ! ");
    tail_string(&mut convert, width, height);
    variants.push(convert);
    proof {
        assert(views(variants@) =~= pipeline_variants(
            device@,
            width,
            height,
            decoder,
            has_jpegparse,
            has_postproc,
        ));
    }
    variants
}

} // verus!
