use vstd::prelude::*;

verus! {

/// The capture layouts that negotiation considers, by priority.
#[derive(Clone, Copy, Debug, PartialEq, Eq, Structural)]
pub enum CaptureLayout {
    /// Planar 4:2:0.
    Nv12,
    /// Packed 4:2:2.
    Yuyv,
    /// Motion JPEG.
    Mjpeg,
}

/// A frame interval of `numerator / denominator` seconds.
#[derive(Clone, Copy, Debug, PartialEq, Eq, Structural)]
pub struct Fraction {
    pub numerator: u32,
    pub denominator: u32,
}

/// What a device reports for one frame size: single intervals, or a
/// stepwise range of them.
#[derive(Clone, Copy, Debug, PartialEq, Eq, Structural)]
pub enum FrameInterval {
    Discrete(Fraction),
    Stepwise { min: Fraction, max: Fraction, step: Fraction },
}

/// A frame rate of `frames` per `seconds` seconds.
#[derive(Clone, Copy, Debug, PartialEq, Eq, Structural)]
pub struct FrameRate {
    pub frames: u32,
    pub seconds: u32,
}

/// One discrete frame size of a layout with the intervals it offers.
#[derive(Clone, Debug)]
pub struct FrameSize {
    pub width: u32,
    pub height: u32,
    pub intervals: Vec<FrameInterval>,
}

/// A candidate capture mode.
#[derive(Clone, Copy, Debug, PartialEq, Eq, Structural)]
pub struct FormatChoice {
    pub layout: CaptureLayout,
    pub width: u32,
    pub height: u32,
    pub fps: Option<FrameRate>,
}

pub open spec fn rank_of(layout: CaptureLayout) -> u8 {
    match layout {
        CaptureLayout::Nv12 => 3,
        CaptureLayout::Yuyv => 2,
        CaptureLayout::Mjpeg => 1,
    }
}

/// Priority of a layout among equally good modes.
pub fn format_rank(layout: CaptureLayout) -> (r: u8)
    ensures
        r == rank_of(layout),
{
    match layout {
        CaptureLayout::Nv12 => 3,
        CaptureLayout::Yuyv => 2,
        CaptureLayout::Mjpeg => 1,
    }
}

pub open spec fn fourcc_layout(code: [u8; 4]) -> Option<CaptureLayout> {
    if code@ == seq![78u8, 86u8, 49u8, 50u8] {
        Some(CaptureLayout::Nv12)
    } else if code@ == seq![89u8, 85u8, 89u8, 86u8] {
        Some(CaptureLayout::Yuyv)
    } else if code@ == seq![77u8, 74u8, 80u8, 71u8] {
        Some(CaptureLayout::Mjpeg)
    } else {
        None
    }
}

fn code_is(code: [u8; 4], a: u8, b: u8, c: u8, d: u8) -> (r: bool)
    ensures
        r == (code@ == seq![a, b, c, d]),
{
    let r = code[0] == a && code[1] == b && code[2] == c && code[3] == d;
    proof {
        if r {
            assert(code@ =~= seq![a, b, c, d]);
        }
    }
    r
}

/// The layout named by a four-character code (`NV12`, `YUYV`, `MJPG`).
pub fn layout_of_fourcc(code: [u8; 4]) -> (r: Option<CaptureLayout>)
    ensures
        r == fourcc_layout(code),
{
    if code_is(code, 78, 86, 49, 50) {
        Some(CaptureLayout::Nv12)
    } else if code_is(code, 89, 85, 89, 86) {
        Some(CaptureLayout::Yuyv)
    } else if code_is(code, 77, 74, 80, 71) {
        Some(CaptureLayout::Mjpeg)
    } else {
        None
    }
}

pub open spec fn listed(supported: Seq<[u8; 4]>, layout: CaptureLayout) -> bool {
    exists|i: int| 0 <= i < supported.len() && fourcc_layout(#[trigger] supported[i]) == Some(layout)
}

fn is_listed(supported: &Vec<[u8; 4]>, layout: CaptureLayout) -> (r: bool)
    ensures
        r == listed(supported@, layout),
{
    let mut i: usize = 0;
    while i < supported.len()
        invariant
            i <= supported.len(),
            forall|j: int| 0 <= j < i ==> fourcc_layout(#[trigger] supported@[j]) != Some(layout),
        decreases supported.len() - i,
    {
        if layout_of_fourcc(supported[i]) == Some(layout) {
            return true;
        }
        i += 1;
    }
    false
}

/// The layouts of the priority set that the device lists, in priority
/// order.
pub open spec fn negotiable(supported: Seq<[u8; 4]>) -> Seq<CaptureLayout> {
    let a = if listed(supported, CaptureLayout::Nv12) {
        seq![CaptureLayout::Nv12]
    } else {
        Seq::empty()
    };
    let b = if listed(supported, CaptureLayout::Yuyv) {
        seq![CaptureLayout::Yuyv]
    } else {
        Seq::empty()
    };
    let c = if listed(supported, CaptureLayout::Mjpeg) {
        seq![CaptureLayout::Mjpeg]
    } else {
        Seq::empty()
    };
    a + b + c
}

/// Which of NV12, YUYV and MJPG (in that order) the device supports.
pub fn negotiable_layouts(supported: &Vec<[u8; 4]>) -> (r: Vec<CaptureLayout>)
    ensures
        r@ == negotiable(supported@),
{
    let mut r: Vec<CaptureLayout> = Vec::new();
    if is_listed(supported, CaptureLayout::Nv12) {
        r.push(CaptureLayout::Nv12);
    }
    if is_listed(supported, CaptureLayout::Yuyv) {
        r.push(CaptureLayout::Yuyv);
    }
    if is_listed(supported, CaptureLayout::Mjpeg) {
        r.push(CaptureLayout::Mjpeg);
    }
    r
}

/// The shortest interval an entry offers.
pub open spec fn fastest(iv: FrameInterval) -> Fraction {
    match iv {
        FrameInterval::Discrete(f) => f,
        FrameInterval::Stepwise { min, .. } => min,
    }
}

pub open spec fn rate_of(f: Fraction) -> FrameRate {
    FrameRate { frames: f.denominator, seconds: f.numerator }
}

/// `a` is a strictly higher rate than `b`.
pub open spec fn rate_above(a: FrameRate, b: FrameRate) -> bool {
    a.frames * b.seconds > b.frames * a.seconds
}

/// The highest rate of the entries with a non-zero interval, the first
/// one reaching it where several do; `None` when there is no such entry.
pub open spec fn max_rate(ivs: Seq<FrameInterval>) -> Option<FrameRate>
    decreases ivs.len(),
{
    if ivs.len() == 0 {
        None
    } else {
        let before = max_rate(ivs.drop_last());
        let f = fastest(ivs.last());
        if f.numerator == 0 {
            before
        } else {
            match before {
                None => Some(rate_of(f)),
                Some(b) => if rate_above(rate_of(f), b) {
                    Some(rate_of(f))
                } else {
                    before
                },
            }
        }
    }
}

/// The product of two `u32` values fits in a `u64`.
pub(crate) proof fn lemma_u32_product(a: u32, b: u32)
    ensures
        0 <= a * b <= 0xffff_fffe_0000_0001,
{
    assert(0 <= a * b <= 0xffff_fffe_0000_0001) by (nonlinear_arith)
        requires
            0 <= a <= 0xffff_ffff,
            0 <= b <= 0xffff_ffff,
    ;
}

/// Higher-than is transitive on rates with a positive time base.
proof fn lemma_rate_above_transitive(a: FrameRate, b: FrameRate, c: FrameRate)
    requires
        a.seconds > 0,
        b.seconds > 0,
        c.seconds > 0,
        rate_above(a, b),
        rate_above(b, c),
    ensures
        rate_above(a, c),
{
    let (af, asec, bf, bs, cf, cs) = (
        a.frames as int,
        a.seconds as int,
        b.frames as int,
        b.seconds as int,
        c.frames as int,
        c.seconds as int,
    );
    assert(af * bs * cs > bf * asec * cs) by (nonlinear_arith)
        requires
            af * bs > bf * asec,
            cs > 0,
    ;
    assert(bf * cs * asec > cf * bs * asec) by (nonlinear_arith)
        requires
            bf * cs > cf * bs,
            asec > 0,
    ;
    assert(af * cs > cf * asec) by (nonlinear_arith)
        requires
            af * bs * cs > bf * asec * cs,
            bf * cs * asec > cf * bs * asec,
            bs > 0,
    ;
}

/// A reported interval that gives a rate.
pub open spec fn counts(iv: FrameInterval) -> bool {
    fastest(iv).numerator != 0
}

/// `max_rate` is the highest rate among the entries that give one, and
/// is one of them; it is missing exactly where no entry gives a rate.
pub proof fn lemma_max_rate_is_highest(ivs: Seq<FrameInterval>)
    ensures
        max_rate(ivs) is None <==> forall|j: int| 0 <= j < ivs.len() ==> !counts(#[trigger] ivs[j]),
        max_rate(ivs) matches Some(m) ==> {
            &&& m.seconds > 0
            &&& exists|j: int|
                0 <= j < ivs.len() && counts(#[trigger] ivs[j]) && rate_of(fastest(ivs[j])) == m
            &&& forall|j: int|
                0 <= j < ivs.len() && counts(#[trigger] ivs[j]) ==> !rate_above(
                    rate_of(fastest(ivs[j])),
                    m,
                )
        },
    decreases ivs.len(),
{
    if ivs.len() > 0 {
        let d = ivs.drop_last();
        lemma_max_rate_is_highest(d);
        let f = fastest(ivs.last());
        assert forall|j: int| 0 <= j < d.len() implies ivs[j] == d[j] by {}
        if f.numerator != 0 {
            match max_rate(d) {
                None => {
                    assert(counts(ivs[ivs.len() - 1]));
                },
                Some(m) => {
                    let jm = choose|j: int|
                        0 <= j < d.len() && counts(#[trigger] d[j]) && rate_of(fastest(d[j])) == m;
                    assert(ivs[jm] == d[jm]);
                    if rate_above(rate_of(f), m) {
                        assert forall|j: int|
                            0 <= j < ivs.len() && counts(#[trigger] ivs[j]) implies !rate_above(
                            rate_of(fastest(ivs[j])),
                            rate_of(f),
                        ) by {
                            if j < d.len() {
                                assert(ivs[j] == d[j]);
                                if rate_above(rate_of(fastest(ivs[j])), rate_of(f)) {
                                    lemma_rate_above_transitive(
                                        rate_of(fastest(ivs[j])),
                                        rate_of(f),
                                        m,
                                    );
                                }
                            }
                        }
                        assert(counts(ivs[ivs.len() - 1]));
                    } else {
                        assert forall|j: int|
                            0 <= j < ivs.len() && counts(#[trigger] ivs[j]) implies !rate_above(
                            rate_of(fastest(ivs[j])),
                            m,
                        ) by {
                            if j < d.len() {
                                assert(ivs[j] == d[j]);
                            }
                        }
                    }
                },
            }
        } else {
            match max_rate(d) {
                None => {},
                Some(m) => {
                    let jm = choose|j: int|
                        0 <= j < d.len() && counts(#[trigger] d[j]) && rate_of(fastest(d[j])) == m;
                    assert(ivs[jm] == d[jm]);
                    assert forall|j: int|
                        0 <= j < ivs.len() && counts(#[trigger] ivs[j]) implies !rate_above(
                        rate_of(fastest(ivs[j])),
                        m,
                    ) by {
                        if j < d.len() {
                            assert(ivs[j] == d[j]);
                        }
                    }
                },
            }
        }
    }
}

pub(crate) fn faster(a: FrameRate, b: FrameRate) -> (r: bool)
    ensures
        r == rate_above(a, b),
{
    proof {
        lemma_u32_product(a.frames, b.seconds);
        lemma_u32_product(b.frames, a.seconds);
    }
    (a.frames as u64) * (b.seconds as u64) > (b.frames as u64) * (a.seconds as u64)
}

/// The highest frame rate among the intervals a device reports for one
/// frame size.
pub fn max_fps(intervals: &Vec<FrameInterval>) -> (r: Option<FrameRate>)
    ensures
        r == max_rate(intervals@),
        r matches Some(x) ==> x.seconds > 0,
{
    let mut best: Option<FrameRate> = None;
    let mut i: usize = 0;
    while i < intervals.len()
        invariant
            i <= intervals.len(),
            best == max_rate(intervals@.subrange(0, i as int)),
            best matches Some(x) ==> x.seconds > 0,
        decreases intervals.len() - i,
    {
        assert(intervals@.subrange(0, i as int + 1).drop_last() =~= intervals@.subrange(0, i as int));
        let frac = match intervals[i] {
            FrameInterval::Discrete(f) => f,
            FrameInterval::Stepwise { min, .. } => min,
        };
        if frac.numerator != 0 {
            let fps = FrameRate { frames: frac.denominator, seconds: frac.numerator };
            let better = match best {
                None => true,
                Some(b) => faster(fps, b),
            };
            if better {
                best = Some(fps);
            }
        }
        i += 1;
    }
    assert(intervals@.subrange(0, intervals.len() as int) =~= intervals@);
    best
}

pub open spec fn area(c: FormatChoice) -> int {
    c.width * c.height
}

/// A missing rate counts as zero.
pub open spec fn rate_or_zero(r: Option<FrameRate>) -> FrameRate {
    match r {
        Some(x) => x,
        None => FrameRate { frames: 0, seconds: 1 },
    }
}

pub open spec fn choice_for(layout: CaptureLayout, size: FrameSize) -> FormatChoice {
    FormatChoice {
        layout,
        width: size.width,
        height: size.height,
        fps: max_rate(size.intervals@),
    }
}

/// `a` is a better mode than `b` of one layout: larger, or as large and
/// faster.
pub open spec fn beats_in_layout(a: FormatChoice, b: FormatChoice) -> bool {
    if area(a) != area(b) {
        area(a) > area(b)
    } else {
        rate_above(rate_or_zero(a.fps), rate_or_zero(b.fps))
    }
}

/// The best mode of one layout by (area, rate), the first one listed
/// where several tie; `None` for a layout without sizes.
pub open spec fn best_of_layout(layout: CaptureLayout, sizes: Seq<FrameSize>) -> Option<FormatChoice>
    decreases sizes.len(),
{
    if sizes.len() == 0 {
        None
    } else {
        let before = best_of_layout(layout, sizes.drop_last());
        let cand = choice_for(layout, sizes.last());
        match before {
            None => Some(cand),
            Some(cur) => if beats_in_layout(cand, cur) {
                Some(cand)
            } else {
                before
            },
        }
    }
}

proof fn lemma_choice_rate_positive(layout: CaptureLayout, size: FrameSize)
    ensures
        rate_or_zero(choice_for(layout, size).fps).seconds > 0,
{
    lemma_max_rate_is_highest(size.intervals@);
}

proof fn lemma_beats_transitive(a: FormatChoice, b: FormatChoice, c: FormatChoice)
    requires
        rate_or_zero(a.fps).seconds > 0,
        rate_or_zero(b.fps).seconds > 0,
        rate_or_zero(c.fps).seconds > 0,
        beats_in_layout(a, b),
        beats_in_layout(b, c),
    ensures
        beats_in_layout(a, c),
{
    if area(a) == area(b) && area(b) == area(c) {
        lemma_rate_above_transitive(rate_or_zero(a.fps), rate_or_zero(b.fps), rate_or_zero(c.fps));
    }
}

/// `best_of_layout` is the mode of one of the sizes, and no size gives a
/// better one; it is missing exactly for an empty size list.
pub proof fn lemma_best_of_layout_is_best(layout: CaptureLayout, sizes: Seq<FrameSize>)
    ensures
        best_of_layout(layout, sizes) is None <==> sizes.len() == 0,
        best_of_layout(layout, sizes) matches Some(b) ==> {
            &&& exists|j: int| 0 <= j < sizes.len() && b == choice_for(layout, #[trigger] sizes[j])
            &&& forall|j: int|
                0 <= j < sizes.len() ==> !beats_in_layout(choice_for(layout, #[trigger] sizes[j]), b)
        },
    decreases sizes.len(),
{
    if sizes.len() > 0 {
        let d = sizes.drop_last();
        lemma_best_of_layout_is_best(layout, d);
        let cand = choice_for(layout, sizes.last());
        lemma_choice_rate_positive(layout, sizes.last());
        assert(cand == choice_for(layout, sizes[sizes.len() - 1]));
        match best_of_layout(layout, d) {
            None => {},
            Some(cur) => {
                let jc = choose|j: int| 0 <= j < d.len() && cur == choice_for(layout, #[trigger] d[j]);
                assert(sizes[jc] == d[jc]);
                lemma_choice_rate_positive(layout, d[jc]);
                let best = best_of_layout(layout, sizes)->0;
                assert forall|j: int| 0 <= j < sizes.len() implies !beats_in_layout(
                    choice_for(layout, #[trigger] sizes[j]),
                    best,
                ) by {
                    if j < d.len() {
                        assert(sizes[j] == d[j]);
                        lemma_choice_rate_positive(layout, d[j]);
                        if beats_in_layout(cand, cur) && beats_in_layout(
                            choice_for(layout, sizes[j]),
                            cand,
                        ) {
                            lemma_beats_transitive(choice_for(layout, sizes[j]), cand, cur);
                        }
                    } else {
                        lemma_rate_above_irreflexive(rate_or_zero(cand.fps));
                    }
                }
            },
        }
    }
}

proof fn lemma_rate_above_irreflexive(a: FrameRate)
    ensures
        !rate_above(a, a),
{
}

pub open spec fn rate_ok(c: FormatChoice) -> bool {
    c.fps matches Some(x) ==> x.seconds > 0
}

/// The product of two `u32` values, computed without overflow.
pub(crate) fn mul_wide(width: u32, height: u32) -> (r: u64)
    ensures
        r == width * height,
{
    proof {
        lemma_u32_product(width, height);
    }
    (width as u64) * (height as u64)
}

pub(crate) fn zero_if_none(r: Option<FrameRate>) -> (z: FrameRate)
    ensures
        z == rate_or_zero(r),
{
    match r {
        Some(x) => x,
        None => FrameRate { frames: 0, seconds: 1 },
    }
}

/// The single best mode of one layout over the sizes the device lists.
pub fn best_choice_for_layout(layout: CaptureLayout, sizes: &Vec<FrameSize>) -> (r: Option<
    FormatChoice,
>)
    ensures
        r == best_of_layout(layout, sizes@),
        r matches Some(c) ==> rate_ok(c),
{
    let mut best: Option<FormatChoice> = None;
    let mut i: usize = 0;
    while i < sizes.len()
        invariant
            i <= sizes.len(),
            best == best_of_layout(layout, sizes@.subrange(0, i as int)),
            best matches Some(c) ==> rate_ok(c),
        decreases sizes.len() - i,
    {
        assert(sizes@.subrange(0, i as int + 1).drop_last() =~= sizes@.subrange(0, i as int));
        let size = &sizes[i];
        let fps = max_fps(&size.intervals);
        let cand = FormatChoice { layout, width: size.width, height: size.height, fps };
        let better = match best {
            None => true,
            Some(cur) => {
                let a = mul_wide(cand.width, cand.height);
                let b = mul_wide(cur.width, cur.height);
                if a != b {
                    a > b
                } else {
                    faster(zero_if_none(cand.fps), zero_if_none(cur.fps))
                }
            },
        };
        if better {
            best = Some(cand);
        }
        i += 1;
    }
    assert(sizes@.subrange(0, sizes.len() as int) =~= sizes@);
    best
}

/// A rate rounded to the nearest whole frame per second (halves up), at
/// least 1.
pub open spec fn rounded_rate(r: FrameRate) -> int {
    let v = (2 * r.frames + r.seconds) / (2 * r.seconds);
    if v < 1 {
        1
    } else {
        v
    }
}

/// The whole frame rate reported for a negotiated mode.
pub fn rounded_fps(fps: FrameRate) -> (r: u32)
    requires
        fps.seconds > 0,
    ensures
        r == rounded_rate(fps),
{
    let num = 2 * (fps.frames as u64) + fps.seconds as u64;
    let den = 2 * (fps.seconds as u64);
    let v = num / den;
    proof {
        let f = fps.frames as int;
        let s = fps.seconds as int;
        assert(2 * f + s < 2 * s * (f + 1)) by (nonlinear_arith)
            requires
                s >= 1,
                f >= 0,
        ;
        assert((2 * f + s) / (2 * s) <= f) by (nonlinear_arith)
            requires
                s >= 1,
                f >= 0,
                2 * f + s < 2 * s * (f + 1),
        ;
    }
    if v < 1 {
        1
    } else {
        v as u32
    }
}

/// The sizes a device lists for one of the negotiable layouts.
#[derive(Clone, Debug)]
pub struct LayoutSizes {
    pub layout: CaptureLayout,
    pub sizes: Vec<FrameSize>,
}

/// One candidate per layout that has any size, in the order given.
pub open spec fn candidates(modes: Seq<LayoutSizes>) -> Seq<FormatChoice>
    decreases modes.len(),
{
    if modes.len() == 0 {
        Seq::empty()
    } else {
        let before = candidates(modes.drop_last());
        match best_of_layout(modes.last().layout, modes.last().sizes@) {
            Some(c) => before.push(c),
            None => before,
        }
    }
}

pub open spec fn rates_ok(s: Seq<FormatChoice>) -> bool {
    forall|i: int| 0 <= i < s.len() ==> rate_ok(#[trigger] s[i])
}

/// The best mode of each layout the device supports.
pub fn collect_choices(modes: &Vec<LayoutSizes>) -> (r: Vec<FormatChoice>)
    ensures
        r@ == candidates(modes@),
        rates_ok(r@),
{
    let mut r: Vec<FormatChoice> = Vec::new();
    let mut i: usize = 0;
    while i < modes.len()
        invariant
            i <= modes.len(),
            r@ == candidates(modes@.subrange(0, i as int)),
            rates_ok(r@),
        decreases modes.len() - i,
    {
        assert(modes@.subrange(0, i as int + 1).drop_last() =~= modes@.subrange(0, i as int));
        let m = &modes[i];
        if let Some(c) = best_choice_for_layout(m.layout, &m.sizes) {
            r.push(c);
        }
        i += 1;
    }
    assert(modes@.subrange(0, modes.len() as int) =~= modes@);
    r
}

} // verus!
