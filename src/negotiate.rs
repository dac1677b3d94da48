use vstd::prelude::*;

use crate::modes::{
    area, faster, format_rank, mul_wide, rank_of, rate_above, rate_or_zero, zero_if_none,
    FormatChoice, FrameRate,
};

verus! {

/// Index of the last candidate of largest area.
pub open spec fn last_largest(s: Seq<FormatChoice>) -> int
    decreases s.len(),
{
    if s.len() <= 1 {
        0
    } else {
        let i = last_largest(s.drop_last());
        if area(s.last()) >= area(s[i]) {
            s.len() - 1
        } else {
            i
        }
    }
}

pub open spec fn abs_diff(a: int, b: int) -> int {
    if a >= b {
        a - b
    } else {
        b - a
    }
}

/// The aspect ratios of `c` and `p` differ by less than 0.02.
pub open spec fn aspect_close(c: FormatChoice, p: FormatChoice) -> bool {
    50 * abs_diff(c.width * p.height, p.width * c.height) < c.height * p.height
}

/// The candidates whose aspect ratio is close to that of `p`, in order.
pub open spec fn keep_close(s: Seq<FormatChoice>, p: FormatChoice) -> Seq<FormatChoice>
    decreases s.len(),
{
    if s.len() == 0 {
        s
    } else if aspect_close(s.last(), p) {
        keep_close(s.drop_last(), p).push(s.last())
    } else {
        keep_close(s.drop_last(), p)
    }
}

/// The candidates with the aspect ratio of the largest one, or all of
/// them where none has it.
pub open spec fn aspect_filtered(s: Seq<FormatChoice>) -> Seq<FormatChoice> {
    if s.len() == 0 {
        s
    } else {
        let kept = keep_close(s, s[last_largest(s)]);
        if kept.len() > 0 {
            kept
        } else {
            s
        }
    }
}

pub open spec fn fits(c: FormatChoice, max_w: u32, max_h: u32) -> bool {
    c.width <= max_w && c.height <= max_h
}

/// The candidates within `max_w` x `max_h`, in order.
pub open spec fn keep_fitting(s: Seq<FormatChoice>, max_w: u32, max_h: u32) -> Seq<FormatChoice>
    decreases s.len(),
{
    if s.len() == 0 {
        s
    } else if fits(s.last(), max_w, max_h) {
        keep_fitting(s.drop_last(), max_w, max_h).push(s.last())
    } else {
        keep_fitting(s.drop_last(), max_w, max_h)
    }
}

/// The candidates within the cap, or all of them where none is.
pub open spec fn cap_filtered(s: Seq<FormatChoice>, cap: Option<(u32, u32)>) -> Seq<FormatChoice> {
    match cap {
        None => s,
        Some((w, h)) => {
            let kept = keep_fitting(s, w, h);
            if kept.len() > 0 {
                kept
            } else {
                s
            }
        },
    }
}

/// The two rates differ by more than 0.1 frames per second.
pub open spec fn rates_differ(a: FrameRate, b: FrameRate) -> bool {
    10 * abs_diff(a.frames * b.seconds, b.frames * a.seconds) > a.seconds * b.seconds
}

/// `a` goes before `b`: larger area; at equal area the higher rate where
/// the rates differ by more than 0.1; else the higher layout priority.
pub open spec fn ranks_above(a: FormatChoice, b: FormatChoice) -> bool {
    if area(a) != area(b) {
        area(a) > area(b)
    } else {
        let fa = rate_or_zero(a.fps);
        let fb = rate_or_zero(b.fps);
        if rates_differ(fa, fb) {
            rate_above(fa, fb)
        } else {
            rank_of(a.layout) > rank_of(b.layout)
        }
    }
}

/// Where `x` lands when inserted into `s` from the back: it passes every
/// candidate it ranks above.
pub open spec fn insertion_point(s: Seq<FormatChoice>, x: FormatChoice) -> int
    decreases s.len(),
{
    if s.len() > 0 && ranks_above(x, s.last()) {
        insertion_point(s.drop_last(), x)
    } else {
        s.len() as int
    }
}

/// Stable insertion sort of the candidates, best first.
pub open spec fn ranked_order(s: Seq<FormatChoice>) -> Seq<FormatChoice>
    decreases s.len(),
{
    if s.len() == 0 {
        s
    } else {
        let r = ranked_order(s.drop_last());
        r.insert(insertion_point(r, s.last()), s.last())
    }
}

/// The order in which the candidates are tried on the device.
pub open spec fn negotiation_order(s: Seq<FormatChoice>, cap: Option<(u32, u32)>) -> Seq<
    FormatChoice,
> {
    ranked_order(cap_filtered(aspect_filtered(s), cap))
}

fn abs_diff_u64(a: u64, b: u64) -> (r: u64)
    ensures
        r == abs_diff(a as int, b as int),
{
    if a >= b {
        a - b
    } else {
        b - a
    }
}

fn is_aspect_close(c: &FormatChoice, p: &FormatChoice) -> (r: bool)
    ensures
        r == aspect_close(*c, *p),
{
    let x = mul_wide(c.width, p.height);
    let y = mul_wide(p.width, c.height);
    let hh = mul_wide(c.height, p.height);
    50 * (abs_diff_u64(x, y) as u128) < hh as u128
}

fn differ(a: FrameRate, b: FrameRate) -> (r: bool)
    ensures
        r == rates_differ(a, b),
{
    let x = mul_wide(a.frames, b.seconds);
    let y = mul_wide(b.frames, a.seconds);
    let ss = mul_wide(a.seconds, b.seconds);
    10 * (abs_diff_u64(x, y) as u128) > ss as u128
}

/// Whether `a` goes before `b` in the negotiation order.
pub fn compare_choice(a: &FormatChoice, b: &FormatChoice) -> (r: bool)
    ensures
        r == ranks_above(*a, *b),
{
    let area_a = mul_wide(a.width, a.height);
    let area_b = mul_wide(b.width, b.height);
    if area_a != area_b {
        area_a > area_b
    } else {
        let fa = zero_if_none(a.fps);
        let fb = zero_if_none(b.fps);
        if differ(fa, fb) {
            faster(fa, fb)
        } else {
            format_rank(a.layout) > format_rank(b.layout)
        }
    }
}

fn largest_index(s: &Vec<FormatChoice>) -> (r: usize)
    requires
        s.len() > 0,
    ensures
        r == last_largest(s@),
        r < s.len(),
{
    let mut best: usize = 0;
    let mut i: usize = 1;
    while i < s.len()
        invariant
            1 <= i <= s.len(),
            best == last_largest(s@.subrange(0, i as int)),
            best < i,
        decreases s.len() - i,
    {
        let ghost pre = s@.subrange(0, i as int + 1);
        assert(pre.drop_last() =~= s@.subrange(0, i as int));
        assert(pre[best as int] == s@[best as int]);
        if mul_wide(s[i].width, s[i].height) >= mul_wide(s[best].width, s[best].height) {
            best = i;
        }
        i += 1;
    }
    assert(s@.subrange(0, s.len() as int) =~= s@);
    best
}

fn filter_close(s: &Vec<FormatChoice>, p: &FormatChoice) -> (r: Vec<FormatChoice>)
    ensures
        r@ == keep_close(s@, *p),
{
    let mut r: Vec<FormatChoice> = Vec::new();
    let mut i: usize = 0;
    while i < s.len()
        invariant
            i <= s.len(),
            r@ == keep_close(s@.subrange(0, i as int), *p),
        decreases s.len() - i,
    {
        let ghost pre = s@.subrange(0, i as int + 1);
        assert(pre.drop_last() =~= s@.subrange(0, i as int));
        assert(pre.last() == s@[i as int]);
        if is_aspect_close(&s[i], p) {
            r.push(s[i]);
        }
        i += 1;
    }
    assert(s@.subrange(0, s.len() as int) =~= s@);
    r
}

fn filter_fitting(s: &Vec<FormatChoice>, max_w: u32, max_h: u32) -> (r: Vec<FormatChoice>)
    ensures
        r@ == keep_fitting(s@, max_w, max_h),
{
    let mut r: Vec<FormatChoice> = Vec::new();
    let mut i: usize = 0;
    while i < s.len()
        invariant
            i <= s.len(),
            r@ == keep_fitting(s@.subrange(0, i as int), max_w, max_h),
        decreases s.len() - i,
    {
        let ghost pre = s@.subrange(0, i as int + 1);
        assert(pre.drop_last() =~= s@.subrange(0, i as int));
        assert(pre.last() == s@[i as int]);
        if s[i].width <= max_w && s[i].height <= max_h {
            r.push(s[i]);
        }
        i += 1;
    }
    assert(s@.subrange(0, s.len() as int) =~= s@);
    r
}

fn insert_ranked(r: &mut Vec<FormatChoice>, x: FormatChoice)
    ensures
        final(r)@ == old(r)@.insert(insertion_point(old(r)@, x), x),
{
    let mut p: usize = r.len();
    assert(r@.subrange(0, p as int) =~= r@);
    while p > 0
        invariant
            p <= r.len(),
            insertion_point(r@, x) == insertion_point(r@.subrange(0, p as int), x),
        ensures
            insertion_point(r@, x) == p,
        decreases p,
    {
        let ghost pre = r@.subrange(0, p as int);
        assert(pre.drop_last() =~= r@.subrange(0, p as int - 1));
        assert(pre.last() == r@[p - 1]);
        if !compare_choice(&x, &r[p - 1]) {
            break;
        }
        p -= 1;
    }
    r.insert(p, x);
}

/// Orders the candidates best first (steps of a stable insertion sort).
pub fn rank_choices(s: &Vec<FormatChoice>) -> (r: Vec<FormatChoice>)
    ensures
        r@ == ranked_order(s@),
{
    let mut r: Vec<FormatChoice> = Vec::new();
    let mut i: usize = 0;
    while i < s.len()
        invariant
            i <= s.len(),
            r@ == ranked_order(s@.subrange(0, i as int)),
        decreases s.len() - i,
    {
        assert(s@.subrange(0, i as int + 1).drop_last() =~= s@.subrange(0, i as int));
        insert_ranked(&mut r, s[i]);
        i += 1;
    }
    assert(s@.subrange(0, s.len() as int) =~= s@);
    r
}

/// The candidates in the order to try them: those with the largest
/// candidate's aspect ratio, then those within `max_size`, each filter
/// skipped where it would leave nothing, best first.
pub fn negotiate(choices: &Vec<FormatChoice>, max_size: Option<(u32, u32)>) -> (r: Vec<
    FormatChoice,
>)
    ensures
        r@ == negotiation_order(choices@, max_size),
{
    let mut kept: Vec<FormatChoice> = choices.clone();
    assert(kept@ == choices@);
    if choices.len() > 0 {
        let i = largest_index(choices);
        let preferred = choices[i];
        let close = filter_close(choices, &preferred);
        if close.len() > 0 {
            kept = close;
        }
    }
    assert(kept@ == aspect_filtered(choices@));
    if let Some((max_w, max_h)) = max_size {
        let fitting = filter_fitting(&kept, max_w, max_h);
        if fitting.len() > 0 {
            kept = fitting;
        }
    }
    assert(kept@ == cap_filtered(aspect_filtered(choices@), max_size));
    rank_choices(&kept)
}

/// No candidate ranks above the one just before it.
pub open spec fn in_rank_order(s: Seq<FormatChoice>) -> bool {
    forall|i: int| 0 < i < s.len() ==> !ranks_above(#[trigger] s[i], s[i - 1])
}

proof fn lemma_ranks_above_asymmetric(a: FormatChoice, b: FormatChoice)
    ensures
        ranks_above(a, b) ==> !ranks_above(b, a),
{
    let fa = rate_or_zero(a.fps);
    let fb = rate_or_zero(b.fps);
    assert(fa.seconds * fb.seconds == fb.seconds * fa.seconds) by (nonlinear_arith);
    assert(area(a) == a.width * a.height);
}

proof fn lemma_insertion_point(r: Seq<FormatChoice>, x: FormatChoice)
    ensures
        0 <= insertion_point(r, x) <= r.len(),
        insertion_point(r, x) > 0 ==> !ranks_above(x, r[insertion_point(r, x) - 1]),
        insertion_point(r, x) < r.len() ==> ranks_above(x, r[insertion_point(r, x)]),
    decreases r.len(),
{
    if r.len() > 0 && ranks_above(x, r.last()) {
        let d = r.drop_last();
        lemma_insertion_point(d, x);
        let p = insertion_point(d, x);
        if p > 0 {
            assert(d[p - 1] == r[p - 1]);
        }
        if p < d.len() {
            assert(d[p] == r[p]);
        }
    }
}

proof fn lemma_insert_keeps_order(r: Seq<FormatChoice>, x: FormatChoice)
    requires
        in_rank_order(r),
    ensures
        in_rank_order(r.insert(insertion_point(r, x), x)),
{
    lemma_insertion_point(r, x);
    let p = insertion_point(r, x);
    let t = r.insert(p, x);
    assert forall|i: int| 0 < i < t.len() implies !ranks_above(#[trigger] t[i], t[i - 1]) by {
        if i < p {
            assert(t[i] == r[i] && t[i - 1] == r[i - 1]);
        } else if i == p {
            assert(t[i] == x && t[i - 1] == r[p - 1]);
        } else if i == p + 1 {
            assert(t[i] == r[p] && t[i - 1] == x);
            lemma_ranks_above_asymmetric(x, r[p]);
        } else {
            assert(t[i] == r[i - 1] && t[i - 1] == r[i - 2]);
        }
    }
}

/// The insertion sort leaves its output in rank order.
pub proof fn lemma_ranked_order_sorted(s: Seq<FormatChoice>)
    ensures
        in_rank_order(ranked_order(s)),
        ranked_order(s).len() == s.len(),
    decreases s.len(),
{
    if s.len() > 0 {
        lemma_ranked_order_sorted(s.drop_last());
        lemma_insert_keeps_order(ranked_order(s.drop_last()), s.last());
        lemma_insertion_point(ranked_order(s.drop_last()), s.last());
    }
}

/// Ranking a list that is already in rank order leaves it as it is.
pub proof fn lemma_ranked_order_fixes_sorted(s: Seq<FormatChoice>)
    requires
        in_rank_order(s),
    ensures
        ranked_order(s) == s,
    decreases s.len(),
{
    if s.len() > 0 {
        let d = s.drop_last();
        assert(in_rank_order(d)) by {
            assert forall|i: int| 0 < i < d.len() implies !ranks_above(#[trigger] d[i], d[i - 1]) by {
                assert(d[i] == s[i] && d[i - 1] == s[i - 1]);
            }
        }
        lemma_ranked_order_fixes_sorted(d);
        if d.len() > 0 {
            assert(!ranks_above(s[s.len() - 1], s[s.len() - 2]));
        }
        assert(insertion_point(d, s.last()) == d.len());
        assert(d.insert(d.len() as int, s.last()) =~= s);
    }
}

/// Negotiation is a function of the candidate list and the cap: the
/// same list and cap give the same order, hence the same selection, and
/// ranking that order again changes nothing.
pub proof fn lemma_negotiation_idempotent(
    a: Seq<FormatChoice>,
    b: Seq<FormatChoice>,
    cap: Option<(u32, u32)>,
)
    requires
        a == b,
    ensures
        negotiation_order(a, cap) == negotiation_order(b, cap),
        ranked_order(negotiation_order(a, cap)) == negotiation_order(a, cap),
{
    let kept = cap_filtered(aspect_filtered(a), cap);
    lemma_ranked_order_sorted(kept);
    lemma_ranked_order_fixes_sorted(ranked_order(kept));
}

} // verus!
