use capture_card_gaming::modes::{
    best_choice_for_layout, collect_choices, format_rank, layout_of_fourcc, max_fps,
    negotiable_layouts, CaptureLayout, FormatChoice, Fraction, FrameInterval, FrameRate, FrameSize,
    LayoutSizes,
};
use capture_card_gaming::negotiate::{compare_choice, negotiate, rank_choices};

fn choice(layout: CaptureLayout, width: u32, height: u32, fps: u32) -> FormatChoice {
    FormatChoice { layout, width, height, fps: Some(FrameRate { frames: fps, seconds: 1 }) }
}

fn sample_set() -> Vec<FormatChoice> {
    vec![
        choice(CaptureLayout::Nv12, 1920, 1080, 60),
        choice(CaptureLayout::Yuyv, 1920, 1080, 30),
        choice(CaptureLayout::Mjpeg, 1280, 720, 60),
    ]
}

#[test]
fn largest_area_wins_without_cap() {
    let order = negotiate(&sample_set(), None);
    assert_eq!(order.len(), 3);
    assert_eq!(order[0], choice(CaptureLayout::Nv12, 1920, 1080, 60));
    assert_eq!(order[1], choice(CaptureLayout::Yuyv, 1920, 1080, 30));
    assert_eq!(order[2], choice(CaptureLayout::Mjpeg, 1280, 720, 60));
}

#[test]
fn cap_excludes_larger_modes() {
    let order = negotiate(&sample_set(), Some((1280, 720)));
    assert_eq!(order, vec![choice(CaptureLayout::Mjpeg, 1280, 720, 60)]);
}

#[test]
fn cap_that_excludes_everything_is_skipped() {
    let order = negotiate(&sample_set(), Some((640, 480)));
    assert_eq!(order.len(), 3);
    assert_eq!(order[0].layout, CaptureLayout::Nv12);
}

#[test]
fn negotiation_is_repeatable() {
    let a = negotiate(&sample_set(), Some((1920, 1080)));
    let b = negotiate(&sample_set(), Some((1920, 1080)));
    assert_eq!(a, b);
    assert_eq!(rank_choices(&a), a);
}

#[test]
fn aspect_filter_keeps_largest_ratio() {
    let set = vec![
        choice(CaptureLayout::Nv12, 1920, 1080, 30),
        choice(CaptureLayout::Yuyv, 1600, 1200, 60),
        choice(CaptureLayout::Mjpeg, 1280, 720, 60),
    ];
    let order = negotiate(&set, None);
    assert_eq!(
        order,
        vec![choice(CaptureLayout::Nv12, 1920, 1080, 30), choice(CaptureLayout::Mjpeg, 1280, 720, 60)]
    );
}

#[test]
fn close_rates_tie_and_rank_decides() {
    let a = FormatChoice {
        layout: CaptureLayout::Mjpeg,
        width: 1280,
        height: 720,
        fps: Some(FrameRate { frames: 60, seconds: 1 }),
    };
    let b = FormatChoice {
        layout: CaptureLayout::Yuyv,
        width: 1280,
        height: 720,
        fps: Some(FrameRate { frames: 60000, seconds: 1001 }),
    };
    assert!(compare_choice(&b, &a));
    assert!(!compare_choice(&a, &b));
    assert_eq!(rank_choices(&vec![a, b]), vec![b, a]);
    let c = choice(CaptureLayout::Mjpeg, 1280, 720, 30);
    assert!(compare_choice(&a, &c));
}

#[test]
fn ranks_follow_priority() {
    assert_eq!(format_rank(CaptureLayout::Nv12), 3);
    assert_eq!(format_rank(CaptureLayout::Yuyv), 2);
    assert_eq!(format_rank(CaptureLayout::Mjpeg), 1);
}

#[test]
fn fourcc_codes_map_to_layouts() {
    assert_eq!(layout_of_fourcc(*b"NV12"), Some(CaptureLayout::Nv12));
    assert_eq!(layout_of_fourcc(*b"YUYV"), Some(CaptureLayout::Yuyv));
    assert_eq!(layout_of_fourcc(*b"MJPG"), Some(CaptureLayout::Mjpeg));
    assert_eq!(layout_of_fourcc(*b"RGB3"), None);
    let listed = negotiable_layouts(&vec![*b"MJPG", *b"RGB3", *b"NV12"]);
    assert_eq!(listed, vec![CaptureLayout::Nv12, CaptureLayout::Mjpeg]);
}

#[test]
fn max_fps_takes_fastest_interval() {
    let ivs = vec![
        FrameInterval::Discrete(Fraction { numerator: 1, denominator: 30 }),
        FrameInterval::Discrete(Fraction { numerator: 0, denominator: 1 }),
        FrameInterval::Stepwise {
            min: Fraction { numerator: 1, denominator: 60 },
            max: Fraction { numerator: 1, denominator: 5 },
            step: Fraction { numerator: 1, denominator: 60 },
        },
        FrameInterval::Discrete(Fraction { numerator: 2, denominator: 120 }),
    ];
    assert_eq!(max_fps(&ivs), Some(FrameRate { frames: 60, seconds: 1 }));
    assert_eq!(max_fps(&vec![]), None);
    let zero = vec![FrameInterval::Discrete(Fraction { numerator: 0, denominator: 30 })];
    assert_eq!(max_fps(&zero), None);
}

fn size(width: u32, height: u32, fps: u32) -> FrameSize {
    FrameSize {
        width,
        height,
        intervals: vec![FrameInterval::Discrete(Fraction { numerator: 1, denominator: fps })],
    }
}

#[test]
fn best_choice_prefers_area_then_rate() {
    let sizes = vec![size(640, 480, 30), size(1280, 720, 30), size(1280, 720, 60), size(1280, 720, 60)];
    let best = best_choice_for_layout(CaptureLayout::Yuyv, &sizes);
    assert_eq!(best, Some(choice(CaptureLayout::Yuyv, 1280, 720, 60)));
    assert_eq!(best_choice_for_layout(CaptureLayout::Yuyv, &vec![]), None);
}

#[test]
fn collect_one_choice_per_layout() {
    let modes = vec![
        LayoutSizes { layout: CaptureLayout::Nv12, sizes: vec![size(1920, 1080, 60)] },
        LayoutSizes { layout: CaptureLayout::Yuyv, sizes: vec![] },
        LayoutSizes { layout: CaptureLayout::Mjpeg, sizes: vec![size(640, 480, 30), size(1280, 720, 60)] },
    ];
    let got = collect_choices(&modes);
    assert_eq!(
        got,
        vec![choice(CaptureLayout::Nv12, 1920, 1080, 60), choice(CaptureLayout::Mjpeg, 1280, 720, 60)]
    );
}
