use vstd::prelude::*;

use crate::color::{ColorParams, color_params_from_info, params_for};
use crate::modes::lemma_u32_product;
use crate::types::{ColorInfo, ColorMatrix, ColorRange, VideoFormat};

verus! {

/// Half-extents of the video quad in clip space, as exact ratios
/// `x_num / x_den` and `y_num / y_den`.
#[derive(Clone, Copy, Debug, PartialEq, Eq, Structural)]
pub struct QuadScale {
    pub x_num: u64,
    pub x_den: u64,
    pub y_num: u64,
    pub y_den: u64,
}

/// Scale pair that fits a `video_w` x `video_h` picture into a
/// `window_w` x `window_h` surface: with correction on, the axis along
/// which the window is relatively longer shrinks by the ratio of the two
/// aspect ratios; with it off the quad fills the window.
pub open spec fn fitted_scale(
    window_w: u32,
    window_h: u32,
    video_w: u32,
    video_h: u32,
    aspect_correct: bool,
) -> QuadScale {
    if !aspect_correct {
        QuadScale { x_num: 1, x_den: 1, y_num: 1, y_den: 1 }
    } else if window_w * video_h >= video_w * window_h {
        QuadScale {
            x_num: (video_w * window_h) as u64,
            x_den: (window_w * video_h) as u64,
            y_num: 1,
            y_den: 1,
        }
    } else {
        QuadScale {
            x_num: 1,
            x_den: 1,
            y_num: (window_w * video_h) as u64,
            y_den: (video_w * window_h) as u64,
        }
    }
}

/// The placement is defined: a non-empty window, and with correction on
/// a non-empty picture.
pub open spec fn placeable(
    window_w: u32,
    window_h: u32,
    video_w: u32,
    video_h: u32,
    aspect_correct: bool,
) -> bool {
    window_w > 0 && window_h > 0 && (aspect_correct ==> video_w > 0 && video_h > 0)
}

/// Letterboxed or pillarboxed quad scale; `None` where it is undefined.
/// Window aspect at least the content's: vertical scale 1 and horizontal
/// scale content aspect over window aspect; otherwise the reverse.
pub fn quad_scale(
    window_w: u32,
    window_h: u32,
    video_w: u32,
    video_h: u32,
    aspect_correct: bool,
) -> (r: Option<QuadScale>)
    ensures
        r == (if placeable(window_w, window_h, video_w, video_h, aspect_correct) {
            Some(fitted_scale(window_w, window_h, video_w, video_h, aspect_correct))
        } else {
            None
        }),
{
    if window_w == 0 || window_h == 0 {
        return None;
    }
    if !aspect_correct {
        return Some(QuadScale { x_num: 1, x_den: 1, y_num: 1, y_den: 1 });
    }
    if video_w == 0 || video_h == 0 {
        return None;
    }
    proof {
        lemma_u32_product(window_w, video_h);
        lemma_u32_product(video_w, window_h);
    }
    let window_cross = (window_w as u64) * (video_h as u64);
    let video_cross = (video_w as u64) * (window_h as u64);
    if window_cross >= video_cross {
        Some(QuadScale { x_num: video_cross, x_den: window_cross, y_num: 1, y_den: 1 })
    } else {
        Some(QuadScale { x_num: 1, x_den: 1, y_num: window_cross, y_den: video_cross })
    }
}

/// What the GPU side must do for a submitted frame.
#[derive(Clone, Copy, Debug, PartialEq, Eq, Structural)]
pub struct FrameUpdate {
    /// Textures and bind groups are rebuilt for the new size or format.
    pub recreate: bool,
    /// New quad scale to write, where the placement changed.
    pub scale: Option<QuadScale>,
    /// New shader parameters to write, where they changed.
    pub color: Option<ColorParams>,
}

/// The presentation state that decides what the GPU pipeline redoes:
/// surface size, current frame geometry and format, the aspect option
/// and the colour parameters in use.
pub struct Presenter {
    pub window_w: u32,
    pub window_h: u32,
    pub video_w: u32,
    pub video_h: u32,
    pub format: VideoFormat,
    pub aspect_correct: bool,
    pub output_is_srgb: bool,
    pub color: ColorParams,
}

impl Presenter {
    /// The quad scale for the current state, where defined.
    pub open spec fn placement(&self) -> Option<QuadScale> {
        if placeable(self.window_w, self.window_h, self.video_w, self.video_h, self.aspect_correct) {
            Some(
                fitted_scale(
                    self.window_w,
                    self.window_h,
                    self.video_w,
                    self.video_h,
                    self.aspect_correct,
                ),
            )
        } else {
            None
        }
    }

    /// A presenter for a surface of the given size, aspect correction on,
    /// no frame yet (a 1x1 RGBA placeholder, default colour).
    pub fn new(window_w: u32, window_h: u32, output_is_srgb: bool) -> (r: Self)
        ensures
            r.window_w == window_w && r.window_h == window_h,
            r.video_w == 1 && r.video_h == 1,
            r.format == VideoFormat::Rgba,
            r.aspect_correct,
            r.output_is_srgb == output_is_srgb,
            r.color == params_for(
                (ColorInfo { matrix: ColorMatrix::Bt709, range: ColorRange::Limited }),
                output_is_srgb,
            ),
    {
        let color = color_params_from_info(ColorInfo::default(), output_is_srgb);
        Presenter {
            window_w,
            window_h,
            video_w: 1,
            video_h: 1,
            format: VideoFormat::Rgba,
            aspect_correct: true,
            output_is_srgb,
            color,
        }
    }

    fn placement_exec(&self) -> (r: Option<QuadScale>)
        ensures
            r == self.placement(),
    {
        quad_scale(self.window_w, self.window_h, self.video_w, self.video_h, self.aspect_correct)
    }

    /// A new surface size; an empty one is ignored. Returns the quad scale
    /// to write where the size was taken and the placement is defined.
    pub fn resize(&mut self, width: u32, height: u32) -> (r: Option<QuadScale>)
        ensures
            width > 0 && height > 0 ==> *final(self) == (Presenter {
                window_w: width,
                window_h: height,
                ..*old(self)
            }) && r == final(self).placement(),
            !(width > 0 && height > 0) ==> *final(self) == *old(self) && r is None,
    {
        if width > 0 && height > 0 {
            self.window_w = width;
            self.window_h = height;
            self.placement_exec()
        } else {
            None
        }
    }

    /// Turns aspect correction on or off. Returns the quad scale to write
    /// where the option changed and the placement is defined; with
    /// correction off that is the full-fill scale (1, 1).
    pub fn set_aspect_correction(&mut self, enabled: bool) -> (r: Option<QuadScale>)
        ensures
            *final(self) == (Presenter { aspect_correct: enabled, ..*old(self) }),
            old(self).aspect_correct != enabled ==> r == final(self).placement(),
            old(self).aspect_correct == enabled ==> r is None,
    {
        if self.aspect_correct != enabled {
            self.aspect_correct = enabled;
            self.placement_exec()
        } else {
            None
        }
    }

    /// Takes in the geometry, format and colour of a new frame and says
    /// what must be redone: textures where size or format changed, the
    /// quad where the size changed, the shader parameters where they
    /// changed.
    pub fn submit_frame(
        &mut self,
        width: u32,
        height: u32,
        format: VideoFormat,
        color: ColorInfo,
    ) -> (r: FrameUpdate)
        ensures
            final(self).video_w == width && final(self).video_h == height,
            final(self).format == format,
            final(self).color == params_for(color, old(self).output_is_srgb),
            final(self).window_w == old(self).window_w,
            final(self).window_h == old(self).window_h,
            final(self).aspect_correct == old(self).aspect_correct,
            final(self).output_is_srgb == old(self).output_is_srgb,
            r.recreate == (old(self).video_w != width || old(self).video_h != height
                || old(self).format != format),
            r.scale == (if old(self).video_w != width || old(self).video_h != height {
                final(self).placement()
            } else {
                None
            }),
            r.color == (if params_for(color, old(self).output_is_srgb) != old(self).color {
                Some(params_for(color, old(self).output_is_srgb))
            } else {
                None
            }),
    {
        let params = color_params_from_info(color, self.output_is_srgb);
        let color_changed = params != self.color;
        self.color = params;
        let size_changed = self.video_w != width || self.video_h != height;
        let format_changed = self.format != format;
        self.video_w = width;
        self.video_h = height;
        self.format = format;
        let scale = if size_changed {
            self.placement_exec()
        } else {
            None
        };
        FrameUpdate {
            recreate: size_changed || format_changed,
            scale,
            color: if color_changed {
                Some(params)
            } else {
                None
            },
        }
    }
}

} // verus!
