//! The transform engine: resolve the resize directive to exact target
//! dimensions and drive the fixed pipeline resize → rotate →
//! flip-horizontal → flip-vertical over an image. Dimensions are pinned
//! exactly through every stage; pixel values are pinned exactly through
//! rotation and the flips, while the resampler's output values are the
//! external library's own (only their dimensions are specified).

use vstd::prelude::*;
use crate::config::{Config, ResizeOption};
use crate::picture::{
    Img,
    Grid,
    flip_h_grid,
    flip_v_grid,
    rot90_grid,
    rot180_grid,
    rot270_grid,
};

verus! {

/// `floor(d * p / 100)`, saturated at `u32::MAX`: one axis of a percentage
/// resize, computed independently per axis.
pub open spec fn pct_dim(d: nat, p: nat) -> nat {
    let v = (d * p) / 100;
    if v > u32::MAX as nat {
        u32::MAX as nat
    } else {
        v
    }
}

/// The aspect-preserving value of the derived axis: `other * target / size`
/// rounded to the nearest integer (halves up), saturated at `u32::MAX`.
pub open spec fn scaled_axis(other: nat, target: nat, size: nat) -> nat {
    let v = (2 * other * target + size) / (2 * size);
    if v > u32::MAX as nat {
        u32::MAX as nat
    } else {
        v
    }
}

/// The exact dimensions a resize directive demands of an image currently
/// `w` by `h`: an exact target; both axes floored independently by the
/// percentage; or the given axis set to its target with the other scaled
/// proportionally.
pub open spec fn resize_target(opt: ResizeOption, w: nat, h: nat) -> (nat, nat) {
    match opt {
        ResizeOption::Exact(a, b) => (a as nat, b as nat),
        ResizeOption::Percentage(p) => (pct_dim(w, p as nat), pct_dim(h, p as nat)),
        ResizeOption::Width(a) => (a as nat, scaled_axis(h, a as nat, w)),
        ResizeOption::Height(b) => (scaled_axis(w, b as nat, h), b as nat),
    }
}

/// Machine limit: the resampler's buffers must fit in memory's address
/// range — the target buffer, and the intermediate buffer of source-width
/// rows at the target height.
pub open spec fn resize_feasible(opt: ResizeOption, w: nat, h: nat) -> bool {
    let tw = resize_target(opt, w, h).0;
    let th = resize_target(opt, w, h).1;
    tw * th * 16 <= usize::MAX as nat && w * th * 16 <= usize::MAX as nat
}

/// One axis of a percentage resize, executably.
fn pct_dim_exec(d: u32, p: u32) -> (r: u32)
    ensures
        r as nat == pct_dim(d as nat, p as nat),
{
    proof {
        assert((d as int) * (p as int) <= (u32::MAX as int) * (u32::MAX as int))
            by (nonlinear_arith)
            requires
                d <= u32::MAX,
                p <= u32::MAX,
        ;
    }
    let v = (d as u64) * (p as u64) / 100;
    if v > u32::MAX as u64 {
        u32::MAX
    } else {
        v as u32
    }
}

/// The derived axis of a fixed-width or fixed-height resize, executably.
fn scaled_axis_exec(other: u32, target: u32, size: u32) -> (r: u32)
    requires
        size >= 1,
    ensures
        r as nat == scaled_axis(other as nat, target as nat, size as nat),
{
    proof {
        assert(2 * (other as int) * (target as int) <= 2 * (u32::MAX as int) * (
        u32::MAX as int)) by (nonlinear_arith)
            requires
                other <= u32::MAX,
                target <= u32::MAX,
        ;
    }
    let v = (2u128 * (other as u128) * (target as u128) + (size as u128)) / (2u128 * (
    size as u128));
    if v > u32::MAX as u128 {
        u32::MAX
    } else {
        v as u32
    }
}

/// Resolve the resize directive against the image's current dimensions and
/// resample to exactly the demanded size. The result's pixel values are
/// the resampler's; its dimensions and native format are pinned.
pub fn resize_image(img: &Img, opt: &ResizeOption) -> (r: Img)
    requires
        img.wf(),
        (opt is Width || opt is Height) ==> img.width() >= 1 && img.height() >= 1,
        resize_feasible(*opt, img.width(), img.height()),
    ensures
        r.wf(),
        r.fmt_id() == img.fmt_id(),
        r.width() == resize_target(*opt, img.width(), img.height()).0,
        r.height() == resize_target(*opt, img.width(), img.height()).1,
{
    let (w, h) = img.dims();
    let (tw, th): (u32, u32) = match *opt {
        ResizeOption::Exact(a, b) => (a, b),
        ResizeOption::Percentage(p) => (pct_dim_exec(w, p), pct_dim_exec(h, p)),
        ResizeOption::Width(a) => (a, scaled_axis_exec(h, a, w)),
        ResizeOption::Height(b) => (scaled_axis_exec(w, b, h), b),
    };
    img.resize_exact_t(tw, th)
}

/// The dimensions after the rotation stage: quarter turns swap the axes,
/// a half turn and any invalid angle (or none) keep them.
pub open spec fn rotated_dims(w: nat, h: nat, rot: Option<u32>) -> (nat, nat) {
    match rot {
        Some(a) => if a == 90 || a == 270 {
            (h, w)
        } else {
            (w, h)
        },
        None => (w, h),
    }
}

/// The dimensions after the whole pipeline: the resize target (or the
/// current dimensions), then the rotation's swap; flips change nothing.
pub open spec fn transform_dims(w: nat, h: nat, c: Config) -> (nat, nat) {
    let s1 = match c.resize {
        Some(opt) => resize_target(opt, w, h),
        None => (w, h),
    };
    rotated_dims(s1.0, s1.1, c.rotate)
}

/// The model of the rotation stage on pixels: 90 and 270 swap the axes,
/// 180 keeps them, any other angle (or none) leaves the image untouched.
pub open spec fn rotated_model(g: Grid, w: nat, rot: Option<u32>) -> (Grid, nat) {
    match rot {
        Some(a) => if a == 90 {
            (rot90_grid(g, w), g.len())
        } else if a == 180 {
            (rot180_grid(g), w)
        } else if a == 270 {
            (rot270_grid(g, w), g.len())
        } else {
            (g, w)
        },
        None => (g, w),
    }
}

/// The pixel-level model of the orientation stages (rotation, then the two
/// flips), which apply when no resize intervenes.
pub open spec fn oriented_model(g: Grid, w: nat, c: Config) -> (Grid, nat) {
    let s2 = rotated_model(g, w, c.rotate);
    let s3 = if c.flip_horizontal {
        (flip_h_grid(s2.0), s2.1)
    } else {
        s2
    };
    if c.flip_vertical {
        (flip_v_grid(s3.0), s3.1)
    } else {
        s3
    }
}

/// The configuration is feasible for this image: any resize target fits in
/// memory, and the aspect-preserving variants get a non-degenerate source.
pub open spec fn transform_ok(c: Config, img: Img) -> bool {
    match c.resize {
        Some(opt) => resize_feasible(opt, img.width(), img.height()) && ((opt is Width
            || opt is Height) ==> img.width() >= 1 && img.height() >= 1),
        None => true,
    }
}

/// Decide `transform_ok` executably, so callers outside the library can
/// test the pipeline's precondition before calling it.
pub fn transform_feasible(img: &Img, c: &Config) -> (r: bool)
    ensures
        r == transform_ok(*c, *img),
{
    let (w, h) = img.dims();
    let opt = match c.resize {
        None => {
            return true;
        },
        Some(opt) => opt,
    };
    match opt {
        ResizeOption::Width(_) | ResizeOption::Height(_) => {
            if w < 1 || h < 1 {
                return false;
            }
        },
        _ => {},
    }
    let (tw, th): (u32, u32) = match opt {
        ResizeOption::Exact(a, b) => (a, b),
        ResizeOption::Percentage(p) => (pct_dim_exec(w, p), pct_dim_exec(h, p)),
        ResizeOption::Width(a) => (a, scaled_axis_exec(h, a, w)),
        ResizeOption::Height(b) => (scaled_axis_exec(w, b, h), b),
    };
    proof {
        assert((tw as int) * (th as int) <= (u32::MAX as int) * (u32::MAX as int))
            by (nonlinear_arith)
            requires
                tw <= u32::MAX,
                th <= u32::MAX,
        ;
        assert((w as int) * (th as int) <= (u32::MAX as int) * (u32::MAX as int))
            by (nonlinear_arith)
            requires
                w <= u32::MAX,
                th <= u32::MAX,
        ;
    }
    let target_fits = (tw as u128) * (th as u128) * 16 <= usize::MAX as u128;
    let intermediate_fits = (w as u128) * (th as u128) * 16 <= usize::MAX as u128;
    target_fits && intermediate_fits
}

/// Apply the configured transform pipeline to an image. Total: the
/// result's dimensions are exactly `transform_dims`; when no resize is
/// configured its pixels are exactly the oriented input; an invalid
/// rotation angle rotates nothing (`rotation_warning` reports it).
pub fn process_image(img: Img, config: &Config) -> (r: Img)
    requires
        img.wf(),
        transform_ok(*config, img),
    ensures
        r.wf(),
        r.fmt_id() == img.fmt_id(),
        r.width() == transform_dims(img.width(), img.height(), *config).0,
        r.height() == transform_dims(img.width(), img.height(), *config).1,
        config.resize is None ==> r.pixels() == oriented_model(
            img.pixels(),
            img.width(),
            *config,
        ).0,
{
    let ghost w0 = img.width();
    let ghost h0 = img.height();
    let mut cur = img;
    if let Some(opt) = config.resize {
        cur = resize_image(&cur, &opt);
    }
    proof {
        let s1 = match config.resize {
            Some(opt) => resize_target(opt, w0, h0),
            None => (w0, h0),
        };
        assert(cur.width() == s1.0 && cur.height() == s1.1 && cur.wf());
    }
    if let Some(angle) = config.rotate {
        if angle == 90 {
            cur = cur.rotate90();
        } else if angle == 180 {
            cur = cur.rotate180();
        } else if angle == 270 {
            cur = cur.rotate270();
        }
    }
    if config.flip_horizontal {
        cur = cur.fliph();
    }
    if config.flip_vertical {
        cur = cur.flipv();
    }
    cur
}

} // verus!
