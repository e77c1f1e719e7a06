//! The pixel-level interface to the external image library. A decoded image
//! is held behind the `Img` type; its contents are modelled as a grid of
//! RGBA pixels (a sequence of rows). The geometric primitives — flips,
//! quarter-turn rotations, resampling — are calls into the `image` crate
//! behind trusted wrappers whose contracts state, over that grid, exactly
//! what the crate's source shows.

use vstd::prelude::*;
use image::GenericImageView;

verus! {

/// One RGBA pixel, channel bytes in order.
pub type Pixel = (u8, u8, u8, u8);

/// An image's contents: rows of pixels, top row first, left pixel first.
pub type Grid = Seq<Seq<Pixel>>;

#[verifier::external_type_specification]
#[verifier::external_body]
pub struct ExDynamicImage(image::DynamicImage);

/// The pixel grid a `image::DynamicImage` holds, each pixel read as RGBA.
pub uninterp spec fn px_grid(img: image::DynamicImage) -> Grid;

/// The width of a `image::DynamicImage`'s pixel buffer: the length of every
/// row of its grid.
pub uninterp spec fn px_width(img: image::DynamicImage) -> nat;

/// The native pixel format of a `image::DynamicImage`'s buffer (its variant
/// and subpixel depth). Resampling works at this depth, which the RGBA
/// reading does not determine for deep formats, so resampled pixel values
/// are left unspecified; the format itself is tracked through every
/// operation.
pub uninterp spec fn px_fmt(img: image::DynamicImage) -> nat;

/// A grid is rectangular with width `w`.
pub open spec fn grid_wf(g: Grid, w: nat) -> bool {
    forall|y: int| 0 <= y < g.len() ==> (#[trigger] g[y]).len() == w
}

/// A row reversed left-to-right.
pub open spec fn row_rev(r: Seq<Pixel>) -> Seq<Pixel> {
    Seq::new(r.len(), |x: int| r[r.len() - 1 - x])
}

/// Horizontal mirror: every row reversed.
pub open spec fn flip_h_grid(g: Grid) -> Grid {
    Seq::new(g.len(), |y: int| row_rev(g[y]))
}

/// Vertical mirror: the rows in reverse order.
pub open spec fn flip_v_grid(g: Grid) -> Grid {
    Seq::new(g.len(), |y: int| g[g.len() - 1 - y])
}

/// Quarter turn clockwise of a grid of width `w`: the result has `w` rows,
/// and its pixel at row `y`, column `x` is the input's pixel at row
/// `h - 1 - x`, column `y`.
pub open spec fn rot90_grid(g: Grid, w: nat) -> Grid {
    Seq::new(w, |y: int| Seq::new(g.len(), |x: int| g[g.len() - 1 - x][y]))
}

/// Half turn: both mirrors composed.
pub open spec fn rot180_grid(g: Grid) -> Grid {
    flip_v_grid(flip_h_grid(g))
}

/// Quarter turn counter-clockwise of a grid of width `w`.
pub open spec fn rot270_grid(g: Grid, w: nat) -> Grid {
    Seq::new(w, |y: int| Seq::new(g.len(), |x: int| g[x][w - 1 - y]))
}

/// A decoded image, held for the library by the external image crate.
pub struct Img {
    inner: image::DynamicImage,
}

impl Img {
    /// The image's pixel grid.
    pub closed spec fn pixels(self) -> Grid {
        px_grid(self.inner)
    }

    /// The image's width in pixels.
    pub closed spec fn width(self) -> nat {
        px_width(self.inner)
    }

    /// The image's height in pixels.
    pub open spec fn height(self) -> nat {
        self.pixels().len()
    }

    /// The image's native pixel format.
    pub closed spec fn fmt_id(self) -> nat {
        px_fmt(self.inner)
    }

    /// Well-formedness: the grid is rectangular with the image's width.
    pub open spec fn wf(self) -> bool {
        grid_wf(self.pixels(), self.width())
    }

    /// Wrap a decoded image. Relies on `image::DynamicImage` holding a
    /// rectangular pixel buffer.
    #[verifier::external_body]
    pub fn from_dynamic(inner: image::DynamicImage) -> (r: Img)
        ensures
            r.pixels() == px_grid(inner),
            r.width() == px_width(inner),
            r.fmt_id() == px_fmt(inner),
            r.wf(),
    {
        Img { inner }
    }

    /// Hand the underlying image back, unchanged, for encoding.
    #[verifier::external_body]
    pub fn into_dynamic(self) -> (r: image::DynamicImage)
        ensures
            px_grid(r) == self.pixels(),
            px_width(r) == self.width(),
            px_fmt(r) == self.fmt_id(),
    {
        self.inner
    }

    /// Relies on `image::GenericImageView::dimensions` returning the pixel
    /// buffer's width and height.
    #[verifier::external_body]
    pub fn dims(&self) -> (r: (u32, u32))
        ensures
            r.0 as nat == self.width(),
            r.1 as nat == self.height(),
    {
        self.inner.dimensions()
    }

    /// Relies on `image::GenericImageView::get_pixel` returning the RGBA
    /// pixel at column `x`, row `y`; it panics out of bounds.
    #[verifier::external_body]
    fn get_pixel_t(&self, x: u32, y: u32) -> (r: Pixel)
        requires
            (x as nat) < self.width(),
            (y as nat) < self.height(),
        ensures
            r == self.pixels()[y as int][x as int],
    {
        let p = self.inner.get_pixel(x, y);
        (p.0[0], p.0[1], p.0[2], p.0[3])
    }

    /// The RGBA pixel at column `x`, row `y`.
    pub fn pixel_at(&self, x: u32, y: u32) -> (r: Pixel)
        requires
            (x as nat) < self.width(),
            (y as nat) < self.height(),
        ensures
            r == self.pixels()[y as int][x as int],
    {
        self.get_pixel_t(x, y)
    }

    /// Relies on `image::DynamicImage::fliph`: the result's pixel at
    /// `(x, y)` is the input's at `(width - 1 - x, y)`.
    #[verifier::external_body]
    fn fliph_t(&self) -> (r: Img)
        ensures
            r.pixels() == flip_h_grid(self.pixels()),
            r.width() == self.width(),
            r.fmt_id() == self.fmt_id(),
    {
        Img { inner: self.inner.fliph() }
    }

    /// Relies on `image::DynamicImage::flipv`: the result's pixel at
    /// `(x, y)` is the input's at `(x, height - 1 - y)`.
    #[verifier::external_body]
    fn flipv_t(&self) -> (r: Img)
        ensures
            r.pixels() == flip_v_grid(self.pixels()),
            r.width() == self.width(),
            r.fmt_id() == self.fmt_id(),
    {
        Img { inner: self.inner.flipv() }
    }

    /// Relies on `image::DynamicImage::rotate90` (clockwise): the result is
    /// `height` wide and `width` high, its pixel at `(x, y)` the input's at
    /// `(y, height - 1 - x)`.
    #[verifier::external_body]
    fn rotate90_t(&self) -> (r: Img)
        ensures
            r.pixels() == rot90_grid(self.pixels(), self.width()),
            r.width() == self.height(),
            r.fmt_id() == self.fmt_id(),
    {
        Img { inner: self.inner.rotate90() }
    }

    /// Relies on `image::DynamicImage::rotate180`: the result's pixel at
    /// `(x, y)` is the input's at `(width - 1 - x, height - 1 - y)`.
    #[verifier::external_body]
    fn rotate180_t(&self) -> (r: Img)
        ensures
            r.pixels() == rot180_grid(self.pixels()),
            r.width() == self.width(),
            r.fmt_id() == self.fmt_id(),
    {
        Img { inner: self.inner.rotate180() }
    }

    /// Relies on `image::DynamicImage::rotate270` (counter-clockwise): the
    /// result is `height` wide and `width` high, its pixel at `(x, y)` the
    /// input's at `(width - 1 - y, x)`.
    #[verifier::external_body]
    fn rotate270_t(&self) -> (r: Img)
        ensures
            r.pixels() == rot270_grid(self.pixels(), self.width()),
            r.width() == self.height(),
            r.fmt_id() == self.fmt_id(),
    {
        Img { inner: self.inner.rotate270() }
    }

    /// Relies on `image::DynamicImage::resize_exact` with the Lanczos
    /// filter: the result has exactly the demanded dimensions and keeps the
    /// image's native pixel format. Nothing is claimed of the resampled
    /// pixel values: resampling works at the native subpixel depth, which
    /// the RGBA reading `pixels()` does not determine for deep formats.
    /// The size bounds exclude the resampler's allocation panics, for the
    /// target buffer and for its intermediate buffer of source-width rows.
    #[verifier::external_body]
    pub(crate) fn resize_exact_t(&self, nw: u32, nh: u32) -> (r: Img)
        requires
            nw as int * nh as int * 16 <= usize::MAX as int,
            self.width() * nh as int * 16 <= usize::MAX as int,
        ensures
            r.width() == nw as nat,
            r.height() == nh as nat,
            r.fmt_id() == self.fmt_id(),
            r.wf(),
    {
        Img { inner: self.inner.resize_exact(nw, nh, image::imageops::FilterType::Lanczos3) }
    }

    /// Mirror around the vertical axis.
    pub fn fliph(&self) -> (r: Img)
        ensures
            r.pixels() == flip_h_grid(self.pixels()),
            r.width() == self.width(),
            r.height() == self.height(),
            self.wf() ==> r.wf(),
            r.fmt_id() == self.fmt_id(),
    {
        let r = self.fliph_t();
        proof {
            if self.wf() {
                assert(grid_wf(r.pixels(), r.width()));
            }
        }
        r
    }

    /// Mirror around the horizontal axis.
    pub fn flipv(&self) -> (r: Img)
        ensures
            r.pixels() == flip_v_grid(self.pixels()),
            r.width() == self.width(),
            r.height() == self.height(),
            self.wf() ==> r.wf(),
            r.fmt_id() == self.fmt_id(),
    {
        let r = self.flipv_t();
        proof {
            if self.wf() {
                assert(grid_wf(r.pixels(), r.width()));
            }
        }
        r
    }

    /// Quarter turn clockwise: width and height swap.
    pub fn rotate90(&self) -> (r: Img)
        ensures
            r.pixels() == rot90_grid(self.pixels(), self.width()),
            r.width() == self.height(),
            r.height() == self.width(),
            r.wf(),
            r.fmt_id() == self.fmt_id(),
    {
        let r = self.rotate90_t();
        proof {
            assert(grid_wf(r.pixels(), r.width()));
        }
        r
    }

    /// Half turn.
    pub fn rotate180(&self) -> (r: Img)
        ensures
            r.pixels() == rot180_grid(self.pixels()),
            r.width() == self.width(),
            r.height() == self.height(),
            self.wf() ==> r.wf(),
            r.fmt_id() == self.fmt_id(),
    {
        let r = self.rotate180_t();
        proof {
            if self.wf() {
                assert(grid_wf(r.pixels(), r.width()));
            }
        }
        r
    }

    /// Quarter turn counter-clockwise: width and height swap.
    pub fn rotate270(&self) -> (r: Img)
        ensures
            r.pixels() == rot270_grid(self.pixels(), self.width()),
            r.width() == self.height(),
            r.height() == self.width(),
            r.wf(),
            r.fmt_id() == self.fmt_id(),
    {
        let r = self.rotate270_t();
        proof {
            assert(grid_wf(r.pixels(), r.width()));
        }
        r
    }
}

/// Flipping horizontally twice is a no-op.
pub proof fn lemma_flip_h_involutive(g: Grid)
    ensures
        flip_h_grid(flip_h_grid(g)) == g,
{
    assert forall|y: int| 0 <= y < g.len() implies flip_h_grid(flip_h_grid(g))[y] == g[y] by {
        assert(row_rev(row_rev(g[y])) =~= g[y]);
    }
    assert(flip_h_grid(flip_h_grid(g)) =~= g);
}

/// Flipping vertically twice is a no-op.
pub proof fn lemma_flip_v_involutive(g: Grid)
    ensures
        flip_v_grid(flip_v_grid(g)) == g,
{
    assert(flip_v_grid(flip_v_grid(g)) =~= g);
}

/// Four quarter turns return a rectangular image to its original
/// orientation.
pub proof fn lemma_rot90_four_times(g: Grid, w: nat)
    requires
        grid_wf(g, w),
    ensures
        rot90_grid(rot90_grid(rot90_grid(rot90_grid(g, w), g.len()), w), g.len()) == g,
{
    let h = g.len();
    let r1 = rot90_grid(g, w);
    let r2 = rot90_grid(r1, h);
    let r3 = rot90_grid(r2, w);
    let r4 = rot90_grid(r3, h);
    assert forall|y: int| 0 <= y < r4.len() implies r4[y] == g[y] by {
        assert forall|x: int| 0 <= x < w implies r4[y][x] == g[y][x] by {
            assert(r4[y][x] == r3[w - 1 - x][y]);
            assert(r3[w - 1 - x][y] == r2[h - 1 - y][w - 1 - x]);
            assert(r2[h - 1 - y][w - 1 - x] == r1[w - 1 - (w - 1 - x)][h - 1 - y]);
            assert(r1[x][h - 1 - y] == g[h - 1 - (h - 1 - y)][x]);
        }
        assert(r4[y] =~= g[y]);
    }
    assert(r4 =~= g);
}

/// A quarter turn one way undoes a quarter turn the other way.
pub proof fn lemma_rot90_rot270(g: Grid, w: nat)
    requires
        grid_wf(g, w),
    ensures
        rot270_grid(rot90_grid(g, w), g.len()) == g,
{
    let h = g.len();
    let r1 = rot90_grid(g, w);
    let r2 = rot270_grid(r1, h);
    assert forall|y: int| 0 <= y < r2.len() implies r2[y] == g[y] by {
        assert forall|x: int| 0 <= x < w implies r2[y][x] == g[y][x] by {
            assert(r2[y][x] == r1[x][h - 1 - y]);
            assert(r1[x][h - 1 - y] == g[h - 1 - (h - 1 - y)][x]);
        }
        assert(r2[y] =~= g[y]);
    }
    assert(r2 =~= g);
}

} // verus!
