//! The picture itself: a grid of RGB pixels kept in an `image::RgbImage`.

use image::{Rgb, RgbImage};
use imageproc::drawing::draw_filled_rect_mut;
use imageproc::rect::Rect;
use vstd::prelude::*;

verus! {

/// A raster of RGB pixels, row by row from the top left. Its buffer is an
/// `image::RgbImage`, which only the functions of this module touch.
#[verifier::external_body]
#[derive(Debug)]
pub struct PixelGrid {
    image: RgbImage,
}

/// Pixels in one row of the grid.
pub uninterp spec fn grid_width(grid: PixelGrid) -> nat;

/// Rows of the grid.
pub uninterp spec fn grid_height(grid: PixelGrid) -> nat;

/// The grid's colour samples in storage order: row after row, pixel after
/// pixel, red then green then blue.
pub uninterp spec fn grid_samples(grid: PixelGrid) -> Seq<u8>;

/// What a grid is to a contract.
#[verifier::ext_equal]
pub struct GridView {
    pub width: nat,
    pub height: nat,
    pub samples: Seq<u8>,
}

impl GridView {
    /// Three samples for every pixel.
    pub open spec fn wf(self) -> bool {
        self.samples.len() == 3 * self.width * self.height
    }

    /// Where the red sample of pixel (`x`, `y`) stands among the samples.
    pub open spec fn offset(self, x: int, y: int) -> int {
        3 * (y * self.width + x)
    }

    /// The samples after pixel (`x`, `y`) has been given `color`.
    pub open spec fn put(self, x: int, y: int, color: Seq<u8>) -> GridView {
        GridView {
            samples: self.samples.update(self.offset(x, y), color[0]).update(
                self.offset(x, y) + 1,
                color[1],
            ).update(self.offset(x, y) + 2, color[2]),
            ..self
        }
    }
}

/// A buffer with room for `room` samples can hold a grid of the given size:
/// the samples of one row can be counted, and there is room for those of all
/// rows.
pub open spec fn samples_fit(width: nat, height: nat, room: nat) -> bool {
    3 * width <= usize::MAX && 3 * width * height <= room
}

impl View for PixelGrid {
    type V = GridView;

    open spec fn view(&self) -> GridView {
        GridView {
            width: grid_width(*self),
            height: grid_height(*self),
            samples: grid_samples(*self),
        }
    }
}

/// `image::RgbImage::new`: an image of the given size with every sample zero.
/// It panics where the number of samples in one row does not fit a `usize`, or
/// that of all samples is more than a vector holds, which is `isize::MAX`.
#[verifier::external_body]
fn image_new(width: u32, height: u32) -> (grid: PixelGrid)
    requires
        samples_fit(width as nat, height as nat, isize::MAX as nat),
    ensures
        grid_width(grid) == width,
        grid_height(grid) == height,
        grid_samples(grid) == Seq::new((3 * width * height) as nat, |i: int| 0u8),
{
    PixelGrid { image: RgbImage::new(width, height) }
}

/// `image::RgbImage::dimensions`: width and height. The buffer behind them
/// holds three samples for each pixel.
#[verifier::external_body]
fn image_dimensions(grid: &PixelGrid) -> (d: (u32, u32))
    ensures
        d.0 == grid_width(*grid),
        d.1 == grid_height(*grid),
        grid_samples(*grid).len() == 3 * d.0 * d.1,
        3 * d.0 * d.1 <= usize::MAX,
{
    grid.image.dimensions()
}

/// `image::RgbImage::get_pixel`: the three samples of the pixel at (`x`, `y`).
/// It panics on a place outside the image.
#[verifier::external_body]
fn image_get_pixel(grid: &PixelGrid, x: u32, y: u32) -> (color: [u8; 3])
    requires
        x < grid_width(*grid),
        y < grid_height(*grid),
    ensures
        color@ == grid_samples(*grid).subrange(
            3 * (y * grid_width(*grid) + x),
            3 * (y * grid_width(*grid) + x) + 3,
        ),
{
    grid.image.get_pixel(x, y).0
}

/// `imageproc::drawing::draw_filled_rect_mut` with a rectangle of one pixel at
/// (`x`, `y`): that pixel takes `color`, all others stay. It panics on an image
/// without pixels and where a side or a coordinate overflows `i32`.
#[verifier::external_body]
fn image_draw_pixel(grid: &mut PixelGrid, x: i32, y: i32, color: [u8; 3])
    requires
        0 <= x < grid_width(*old(grid)) <= i32::MAX,
        0 <= y < grid_height(*old(grid)) <= i32::MAX,
    ensures
        grid_width(*final(grid)) == grid_width(*old(grid)),
        grid_height(*final(grid)) == grid_height(*old(grid)),
        grid_samples(*final(grid)) == old(grid)@.put(x as int, y as int, color@).samples,
{
    draw_filled_rect_mut(&mut grid.image, Rect::at(x, y).of_size(1, 1), Rgb(color));
}

/// `image::RgbImage::from_raw`: an image on the given buffer, where the number
/// of samples in one row fits a `usize` and the buffer holds three samples for
/// each pixel at least; the image's samples are the first of them.
#[verifier::external_body]
fn image_from_raw(width: u32, height: u32, samples: Vec<u8>) -> (r: Option<PixelGrid>)
    ensures
        r is Some <==> samples_fit(width as nat, height as nat, samples@.len()),
        r matches Some(grid) ==> grid_width(grid) == width && grid_height(grid) == height
            && grid_samples(grid) == samples@.take(3 * width * height),
{
    RgbImage::from_raw(width, height, samples).map(|image| PixelGrid { image })
}

/// `image::RgbImage::into_raw`: the buffer behind the image, which starts with
/// the image's samples.
#[verifier::external_body]
fn image_into_raw(grid: PixelGrid) -> (buffer: Vec<u8>)
    ensures
        grid_samples(grid) == buffer@.take(grid_samples(grid).len() as int),
        grid_samples(grid).len() <= buffer@.len(),
{
    grid.image.into_raw()
}

impl PixelGrid {
    /// A grid of the given size, every sample zero.
    pub fn new(width: u32, height: u32) -> (grid: PixelGrid)
        requires
            samples_fit(width as nat, height as nat, isize::MAX as nat),
        ensures
            grid@.width == width,
            grid@.height == height,
            grid@.samples == Seq::new((3 * width * height) as nat, |i: int| 0u8),
            grid@.wf(),
    {
        image_new(width, height)
    }

    /// A grid on the given samples, which are three for each pixel, row
    /// after row. Samples behind those that the size asks for are left out;
    /// where there are too few, or one row alone has more than a `usize`
    /// counts, there is no grid.
    pub fn from_raw(width: u32, height: u32, samples: Vec<u8>) -> (r: Option<PixelGrid>)
        ensures
            r is Some <==> samples_fit(width as nat, height as nat, samples@.len()),
            r matches Some(grid) ==> grid@.wf() && grid@.width == width && grid@.height == height
                && grid@.samples == samples@.take(3 * width * height),
    {
        image_from_raw(width, height, samples)
    }

    /// The grid's samples, three for each pixel, row after row.
    pub fn into_raw(self) -> (samples: Vec<u8>)
        ensures
            samples@ == self@.samples,
    {
        let (width, height) = image_dimensions(&self);
        let count: usize = if width == 0 || height == 0 {
            assert(3 * width * height == 0) by (nonlinear_arith)
                requires
                    width == 0 || height == 0,
            ;
            0
        } else {
            assert(3 * width <= 3 * width * height) by (nonlinear_arith)
                requires
                    height >= 1,
            ;
            3 * (width as usize) * (height as usize)
        };
        let mut buffer = image_into_raw(self);
        buffer.truncate(count);
        assert(buffer@ =~= self@.samples);
        buffer
    }

    /// Pixels in one row.
    pub fn width(&self) -> (width: u32)
        ensures
            width == self@.width,
            self@.wf(),
    {
        image_dimensions(self).0
    }

    /// Number of rows.
    pub fn height(&self) -> (height: u32)
        ensures
            height == self@.height,
            self@.wf(),
    {
        image_dimensions(self).1
    }

    /// The colour of the pixel in column `x` of row `y`.
    pub fn get_pixel(&self, x: u32, y: u32) -> (color: [u8; 3])
        requires
            x < self@.width,
            y < self@.height,
        ensures
            color@ == self@.samples.subrange(self@.offset(x as int, y as int), self@.offset(
                x as int,
                y as int,
            ) + 3),
    {
        image_get_pixel(self, x, y)
    }

    /// Gives the pixel in column `x` of row `y` the colour `color`.
    pub fn put_pixel(&mut self, x: u32, y: u32, color: [u8; 3])
        requires
            x < old(self)@.width <= i32::MAX,
            y < old(self)@.height <= i32::MAX,
        ensures
            final(self)@ == old(self)@.put(x as int, y as int, color@),
    {
        image_draw_pixel(self, x as i32, y as i32, color)
    }
}

} // verus!
