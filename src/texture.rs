use vstd::prelude::*;
use crate::image::RtwImage;

verus! {

/// The checkerboard cell `(x, y, z)` (the floors of the scaled coordinates)
/// takes the even texture when the sum of its indices is even.
pub open spec fn spec_checker_is_even(x: int, y: int, z: int) -> bool {
    (x + y + z) % 2 == 0
}

/// Whether the checkerboard cell `(x, y, z)` takes the even texture.
pub fn checker_is_even(x: i32, y: i32, z: i32) -> (r: bool)
    ensures
        r == spec_checker_is_even(x as int, y as int, z as int),
{
    let sum: i64 = x as i64 + y as i64 + z as i64;
    let half: i64 = sum / 2;
    // `sum - 2 * (sum / 2)` is zero exactly when the sum is even.
    sum - 2 * half == 0
}

/// A texture read from an image: each `(u, v)` maps to one texel.
pub struct ImageTexture {
    image: RtwImage,
}

impl ImageTexture {
    /// The image the texture reads.
    pub closed spec fn spec_image(&self) -> RtwImage {
        self.image
    }

    /// A texture over `image`.
    pub fn new(image: RtwImage) -> (r: ImageTexture)
        ensures
            r.spec_image() == image,
    {
        ImageTexture { image }
    }

    /// Width of the image in pixels (0 when it holds no data).
    pub fn width(&self) -> (r: usize)
        ensures
            r == (if self.spec_image().is_loaded() { self.spec_image().spec_width() } else { 0 }),
    {
        self.image.width()
    }

    /// Height of the image in pixels (0 when it holds no data).
    pub fn height(&self) -> (r: usize)
        ensures
            r == (if self.spec_image().is_loaded() { self.spec_image().spec_height() } else { 0 }),
    {
        self.image.height()
    }

    /// The texel at pixel `(i, j)`, clamped into the image; `None` when the image
    /// holds no data, which the texture shows as a fixed debug colour.
    pub fn texel(&self, i: usize, j: usize) -> (r: Option<[u8; 3]>)
        ensures
            !self.spec_image().is_loaded() ==> r.is_none(),
            self.spec_image().is_loaded() ==> r.is_some() && r.unwrap()@
                == self.spec_image().spec_pixel(i as int, j as int),
    {
        if self.image.height() == 0 {
            None
        } else {
            Some(self.image.pixel_data(i, j))
        }
    }
}

} // verus!
