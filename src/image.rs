use vstd::prelude::*;

verus! {

/// Number of bytes stored for one pixel: red, green, blue.
pub const BYTES_PER_PIXEL: usize = 3;

/// What stb_image decodes from an encoded image file forced to three 8-bit
/// channels: the packed RGB bytes, the width and the height; `None` when it
/// cannot decode the file as an 8-bit image.
pub uninterp spec fn stb_rgb8(file: Seq<u8>) -> Option<(Seq<u8>, nat, nat)>;

/// Relies on `stb_image::image::load_from_memory_with_depth` with a forced depth
/// of three and no HDR conversion: an `ImageU8` result holds `width * height * 3`
/// bytes (its source copies exactly `w * h * d` values, with `d` the forced
/// depth); any other result is a failure to decode.
#[verifier::external_body]
fn decode_rgb8(file: &[u8]) -> (r: Option<(Vec<u8>, usize, usize)>)
    ensures
        match r {
            Some((data, w, h)) => {
                &&& stb_rgb8(file@) == Some((data@, w as nat, h as nat))
                &&& data@.len() == w * h * 3
            },
            None => stb_rgb8(file@).is_none(),
        },
{
    match stb_image::image::load_from_memory_with_depth(file, BYTES_PER_PIXEL, false) {
        stb_image::image::LoadResult::ImageU8(img) => Some((img.data, img.width, img.height)),
        stb_image::image::LoadResult::ImageF32(_) => None,
        stb_image::image::LoadResult::Error(_) => None,
    }
}

/// `dir`, a slash, then `name`.
pub open spec fn joined(dir: Seq<char>, name: Seq<char>) -> Seq<char> {
    dir + seq!['/'] + name
}

/// The directory `images` reached by going `up` levels up: `images`,
/// `../images`, `../../images`, ...
pub open spec fn images_dir(up: nat) -> Seq<char>
    decreases up,
{
    if up == 0 {
        seq!['i', 'm', 'a', 'g', 'e', 's']
    } else {
        seq!['.', '.', '/'] + images_dir((up - 1) as nat)
    }
}

/// How many levels up, at most, the search for an image file goes.
pub const SEARCH_LEVELS: usize = 6;

/// The file names tried, in order, when loading the image file `name`: first in
/// the configured image directory when it is not empty, then the bare name,
/// then under `images`, `../images`, and so on up to `SEARCH_LEVELS` levels up.
pub open spec fn search_order(image_dir: Seq<char>, name: Seq<char>) -> Seq<Seq<char>> {
    let fixed = seq![name] + Seq::new(
        (SEARCH_LEVELS + 1) as nat,
        |k: int| joined(images_dir(k as nat), name),
    );
    if image_dir.len() > 0 {
        seq![joined(image_dir, name)] + fixed
    } else {
        fixed
    }
}

/// Relies on `format!("{}/{}", dir, name)`: it writes the two strings with a
/// slash between them.
#[verifier::external_body]
fn join_path(dir: &str, name: &str) -> (r: String)
    ensures
        r@ == joined(dir@, name@),
{
    format!("{}/{}", dir, name)
}

/// The paths to try, in order, for the image file `name` (see `search_order`).
pub fn image_search_paths(image_dir: &str, name: &str) -> (r: Vec<String>)
    ensures
        r@.len() == search_order(image_dir@, name@).len(),
        forall|i: int| 0 <= i < r@.len() ==> #[trigger] r@[i]@ == search_order(image_dir@, name@)[i],
{
    let mut paths: Vec<String> = Vec::new();
    if !image_dir.is_empty() {
        paths.push(join_path(image_dir, name));
    }
    paths.push(name.to_owned());
    let start: usize = paths.len();
    assert(paths@.len() == start);
    let mut dir = "images".to_owned();
    proof {
        reveal_strlit("images");
        assert(dir@ =~= images_dir(0));
    }
    let mut up: usize = 0;
    while up <= SEARCH_LEVELS
        invariant
            up <= SEARCH_LEVELS + 1,
            start == (if image_dir@.len() > 0 { 2int } else { 1int }),
            paths@.len() == start + up,
            dir@ == images_dir(up as nat),
            forall|i: int| 0 <= i < paths@.len() ==> #[trigger] paths@[i]@ == search_order(image_dir@, name@)[i],
        decreases SEARCH_LEVELS + 1 - up,
    {
        let path = join_path(dir.as_str(), name);
        paths.push(path);
        let parent = join_path("..", dir.as_str());
        proof {
            reveal_strlit("..");
            assert(parent@ =~= images_dir((up + 1) as nat));
        }
        dir = parent;
        up = up + 1;
    }
    paths
}

/// Clamps `x` into the half-open range `[low, high)`.
pub open spec fn clamp_index(x: int, low: int, high: int) -> int {
    if x < low {
        low
    } else if x < high {
        x
    } else {
        high - 1
    }
}

/// An 8-bit RGB image held in memory, row by row from the top, used as texture
/// data. An image with no data stands for one that could not be loaded.
pub struct RtwImage {
    data: Vec<u8>,
    image_width: usize,
    image_height: usize,
    bytes_per_scanline: usize,
}

impl RtwImage {
    /// The packed pixel bytes, `BYTES_PER_PIXEL` per pixel, scanline by scanline.
    pub closed spec fn bytes(&self) -> Seq<u8> {
        self.data@
    }

    /// Width in pixels of the loaded data.
    pub closed spec fn spec_width(&self) -> nat {
        self.image_width as nat
    }

    /// Height in pixels of the loaded data.
    pub closed spec fn spec_height(&self) -> nat {
        self.image_height as nat
    }

    /// Whether pixel data has been loaded.
    pub open spec fn is_loaded(&self) -> bool {
        self.bytes().len() > 0
    }

    #[verifier::type_invariant]
    spec fn inv(&self) -> bool {
        self.data@.len() > 0 ==> {
            &&& self.image_width > 0
            &&& self.image_height > 0
            &&& self.bytes_per_scanline == self.image_width * 3
            &&& self.data@.len() == self.image_height * self.bytes_per_scanline
        }
    }

    /// The first byte of pixel `(x, y)` once both coordinates are clamped into
    /// the image.
    pub open spec fn pixel_offset(&self, x: int, y: int) -> int {
        clamp_index(y, 0, self.spec_height() as int) * (self.spec_width() * 3)
            + clamp_index(x, 0, self.spec_width() as int) * 3
    }

    /// The three bytes that `pixel_data` gives for `(x, y)`: magenta when nothing
    /// is loaded, else the pixel at the clamped coordinates.
    pub open spec fn spec_pixel(&self, x: int, y: int) -> Seq<u8> {
        if !self.is_loaded() {
            seq![255u8, 0u8, 255u8]
        } else {
            self.bytes().subrange(self.pixel_offset(x, y), self.pixel_offset(x, y) + 3)
        }
    }

    /// An image with no data.
    pub fn empty() -> (r: RtwImage)
        ensures
            !r.is_loaded(),
            r.spec_width() == 0,
            r.spec_height() == 0,
    {
        RtwImage { data: Vec::new(), image_width: 0, image_height: 0, bytes_per_scanline: 0 }
    }

    /// Decodes an encoded image file (PNG, JPEG, ...) held in memory into three
    /// 8-bit channels. Returns `true` and replaces the image on success; returns
    /// `false` and leaves the image as it was when the bytes cannot be decoded.
    pub fn load(&mut self, file: &[u8]) -> (ok: bool)
        ensures
            ok == stb_rgb8(file@).is_some(),
            ok ==> ({
                let (d, w, h) = stb_rgb8(file@).unwrap();
                &&& final(self).bytes() == d
                &&& final(self).spec_width() == w
                &&& final(self).spec_height() == h
            }),
            !ok ==> final(self).bytes() == old(self).bytes()
                && final(self).spec_width() == old(self).spec_width()
                && final(self).spec_height() == old(self).spec_height(),
    {
        match decode_rgb8(file) {
            Some((data, w, h)) => {
                match Self::from_rgb8(data, w, h) {
                    Some(img) => {
                        *self = img;
                        true
                    },
                    None => false,
                }
            },
            None => false,
        }
    }

    /// The image of `width` by `height` pixels whose packed RGB bytes, row by
    /// row from the top, are `data`; `None` unless `data` holds exactly
    /// `width * height * 3` bytes.
    pub fn from_rgb8(data: Vec<u8>, width: usize, height: usize) -> (r: Option<RtwImage>)
        ensures
            r.is_some() == (data@.len() == width * height * 3),
            r matches Some(img) ==> {
                &&& img.bytes() == data@
                &&& img.spec_width() == width
                &&& img.spec_height() == height
            },
    {
        let len = data.len();
        if width == 0 || height == 0 {
            if len == 0 {
                proof {
                    assert(width * height * 3 == 0) by (nonlinear_arith)
                        requires
                            width == 0 || height == 0,
                    ;
                }
                return Some(RtwImage { data, image_width: width, image_height: height, bytes_per_scanline: 0 });
            } else {
                proof {
                    assert(width * height * 3 == 0) by (nonlinear_arith)
                        requires
                            width == 0 || height == 0,
                    ;
                }
                return None;
            }
        }
        // Both sizes are positive: check `len == height * (width * 3)` without
        // overflowing.
        let scanline_fits = width <= len / 3;
        if !scanline_fits {
            proof {
                assert(len != width * height * 3) by (nonlinear_arith)
                    requires
                        width > len as int / 3,
                        height >= 1,
                ;
            }
            return None;
        }
        let bytes_per_scanline = width * 3;
        if len % bytes_per_scanline != 0 || len / bytes_per_scanline != height {
            proof {
                if len == width * height * 3 {
                    let b = bytes_per_scanline as int;
                    assert(len == b * height) by (nonlinear_arith)
                        requires
                            b == width * 3,
                            len == width * height * 3,
                    ;
                    vstd::arithmetic::div_mod::lemma_div_multiples_vanish(height as int, b);
                    vstd::arithmetic::div_mod::lemma_mod_multiples_basic(height as int, b);
                    assert(b * height == height * b) by (nonlinear_arith);
                }
            }
            return None;
        }
        proof {
            assert(len == height * bytes_per_scanline && len == width * height * 3) by (nonlinear_arith)
                requires
                    bytes_per_scanline == width * 3,
                    bytes_per_scanline > 0,
                    len % bytes_per_scanline == 0,
                    len / bytes_per_scanline == height,
            ;
        }
        Some(RtwImage { data, image_width: width, image_height: height, bytes_per_scanline })
    }

    /// Width in pixels, or 0 when nothing is loaded.
    pub fn width(&self) -> (r: usize)
        ensures
            r == (if self.is_loaded() { self.spec_width() } else { 0 }),
            self.is_loaded() ==> r > 0,
    {
        proof {
            use_type_invariant(self);
        }
        if self.data.len() == 0 {
            0
        } else {
            self.image_width
        }
    }

    /// Height in pixels, or 0 when nothing is loaded.
    pub fn height(&self) -> (r: usize)
        ensures
            r == (if self.is_loaded() { self.spec_height() } else { 0 }),
            self.is_loaded() ==> r > 0,
    {
        proof {
            use_type_invariant(self);
        }
        if self.data.len() == 0 {
            0
        } else {
            self.image_height
        }
    }

    /// The three bytes of the pixel at `(x, y)`, coordinates clamped into the
    /// image; magenta when there is no data.
    pub fn pixel_data(&self, x: usize, y: usize) -> (r: [u8; 3])
        ensures
            r@ == self.spec_pixel(x as int, y as int),
    {
        proof {
            use_type_invariant(self);
        }
        if self.data.len() == 0 {
            let magenta: [u8; 3] = [255, 0, 255];
            assert(magenta@ =~= seq![255u8, 0u8, 255u8]);
            magenta
        } else {
            let x = Self::clamp(x, 0, self.image_width);
            let y = Self::clamp(y, 0, self.image_height);
            proof {
                assert(y * self.bytes_per_scanline + x * 3 + 3 <= self.data@.len()) by (nonlinear_arith)
                    requires
                        y < self.image_height,
                        x < self.image_width,
                        self.bytes_per_scanline == self.image_width * 3,
                        self.data@.len() == self.image_height * self.bytes_per_scanline,
                ;
            }
            let start = y * self.bytes_per_scanline + x * BYTES_PER_PIXEL;
            let r: [u8; 3] = [self.data[start], self.data[start + 1], self.data[start + 2]];
            assert(r@ =~= self.spec_pixel(x as int, y as int));
            r
        }
    }

    /// Clamps `x` into `[low, high)`.
    fn clamp(x: usize, low: usize, high: usize) -> (r: usize)
        requires
            low < high,
        ensures
            r == clamp_index(x as int, low as int, high as int),
            low <= r < high,
    {
        if x < low {
            return low;
        }
        if x < high {
            return x;
        }
        high - 1
    }
}

impl Default for RtwImage {
    /// An image with no data.
    fn default() -> (r: RtwImage)
        ensures
            !r.is_loaded(),
            r.spec_width() == 0,
            r.spec_height() == 0,
    {
        RtwImage::empty()
    }
}

} // verus!
