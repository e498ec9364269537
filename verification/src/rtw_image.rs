//! Pictures held in memory, for image textures.

use vstd::prelude::*;

verus! {

/// A picture held in memory: `width * height` pixels of three bytes each,
/// red, green and blue, row after row from the top. A picture that could not
/// be had holds no bytes and has no extent.
pub struct RtwImage {
    data: Vec<u8>,
    width: i32,
    height: i32,
}

/// `x` held within `low..high`: `low` below the range, `high - 1` from `high` on.
pub open spec fn clamp_spec(x: int, low: int, high: int) -> int {
    if x < low {
        low
    } else if x < high {
        x
    } else {
        high - 1
    }
}

pub fn clamp(x: i32, low: i32, high: i32) -> (r: i32)
    requires
        high > i32::MIN,
    ensures
        r == clamp_spec(x as int, low as int, high as int),
{
    if x < low {
        low
    } else if x < high {
        x
    } else {
        high - 1
    }
}

/// The colour that stands for a missing picture: magenta.
pub open spec fn missing_pixel() -> [u8; 3] {
    [255u8, 0u8, 255u8]
}

impl RtwImage {
    #[verifier::type_invariant]
    closed spec fn well_formed(&self) -> bool {
        if self.data@.len() == 0 {
            self.width == 0 && self.height == 0
        } else {
            self.width > 0 && self.height > 0 && self.data@.len() == 3 * self.width
                * self.height
        }
    }

    /// The bytes of the picture.
    pub closed spec fn bytes(&self) -> Seq<u8> {
        self.data@
    }

    pub closed spec fn width_spec(&self) -> int {
        self.width as int
    }

    pub closed spec fn height_spec(&self) -> int {
        self.height as int
    }

    /// The bytes fit the extent: three for each pixel, and an empty picture
    /// has no extent.
    pub open spec fn fits(data: Seq<u8>, width: int, height: int) -> bool {
        width > 0 && height > 0 && data.len() == 3 * width * height
    }

    /// A picture without pixels.
    pub fn missing() -> (r: Self)
        ensures
            r.bytes().len() == 0,
            r.width_spec() == 0,
            r.height_spec() == 0,
    {
        RtwImage { data: Vec::new(), width: 0, height: 0 }
    }

    /// The picture of the given bytes and extent; the picture without pixels
    /// where the bytes do not fit the extent.
    pub fn from_raw(data: Vec<u8>, width: i32, height: i32) -> (r: Self)
        ensures
            Self::fits(data@, width as int, height as int) ==> r.bytes() == data@ && r.width_spec()
                == width && r.height_spec() == height,
            !Self::fits(data@, width as int, height as int) ==> r.bytes().len() == 0
                && r.width_spec() == 0 && r.height_spec() == 0,
    {
        if width <= 0 || height <= 0 {
            return Self::missing();
        }
        let w: u64 = width as u64;
        let h: u64 = height as u64;
        assert(1 <= w * h <= 0x7fff_ffff * 0x7fff_ffff) by (nonlinear_arith)
            requires
                0 < w <= 0x7fff_ffff,
                0 < h <= 0x7fff_ffff,
        ;
        let pixels: u64 = w * h;
        assert(3 * width * height == 3 * pixels) by (nonlinear_arith)
            requires
                pixels == w * h,
                w == width,
                h == height,
        ;
        if data.len() as u64 != 3 * pixels {
            return Self::missing();
        }
        RtwImage { data, width, height }
    }

    pub fn width(&self) -> (r: i32)
        ensures
            r == self.width_spec(),
    {
        self.width
    }

    pub fn height(&self) -> (r: i32)
        ensures
            r == self.height_spec(),
    {
        self.height
    }

    /// Where the pixel `(x, y)` begins among the bytes, both coordinates
    /// held within the picture.
    pub open spec fn offset_spec(&self, x: int, y: int) -> int {
        (clamp_spec(y, 0, self.height_spec()) * self.width_spec() + clamp_spec(
            x,
            0,
            self.width_spec(),
        )) * 3
    }

    /// The colour of a pixel.
    pub open spec fn pixel_data_spec(&self, x: int, y: int) -> [u8; 3] {
        if self.bytes().len() == 0 {
            missing_pixel()
        } else {
            let at = self.offset_spec(x, y);
            [self.bytes()[at], self.bytes()[at + 1], self.bytes()[at + 2]]
        }
    }

    /// The three bytes of the pixel in column `x` of row `y`, each coordinate
    /// held within the picture; magenta where the picture has no pixels.
    pub fn pixel_data(&self, x: i32, y: i32) -> (r: [u8; 3])
        ensures
            r == self.pixel_data_spec(x as int, y as int),
    {
        proof {
            use_type_invariant(self);
        }
        if self.data.len() == 0 {
            return [255, 0, 255];
        }
        let cx = clamp(x, 0, self.width) as usize;
        let cy = clamp(y, 0, self.height) as usize;
        let w = self.width as usize;
        let h = self.height as usize;
        assert(cy * w + cx < w * h && cy * w + cx >= 0 && w * h * 3 == 3 * self.width
            * self.height) by (nonlinear_arith)
            requires
                0 <= cx < w,
                0 <= cy < h,
                w == self.width,
                h == self.height,
        ;
        let idx = (cy * w + cx) * 3;
        [self.data[idx], self.data[idx + 1], self.data[idx + 2]]
    }
}

} // verus!
