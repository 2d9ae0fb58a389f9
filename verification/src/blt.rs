//! The bootstrap loader's off-screen pixel buffer, blitted to the screen whole.

use vstd::prelude::*;

verus! {

/// A pixel as the firmware's block transfer reads it: blue, green, red and a
/// reserved byte.
#[derive(Clone, Copy, Debug, PartialEq, Eq, Structural)]
pub struct BltPixel {
    pub blue: u8,
    pub green: u8,
    pub red: u8,
    pub reserved: u8,
}

impl BltPixel {
    /// The pixel of the given colour.
    pub fn new(red: u8, green: u8, blue: u8) -> (p: BltPixel)
        ensures
            p == (BltPixel { blue, green, red, reserved: 0 }),
    {
        BltPixel { blue, green, red, reserved: 0 }
    }
}

/// A `width` x `height` image, row by row.
#[derive(Debug)]
pub struct Buffer {
    pub width: usize,
    pub height: usize,
    pub pixels: Vec<BltPixel>,
}

/// Index in the pixels of a buffer `width` wide of pixel (x, y).
pub open spec fn buffer_index(width: int, x: int, y: int) -> int {
    y * width + x
}

impl Buffer {
    /// A black buffer of the given size.
    pub fn new(width: usize, height: usize) -> (b: Buffer)
        requires
            width * height <= usize::MAX,
        ensures
            b.width == width,
            b.height == height,
            b.pixels@.len() == width * height,
            forall|i: int| 0 <= i < b.pixels@.len() ==> #[trigger] b.pixels@[i] == (BltPixel { blue: 0, green: 0, red: 0, reserved: 0 }),
    {
        Buffer { width, height, pixels: vec![BltPixel::new(0, 0, 0); width * height] }
    }

    /// The pixel at (x, y), to read or change, or `None` when it lies past the
    /// end of the buffer.
    pub fn pixel(&mut self, x: usize, y: usize) -> (r: Option<&mut BltPixel>)
        requires
            y * old(self).width + x <= usize::MAX,
        ensures
            final(self).width == old(self).width,
            final(self).height == old(self).height,
            r is Some <==> buffer_index(old(self).width as int, x as int, y as int) < old(self).pixels@.len(),
            r is Some <==> y * old(self).width + x < old(self).pixels@.len(),
            r is None ==> final(self).pixels@ == old(self).pixels@,
            r matches Some(p) ==> {
                let i = buffer_index(old(self).width as int, x as int, y as int);
                &&& *p == old(self).pixels@[i]
                &&& final(self).pixels@ == old(self).pixels@.update(i, *final(p))
                &&& *p == old(self).pixels@[y * old(self).width + x]
                &&& final(self).pixels@ == old(self).pixels@.update(y * old(self).width + x, *final(p))
            },
    {
        proof {
            assert(0 <= y * self.width) by (nonlinear_arith)
                requires y >= 0, self.width >= 0;
        }
        let i = y * self.width + x;
        if i < self.pixels.len() {
            Some(&mut self.pixels[i])
        } else {
            None
        }
    }
}

} // verus!
