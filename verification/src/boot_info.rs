//! The records the loader hands to the kernel.

use vstd::prelude::*;
use crate::psf::PsfFont;

verus! {

/// Geometry of the linear framebuffer the firmware set up. The pixels are
/// 32-bit words; the memory itself is held apart from this record.
#[derive(Clone, Copy, Debug)]
pub struct FrameData {
    pub width: usize,
    pub height: usize,
    pub size_per_pixel: usize,
    pub size: usize,
    pub pixels_per_scan_line: usize,
}

impl FrameData {
    /// Describes the framebuffer of a graphics mode with the given resolution,
    /// buffer size in bytes and stride (pixels per scan line); the bytes per
    /// pixel are the buffer size divided by the number of visible pixels.
    pub fn from_mode(width: usize, height: usize, size: usize, stride: usize) -> (f: FrameData)
        requires
            width * height > 0,
            width * height <= usize::MAX,
        ensures
            f.width == width,
            f.height == height,
            f.size == size,
            f.pixels_per_scan_line == stride,
            f.size_per_pixel as int == size as int / (width * height),
    {
        let pixels = width * height;
        FrameData {
            width,
            height,
            size,
            size_per_pixel: size / pixels,
            pixels_per_scan_line: stride,
        }
    }

    /// Byte offset of pixel (x, y) from the start of the framebuffer: rows are
    /// `pixels_per_scan_line` pixels of 4 bytes.
    pub fn get_pixel(&mut self, x: usize, y: usize) -> (off: usize)
        requires
            4 * old(self).pixels_per_scan_line <= usize::MAX,
            4 * old(self).pixels_per_scan_line * y + 4 * x <= usize::MAX,
        ensures
            *final(self) == *old(self),
            off == 4 * old(self).pixels_per_scan_line * y + 4 * x,
    {
        proof {
            let p = self.pixels_per_scan_line as int;
            assert(0 <= 4 * p * y) by (nonlinear_arith)
                requires p >= 0, y >= 0;
        }
        4 * self.pixels_per_scan_line * y + 4 * x
    }
}

/// Everything the loader passes to the kernel's entry point.
#[derive(Clone, Debug)]
pub struct BootInfo {
    pub framebuffer: FrameData,
    pub font: PsfFont,
    pub map_size: usize,
    pub map_desc_size: usize,
}

} // verus!
