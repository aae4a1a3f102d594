//! The camera frame as the viewer displays it: pixels of four bytes taken
//! from a decoded RGBA8 image.

use vstd::prelude::*;

verus! {

/// One pixel: red, green, blue and alpha, alpha premultiplied.
#[derive(Clone, Copy, Debug, PartialEq, Eq)]
pub struct Pixel {
    pub r: u8,
    pub g: u8,
    pub b: u8,
    pub a: u8,
}

/// The pixel stored at position `i` of an RGBA8 buffer.
pub open spec fn pixel_at(raw: Seq<u8>, i: int) -> Pixel {
    Pixel { r: raw[4 * i], g: raw[4 * i + 1], b: raw[4 * i + 2], a: raw[4 * i + 3] }
}

/// Each channel of a pixel is the raw byte at its fixed offset, whatever the
/// byte values: red first, then green, blue and alpha.
pub proof fn lemma_pixel_channels_are_raw_bytes(raw: Seq<u8>, i: int)
    ensures
        pixel_at(raw, i).r == raw[4 * i],
        pixel_at(raw, i).g == raw[4 * i + 1],
        pixel_at(raw, i).b == raw[4 * i + 2],
        pixel_at(raw, i).a == raw[4 * i + 3],
{
}

/// A frame of `width` by `height` pixels, row after row.
pub struct RgbaFrame {
    pub width: usize,
    pub height: usize,
    pub pixels: Vec<Pixel>,
}

proof fn lemma_pixel_count(width: nat, height: nat)
    by (nonlinear_arith)
    ensures
        (4 * width * height) / 4 == width * height,
        4 * (width * height) == 4 * width * height,
{
}

/// Builds the frame of a decoded RGBA8 image of `width` by `height` pixels
/// whose bytes are `raw`, four per pixel, row after row: pixel `i` takes the
/// bytes `4 * i` to `4 * i + 3` in that order.
pub fn frame_from_rgba8(width: u32, height: u32, raw: &[u8]) -> (frame: RgbaFrame)
    requires
        raw@.len() == 4 * width * height,
    ensures
        frame.width == width,
        frame.height == height,
        frame.pixels@.len() == width * height,
        forall|i: int| 0 <= i < frame.pixels@.len() ==> #[trigger] frame.pixels@[i] == pixel_at(raw@, i),
        forall|i: int|
            0 <= i < frame.pixels@.len() ==> {
                &&& (#[trigger] frame.pixels@[i]).r == raw@[4 * i]
                &&& frame.pixels@[i].g == raw@[4 * i + 1]
                &&& frame.pixels@[i].b == raw@[4 * i + 2]
                &&& frame.pixels@[i].a == raw@[4 * i + 3]
            },
{
    proof {
        lemma_pixel_count(width as nat, height as nat);
    }
    let len: usize = raw.len();
    let count: usize = len / 4;
    let mut pixels: Vec<Pixel> = Vec::new();
    let mut i: usize = 0;
    while i < count
        invariant
            count == raw@.len() / 4,
            raw@.len() == 4 * count,
            raw@.len() == len,
            i <= count,
            pixels@.len() == i,
            forall|j: int| 0 <= j < i ==> #[trigger] pixels@[j] == pixel_at(raw@, j),
        decreases count - i,
    {
        let at: usize = 4 * i;
        pixels.push(Pixel { r: raw[at], g: raw[at + 1], b: raw[at + 2], a: raw[at + 3] });
        i = i + 1;
    }
    RgbaFrame { width: width as usize, height: height as usize, pixels }
}

} // verus!
