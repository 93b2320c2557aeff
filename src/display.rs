use vstd::prelude::*;

verus! {

pub const WIDTH: usize = 160;

pub const HEIGHT: usize = 100;

/// Number of colours in a palette.
pub const PALETTE_SIZE: usize = 256;

/// Colour `i` of the grey ramp: the same intensity `i` in the red, green and blue bytes.
pub open spec fn grey(i: int) -> u32 {
    (i * 0x010101) as u32
}

/// Position of pixel (x, y) in the row-major pixel store.
pub open spec fn pixel_at(x: int, y: int) -> int {
    y * WIDTH + x
}

/// A grid of palette indices and the palette that gives each index its colour.
pub struct Framebuffer {
    pub pixels: Vec<u8>,
    pub palette: Vec<u32>,
}

impl Framebuffer {
    /// The grid holds one index per pixel and the palette one colour per index.
    pub open spec fn wf(&self) -> bool {
        &&& self.pixels@.len() == WIDTH * HEIGHT
        &&& self.palette@.len() == PALETTE_SIZE
    }

    /// A blank grid (index 0 everywhere) with the grey-ramp palette.
    pub fn new() -> (r: Framebuffer)
        ensures
            r.wf(),
            forall|i: int| 0 <= i < WIDTH * HEIGHT ==> r.pixels@[i] == 0,
            forall|i: int| 0 <= i < PALETTE_SIZE ==> r.palette@[i] == grey(i),
    {
        let mut palette: Vec<u32> = Vec::new();
        let mut i: u32 = 0;
        while i < PALETTE_SIZE as u32
            invariant
                i <= PALETTE_SIZE,
                palette@.len() == i,
                forall|j: int| 0 <= j < i ==> palette@[j] == grey(j),
            decreases PALETTE_SIZE - i,
        {
            palette.push((i << 16) | (i << 8) | i);
            assert(((i << 16) | (i << 8) | i) == i * 0x010101) by (bit_vector)
                requires
                    i < 256,
            ;
            i = i + 1;
        }
        Framebuffer { pixels: vec![0u8; WIDTH * HEIGHT], palette }
    }

    /// Sets pixel (x, y) to palette index `index`.
    pub fn set_pixel(&mut self, x: usize, y: usize, index: u8)
        requires
            old(self).wf(),
            x < WIDTH,
            y < HEIGHT,
        ensures
            final(self).wf(),
            final(self).pixels@ == old(self).pixels@.update(pixel_at(x as int, y as int), index),
            final(self).palette@ == old(self).palette@,
    {
        self.pixels.set(y * WIDTH + x, index);
    }

    /// Replaces the palette.
    pub fn set_palette(&mut self, palette: Vec<u32>)
        requires
            old(self).wf(),
            palette@.len() == PALETTE_SIZE,
        ensures
            final(self).wf(),
            final(self).palette@ == palette@,
            final(self).pixels@ == old(self).pixels@,
    {
        self.palette = palette;
    }

    /// Sets every pixel to index 0.
    pub fn clear(&mut self)
        requires
            old(self).wf(),
        ensures
            final(self).wf(),
            forall|i: int| 0 <= i < WIDTH * HEIGHT ==> final(self).pixels@[i] == 0,
            final(self).palette@ == old(self).palette@,
    {
        self.pixels = vec![0u8; WIDTH * HEIGHT];
    }

    /// The colour of each pixel, row after row.
    pub fn frame(&self) -> (r: Vec<u32>)
        requires
            self.wf(),
        ensures
            r@.len() == WIDTH * HEIGHT,
            forall|i: int|
                0 <= i < WIDTH * HEIGHT ==> r@[i] == self.palette@[self.pixels@[i] as int],
    {
        let mut out: Vec<u32> = Vec::new();
        let mut i: usize = 0;
        while i < WIDTH * HEIGHT
            invariant
                self.wf(),
                i <= WIDTH * HEIGHT,
                out@.len() == i,
                forall|j: int| 0 <= j < i ==> out@[j] == self.palette@[self.pixels@[j] as int],
            decreases WIDTH * HEIGHT - i,
        {
            out.push(self.palette[self.pixels[i] as usize]);
            i = i + 1;
        }
        out
    }
}

} // verus!
