//! The 64x32 monochrome framebuffer.
use vstd::prelude::*;

verus! {

pub const WIDTH: usize = 64;
pub const HEIGHT: usize = 32;
pub const PIXELS: usize = 2048;

/// Where pixel (x, y) sits in the row-major buffer.
pub open spec fn pixel_index(x: int, y: int) -> int {
    y * 64 + x
}

/// The pixel at (x, y) of a row-major 64-wide buffer.
pub open spec fn pixel_at(s: Seq<u8>, x: int, y: int) -> u8 {
    s[pixel_index(x, y)]
}

/// An all-dark buffer.
pub open spec fn blank() -> Seq<u8> {
    Seq::new(2048, |k: int| 0u8)
}

/// A zero-filled vector of length `n`.
pub fn zeroed(n: usize) -> (r: Vec<u8>)
    ensures
        r@ == Seq::new(n as nat, |k: int| 0u8),
{
    let mut v: Vec<u8> = Vec::new();
    let mut k: usize = 0;
    while k < n
        invariant
            k <= n,
            v@ == Seq::new(k as nat, |j: int| 0u8),
        decreases n - k,
    {
        v.push(0u8);
        k = k + 1;
        assert(v@ =~= Seq::new(k as nat, |j: int| 0u8));
    }
    v
}

/// The framebuffer: one byte per pixel, row by row.
pub struct Graphics {
    data: Vec<u8>,
}

impl View for Graphics {
    type V = Seq<u8>;

    closed spec fn view(&self) -> Seq<u8> {
        self.data@
    }
}

impl Graphics {
    /// An all-dark framebuffer.
    pub fn new() -> (r: Self)
        ensures
            r@ == blank(),
    {
        Graphics { data: zeroed(PIXELS) }
    }

    /// Turns every pixel off.
    pub fn clear(&mut self)
        ensures
            final(self)@ == blank(),
    {
        self.data = zeroed(PIXELS);
    }

    /// The pixel at (x, y).
    pub fn get_pixel(&self, x: usize, y: usize) -> (r: u8)
        requires
            self@.len() == 2048,
            x < 64,
            y < 32,
        ensures
            r == pixel_at(self@, x as int, y as int),
    {
        self.data[y * WIDTH + x]
    }

    /// XORs `value` into the pixel at (x, y) and tells whether the pixel is
    /// off afterwards.
    pub fn flip_pixel(&mut self, x: usize, y: usize, value: u8) -> (turned_off: bool)
        requires
            old(self)@.len() == 2048,
            x < 64,
            y < 32,
        ensures
            final(self)@ == old(self)@.update(
                pixel_index(x as int, y as int),
                pixel_at(old(self)@, x as int, y as int) ^ value,
            ),
            turned_off == (pixel_at(old(self)@, x as int, y as int) ^ value == 0),
    {
        let k = y * WIDTH + x;
        let v = self.data[k] ^ value;
        self.data.set(k, v);
        v == 0
    }
}

} // verus!
