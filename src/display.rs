use vstd::prelude::*;

verus! {

/// Width of the bitmap, in pixels.
pub const WIDTH: usize = 64;

/// Height of the bitmap, in pixels.
pub const HEIGHT: usize = 32;

/// Number of pixels in the bitmap.
pub const PIXELS: usize = 2048;

/// Position in the flat pixel sequence of the pixel at column `x`, row `y`,
/// both taken modulo the bitmap's size.
pub open spec fn pixel_index(x: int, y: int) -> int {
    (y % (HEIGHT as int)) * (WIDTH as int) + (x % (WIDTH as int))
}

/// A blank bitmap.
pub open spec fn blank() -> Seq<bool> {
    Seq::new(PIXELS as nat, |p: int| false)
}

/// The monochrome bitmap that drawing instructions act upon, stored row by row.
pub struct Display {
    pixels: Vec<bool>,
}

impl View for Display {
    type V = Seq<bool>;

    closed spec fn view(&self) -> Seq<bool> {
        self.pixels@
    }
}

impl Display {
    pub open spec fn wf(&self) -> bool {
        self@.len() == PIXELS
    }

    /// The state of the pixel at column `x`, row `y` (modulo the bitmap's size).
    pub open spec fn pixel(&self, x: int, y: int) -> bool {
        self@[pixel_index(x, y)]
    }

    /// A bitmap with every pixel unlit.
    pub fn new() -> (d: Display)
        ensures
            d.wf(),
            d@ == blank(),
    {
        let mut pixels: Vec<bool> = Vec::new();
        while pixels.len() < PIXELS
            invariant
                pixels.len() <= PIXELS,
                forall|p: int| 0 <= p < pixels.len() ==> !pixels@[p],
            decreases PIXELS - pixels.len(),
        {
            pixels.push(false);
        }
        let d = Display { pixels };
        assert(d@ =~= blank());
        d
    }

    /// Turns every pixel off.
    pub fn clear(&mut self)
        requires
            old(self).wf(),
        ensures
            final(self).wf(),
            final(self)@ == blank(),
    {
        let mut p: usize = 0;
        while p < PIXELS
            invariant
                self.pixels@.len() == PIXELS,
                p <= PIXELS,
                forall|q: int| 0 <= q < p ==> !self.pixels@[q],
            decreases PIXELS - p,
        {
            self.pixels.set(p, false);
            p = p + 1;
        }
        assert(self@ =~= blank());
    }

    /// Whether the pixel at column `x`, row `y` is lit; coordinates wrap around.
    pub fn get_pixel(&self, x: usize, y: usize) -> (lit: bool)
        requires
            self.wf(),
        ensures
            lit == self.pixel(x as int, y as int),
    {
        self.pixels[(y % HEIGHT) * WIDTH + x % WIDTH]
    }

    /// Toggles the pixel at column `x`, row `y`; coordinates wrap around.
    pub fn flip_pixel(&mut self, x: usize, y: usize)
        requires
            old(self).wf(),
        ensures
            final(self).wf(),
            final(self)@ == old(self)@.update(
                pixel_index(x as int, y as int),
                !old(self).pixel(x as int, y as int),
            ),
    {
        let p: usize = (y % HEIGHT) * WIDTH + x % WIDTH;
        let lit = self.pixels[p];
        self.pixels.set(p, !lit);
    }
}

} // verus!
