use vstd::prelude::*;

verus! {

/// Width of the display, in logical pixels.
pub const DISPLAY_WIDTH: usize = 64;

/// Height of the display, in logical pixels.
pub const DISPLAY_HEIGHT: usize = 32;

/// Number of logical pixels.
pub const DISPLAY_SIZE: usize = 2048;

/// Each logical pixel becomes a square of this many host pixels on a side.
pub const SQUARE_SIZE: usize = 10;

/// Width of the presented frame, in host pixels.
pub const WINDOW_WIDTH: usize = 640;

/// Height of the presented frame, in host pixels.
pub const WINDOW_HEIGHT: usize = 320;

/// Colour of a lit pixel in a presented frame.
pub const COLOR_ON: u32 = 0xFFFFFF;

/// Colour of a dark pixel in a presented frame.
pub const COLOR_OFF: u32 = 0;

/// Whether the sprite's pixel in row `row`, column `col` (0 = leftmost,
/// the byte's most significant bit) is set.
pub open spec fn sprite_bit(sprite: Seq<u8>, row: int, col: int) -> bool {
    (sprite[row] >> ((7 - col) as u8)) & 1u8 == 1u8
}

/// Whether a sprite drawn with its top-left corner at (`ox`, `oy`) has a set
/// pixel at (`px`, `py`).
pub open spec fn covers(ox: int, oy: int, sprite: Seq<u8>, px: int, py: int) -> bool {
    &&& ox <= px < ox + 8
    &&& oy <= py < oy + sprite.len()
    &&& sprite_bit(sprite, py - oy, px - ox)
}

/// The pixel at (`x`, `y`) of a row-major grid.
pub open spec fn pixel_at(pixels: Seq<bool>, x: int, y: int) -> bool {
    pixels[y * 64 + x]
}

/// The grid after XOR-drawing the sprite at (`ox`, `oy`); sprite pixels that
/// fall outside the grid are dropped.
pub open spec fn drawn(pixels: Seq<bool>, ox: int, oy: int, sprite: Seq<u8>) -> Seq<bool> {
    Seq::new(
        pixels.len(),
        |k: int|
            if covers(ox, oy, sprite, k % 64, k / 64) {
                !pixels[k]
            } else {
                pixels[k]
            },
    )
}

/// Whether drawing the sprite at (`ox`, `oy`) turns off a lit pixel.
pub open spec fn collides(pixels: Seq<bool>, ox: int, oy: int, sprite: Seq<u8>) -> bool {
    exists|px: int, py: int|
        0 <= px < 64 && 0 <= py < 32 && #[trigger] covers(ox, oy, sprite, px, py) && pixels[py
            * 64 + px]
}

/// The colour that a pixel is presented in.
pub open spec fn color(on: bool) -> u32 {
    if on {
        COLOR_ON
    } else {
        COLOR_OFF
    }
}

/// Row-major indices of the grid are the pairs (x, y).
pub proof fn lemma_grid_index(k: int)
    requires
        0 <= k < 2048,
    ensures
        k == (k / 64) * 64 + k % 64,
        0 <= k % 64 < 64,
        0 <= k / 64 < 32,
{
}

/// A 64 x 32 grid of monochrome pixels, row-major, origin top-left.
pub struct Display {
    pixels: Vec<bool>,
}

impl View for Display {
    type V = Seq<bool>;

    closed spec fn view(&self) -> Seq<bool> {
        self.pixels@
    }
}

impl Display {
    pub open spec fn wf(&self) -> bool {
        self@.len() == 2048
    }

    /// A display with every pixel off.
    pub fn new() -> (r: Self)
        ensures
            r.wf(),
            forall|k: int| 0 <= k < 2048 ==> !r@[k],
    {
        Display { pixels: vec![false; DISPLAY_SIZE] }
    }

    /// The pixels, row-major.
    pub fn pixels(&self) -> (r: &Vec<bool>)
        ensures
            r@ == self@,
    {
        &self.pixels
    }

    /// Whether the pixel at (`x`, `y`) is lit.
    pub fn pixel(&self, x: usize, y: usize) -> (r: bool)
        requires
            self.wf(),
            x < 64,
            y < 32,
        ensures
            r == pixel_at(self@, x as int, y as int),
    {
        self.pixels[y * DISPLAY_WIDTH + x]
    }

    /// Turns every pixel off.
    pub fn clear(&mut self)
        requires
            old(self).wf(),
        ensures
            final(self).wf(),
            forall|k: int| 0 <= k < 2048 ==> !final(self)@[k],
    {
        let mut k: usize = 0;
        while k < DISPLAY_SIZE
            invariant
                self.wf(),
                k <= 2048,
                forall|j: int| 0 <= j < k ==> !self@[j],
            decreases 2048 - k,
        {
            self.pixels.set(k, false);
            k = k + 1;
        }
    }

    fn set_pixel(&mut self, x: usize, y: usize)
        requires
            old(self).wf(),
            x < 64,
            y < 32,
        ensures
            final(self)@ == old(self)@.update(y * 64 + x, true),
    {
        self.pixels.set(y * DISPLAY_WIDTH + x, true);
    }

    fn clear_pixel(&mut self, x: usize, y: usize)
        requires
            old(self).wf(),
            x < 64,
            y < 32,
        ensures
            final(self)@ == old(self)@.update(y * 64 + x, false),
    {
        self.pixels.set(y * DISPLAY_WIDTH + x, false);
    }

    /// XOR-draws `sprite`, one byte per row, with its top-left corner at
    /// (`ox`, `oy`). Sprite pixels beyond the right or bottom edge are
    /// dropped. Returns whether a lit pixel was turned off.
    pub fn draw(&mut self, ox: usize, oy: usize, sprite: &Vec<u8>) -> (hit: bool)
        requires
            old(self).wf(),
            ox < 64,
            oy < 32,
            sprite.len() <= 15,
        ensures
            final(self).wf(),
            final(self)@ == drawn(old(self)@, ox as int, oy as int, sprite@),
            hit == collides(old(self)@, ox as int, oy as int, sprite@),
    {
        let ghost start = self@;
        let mut hit = false;
        let mut row: usize = 0;
        while row < sprite.len()
            invariant
                self.wf(),
                start.len() == 2048,
                ox < 64,
                oy < 32,
                row <= sprite.len() <= 15,
                forall|px: int, py: int|
                    0 <= px < 64 && 0 <= py < 32 ==> #[trigger] pixel_at(self@, px, py) == if covers(
                        ox as int,
                        oy as int,
                        sprite@,
                        px,
                        py,
                    ) && py < oy + row {
                        !pixel_at(start, px, py)
                    } else {
                        pixel_at(start, px, py)
                    },
                hit == exists|px: int, py: int|
                    0 <= px < 64 && 0 <= py < 32 && #[trigger] covers(
                        ox as int,
                        oy as int,
                        sprite@,
                        px,
                        py,
                    ) && py < oy + row && pixel_at(start, px, py),
            decreases sprite.len() - row,
        {
            let byte = sprite[row];
            let y = oy + row;
            let mut col: usize = 0;
            while col < 8
                invariant
                    self.wf(),
                    start.len() == 2048,
                    ox < 64,
                    oy < 32,
                    row < sprite.len() <= 15,
                    y == oy + row,
                    byte == sprite@[row as int],
                    col <= 8,
                    forall|px: int, py: int|
                        0 <= px < 64 && 0 <= py < 32 ==> #[trigger] pixel_at(self@, px, py) == if covers(
                            ox as int,
                            oy as int,
                            sprite@,
                            px,
                            py,
                        ) && (py < oy + row || (py == oy + row && px < ox + col)) {
                            !pixel_at(start, px, py)
                        } else {
                            pixel_at(start, px, py)
                        },
                    hit == exists|px: int, py: int|
                        0 <= px < 64 && 0 <= py < 32 && #[trigger] covers(
                            ox as int,
                            oy as int,
                            sprite@,
                            px,
                            py,
                        ) && (py < oy + row || (py == oy + row && px < ox + col)) && pixel_at(
                            start,
                            px,
                            py,
                        ),
                decreases 8 - col,
            {
                let x = ox + col;
                let shift: u8 = (7 - col) as u8;
                let ghost before = self@;
                if x < DISPLAY_WIDTH && y < DISPLAY_HEIGHT && (byte >> shift) & 1 == 1 {
                    assert(covers(ox as int, oy as int, sprite@, x as int, y as int));
                    assert(pixel_at(before, x as int, y as int) == pixel_at(
                        start,
                        x as int,
                        y as int,
                    ));
                    if self.pixels[y * DISPLAY_WIDTH + x] {
                        hit = true;
                        self.clear_pixel(x, y);
                    } else {
                        self.set_pixel(x, y);
                    }
                    assert forall|px: int, py: int|
                        0 <= px < 64 && 0 <= py < 32 && !(px == x && py == y) implies #[trigger] pixel_at(
                        self@,
                        px,
                        py,
                    ) == pixel_at(before, px, py) by {}
                }
                col = col + 1;
            }
            row = row + 1;
        }
        assert forall|k: int| 0 <= k < 2048 implies #[trigger] self@[k] == drawn(
            start,
            ox as int,
            oy as int,
            sprite@,
        )[k] by {
            lemma_grid_index(k);
            assert(pixel_at(self@, k % 64, k / 64) == self@[k]);
        }
        assert(self@ =~= drawn(start, ox as int, oy as int, sprite@));
        hit
    }
    /// The frame presented to the host: each logical pixel becomes a
    /// `SQUARE_SIZE` x `SQUARE_SIZE` square of its colour, row-major over a
    /// `WINDOW_WIDTH` x `WINDOW_HEIGHT` surface.
    pub fn render(&self) -> (r: Vec<u32>)
        requires
            self.wf(),
        ensures
            r@.len() == 640 * 320,
            forall|px: int, py: int|
                0 <= px < 640 && 0 <= py < 320 ==> #[trigger] r@[py * 640 + px] == color(
                    pixel_at(self@, px / 10, py / 10),
                ),
    {
        let mut frame: Vec<u32> = Vec::new();
        let mut py: usize = 0;
        while py < WINDOW_HEIGHT
            invariant
                self.wf(),
                py <= 320,
                frame@.len() == py * 640,
                forall|qx: int, qy: int|
                    0 <= qx < 640 && 0 <= qy < py ==> #[trigger] frame@[qy * 640 + qx] == color(
                        pixel_at(self@, qx / 10, qy / 10),
                    ),
            decreases 320 - py,
        {
            let mut px: usize = 0;
            while px < WINDOW_WIDTH
                invariant
                    self.wf(),
                    py < 320,
                    px <= 640,
                    frame@.len() == py * 640 + px,
                    forall|qx: int, qy: int|
                        0 <= qx < 640 && 0 <= qy < py ==> #[trigger] frame@[qy * 640 + qx]
                            == color(pixel_at(self@, qx / 10, qy / 10)),
                    forall|qx: int|
                        0 <= qx < px ==> #[trigger] frame@[py * 640 + qx] == color(
                            pixel_at(self@, qx / 10, py as int / 10),
                        ),
                decreases 640 - px,
            {
                let on = self.pixel(px / SQUARE_SIZE, py / SQUARE_SIZE);
                let c: u32 = if on {
                    COLOR_ON
                } else {
                    COLOR_OFF
                };
                frame.push(c);
                px = px + 1;
            }
            py = py + 1;
        }
        frame
    }
}

} // verus!
