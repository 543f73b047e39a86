//! The linear framebuffer: where a pixel lies in video memory, how a colour
//! is packed for the pixel formats in use, and the drawing routines on top.
//! Video memory is a byte vector that starts at the framebuffer's address;
//! the caller keeps it in step with the device.

use vstd::prelude::*;
use crate::endian::{byte_weight, le_bytes, le_value, lemma_le_value_bound, read_le};

verus! {

/// The geometry of a linear framebuffer as the boot loader reports it.
#[derive(Clone, Copy, Debug, PartialEq, Eq, Structural)]
pub struct Framebuffer {
    /// Physical address of the first byte.
    pub phys_addr: usize,
    /// Bytes from the start of one row to the start of the next.
    pub pitch: usize,
    /// Pixels in a row.
    pub width: usize,
    /// Rows.
    pub height: usize,
    /// Bits per pixel.
    pub bpp: usize,
}

/// A colour `0xAARRGGBB` reduced to five bits of red, six of green and five
/// of blue.
pub open spec fn rgb565(color: u32) -> int {
    (((color as int / 0x1_0000) % 256) / 8) * 2048 + (((color as int / 0x100) % 256) / 4) * 32 + (
    (color as int % 256) / 8)
}

/// The bytes of a pixel of colour `0xAARRGGBB` in memory order: all four
/// bytes at 32 bits per pixel; blue, green, red at 24; the two bytes of the
/// 5-6-5 packing at 16; nothing for any other depth.
pub open spec fn encoded(bpp: int, color: u32) -> Seq<u8> {
    if bpp == 32 {
        le_bytes(color as int, 4)
    } else if bpp == 24 {
        le_bytes(color as int, 3)
    } else if bpp == 16 {
        le_bytes(rgb565(color), 2)
    } else {
        Seq::empty()
    }
}

/// `memory` with `bytes` stored from index `at` on.
pub open spec fn splice(memory: Seq<u8>, at: int, bytes: Seq<u8>) -> Seq<u8> {
    Seq::new(
        memory.len(),
        |i: int|
            if at <= i < at + bytes.len() {
                bytes[i - at]
            } else {
                memory[i]
            },
    )
}

impl Framebuffer {
    /// The pixel lies on the screen.
    pub open spec fn shows(self, x: int, y: int) -> bool {
        0 <= x < self.width && 0 <= y < self.height
    }

    /// Index in video memory of the first byte of pixel (`x`, `y`).
    pub open spec fn offset_of(self, x: int, y: int) -> int {
        y * self.pitch + x * (self.bpp / 8)
    }

    /// Index in video memory of the first byte of pixel (`x`, `y`) where
    /// every pixel takes four bytes.
    pub open spec fn offset_32(self, x: int, y: int) -> int {
        y * self.pitch + x * 4
    }

    /// Video memory after pixel (`x`, `y`) was given `color`. Nothing
    /// changes for a pixel off the screen, for a pixel whose bytes do not
    /// all lie in `memory`, and for a depth other than 32, 24 or 16.
    pub open spec fn with_pixel(self, memory: Seq<u8>, x: int, y: int, color: u32) -> Seq<u8> {
        let bytes = encoded(self.bpp as int, color);
        if self.shows(x, y) && self.offset_of(x, y) + bytes.len() <= memory.len() {
            splice(memory, self.offset_of(x, y), bytes)
        } else {
            memory
        }
    }

    /// Video memory after pixel (`x`, `y`) was given `color` as four bytes,
    /// whatever the depth says.
    pub open spec fn with_pixel_32(self, memory: Seq<u8>, x: int, y: int, color: u32) -> Seq<u8> {
        if self.shows(x, y) && self.offset_32(x, y) + 4 <= memory.len() {
            splice(memory, self.offset_32(x, y), le_bytes(color as int, 4))
        } else {
            memory
        }
    }
}

/// Packs a colour `0xAARRGGBB` into five bits of red, six of green and
/// five of blue.
pub fn pack_rgb565(color: u32) -> (pixel: u16)
    ensures
        pixel == rgb565(color),
{
    let r8: u32 = (color / 0x1_0000) % 256;
    let g8: u32 = (color / 0x100) % 256;
    let b8: u32 = color % 256;
    let r5: u32 = r8 / 8;
    let g6: u32 = g8 / 4;
    let b5: u32 = b8 / 8;
    (r5 * 2048 + g6 * 32 + b5) as u16
}

/// The `count` low bytes of `value`, least significant first.
fn low_bytes(value: u32, count: usize) -> (bytes: Vec<u8>)
    requires
        count <= 4,
    ensures
        bytes@ == le_bytes(value as int, count as nat),
{
    let mut bytes: Vec<u8> = Vec::new();
    let mut rest: u32 = value;
    let mut i: usize = 0;
    while i < count
        invariant
            i <= count <= 4,
            bytes@ == le_bytes(value as int, i as nat),
            rest == value as int / byte_weight(i as int),
        decreases count - i,
    {
        bytes.push((rest % 256) as u8);
        rest = rest / 256;
        i = i + 1;
        assert(bytes@ =~= le_bytes(value as int, i as nat));
    }
    bytes
}

/// The bytes of a pixel of `color` at depth `bpp`.
pub fn encode(bpp: usize, color: u32) -> (bytes: Vec<u8>)
    ensures
        bytes@ == encoded(bpp as int, color),
        bytes@.len() <= 4,
{
    if bpp == 32 {
        low_bytes(color, 4)
    } else if bpp == 24 {
        low_bytes(color, 3)
    } else if bpp == 16 {
        low_bytes(pack_rgb565(color) as u32, 2)
    } else {
        Vec::new()
    }
}

/// The index `row * pitch + column * size`, if `count` bytes from there on
/// lie within `len` bytes.
fn span_start(len: usize, row: usize, pitch: usize, column: usize, size: usize, count: usize) -> (at:
    Option<usize>)
    ensures
        at == if row * pitch + column * size + count <= len {
            Some((row * pitch + column * size) as usize)
        } else {
            None
        },
{
    assert(0 <= row * pitch <= u128::MAX) by (nonlinear_arith)
        requires
            0 <= row <= 0xFFFF_FFFF_FFFF_FFFF,
            0 <= pitch <= 0xFFFF_FFFF_FFFF_FFFF,
    ;
    assert(0 <= column * size <= u128::MAX) by (nonlinear_arith)
        requires
            0 <= column <= 0xFFFF_FFFF_FFFF_FFFF,
            0 <= size <= 0xFFFF_FFFF_FFFF_FFFF,
    ;
    let rows: u128 = row as u128 * pitch as u128;
    if rows > len as u128 {
        return None;
    }
    let columns: u128 = column as u128 * size as u128;
    if columns > len as u128 {
        return None;
    }
    let start: u128 = rows + columns;
    if start + count as u128 > len as u128 {
        return None;
    }
    Some(start as usize)
}

/// Stores `bytes` in `memory` from index `at` on.
fn store(memory: &mut Vec<u8>, at: usize, bytes: &Vec<u8>)
    requires
        at + bytes@.len() <= old(memory)@.len(),
    ensures
        final(memory)@ == splice(old(memory)@, at as int, bytes@),
{
    let n: usize = memory.len();
    let mut i: usize = 0;
    while i < bytes.len()
        invariant
            i <= bytes@.len(),
            at + bytes@.len() <= memory@.len(),
            memory@.len() == old(memory)@.len(),
            memory@.len() == n,
            forall|k: int|
                0 <= k < memory@.len() ==> memory@[k] == if at <= k < at + i {
                    bytes@[k - at]
                } else {
                    old(memory)@[k]
                },
        decreases bytes@.len() - i,
    {
        memory.set(at + i, bytes[i]);
        i = i + 1;
    }
    assert(memory@ =~= splice(old(memory)@, at as int, bytes@));
}

impl Framebuffer {
    /// Gives pixel (`x`, `y`) the colour `0xAARRGGBB`, packed for the depth
    /// of the framebuffer.
    pub fn put_pixel(&self, memory: &mut Vec<u8>, x: usize, y: usize, color: u32)
        ensures
            final(memory)@ == self.with_pixel(old(memory)@, x as int, y as int, color),
    {
        if x >= self.width || y >= self.height {
            return;
        }
        let bytes = encode(self.bpp, color);
        match span_start(memory.len(), y, self.pitch, x, self.bpp / 8, bytes.len()) {
            Some(at) => {
                store(memory, at, &bytes);
            },
            None => {},
        }
    }

    /// Gives pixel (`x`, `y`) the colour `color` as four bytes.
    pub fn put_pixel_32(&self, memory: &mut Vec<u8>, x: usize, y: usize, color: u32)
        ensures
            final(memory)@ == self.with_pixel_32(old(memory)@, x as int, y as int, color),
    {
        if x >= self.width || y >= self.height {
            return;
        }
        let bytes = encode(32, color);
        match span_start(memory.len(), y, self.pitch, x, 4, 4) {
            Some(at) => {
                store(memory, at, &bytes);
            },
            None => {},
        }
    }
}

impl Framebuffer {
    /// Video memory after the pixels of row `y` from column `from` up to,
    /// not including, column `to` were painted from left to right, each with
    /// the colour `color` gives it; as four-byte pixels if `wide`.
    pub open spec fn with_span(
        self,
        memory: Seq<u8>,
        y: int,
        from: int,
        to: int,
        color: spec_fn(int, int) -> u32,
        wide: bool,
    ) -> Seq<u8>
        decreases to - from,
    {
        if to <= from {
            memory
        } else {
            let before = self.with_span(memory, y, from, to - 1, color, wide);
            if wide {
                self.with_pixel_32(before, to - 1, y, color(to - 1, y))
            } else {
                self.with_pixel(before, to - 1, y, color(to - 1, y))
            }
        }
    }

    /// Video memory after the rows from `y0` up to, not including, `y1`
    /// were painted from top to bottom, each from column `x0` up to, not
    /// including, column `x1`.
    pub open spec fn with_area(
        self,
        memory: Seq<u8>,
        x0: int,
        x1: int,
        y0: int,
        y1: int,
        color: spec_fn(int, int) -> u32,
        wide: bool,
    ) -> Seq<u8>
        decreases y1 - y0,
    {
        if y1 <= y0 {
            memory
        } else {
            self.with_span(
                self.with_area(memory, x0, x1, y0, y1 - 1, color, wide),
                y1 - 1,
                x0,
                x1,
                color,
                wide,
            )
        }
    }

    /// The colour of pixel (`x`, `y`) in the background gradient: red grows
    /// and blue falls from left to right, green grows from top to bottom.
    pub open spec fn gradient_color(self, x: int, y: int) -> u32 {
        let t = (x * 255) / (self.width - 1);
        let g = (y * 128) / (self.height - 1);
        (0xFF00_0000 + t * 0x1_0000 + g * 0x100 + (255 - t)) as u32
    }

    /// The first column right of a rectangle that starts at `x` and is `w`
    /// wide, cut off at the right edge of the screen.
    pub open spec fn right_edge(self, x: int, w: int) -> int {
        if x + w <= self.width {
            x + w
        } else {
            self.width as int
        }
    }

    /// The first row below a rectangle that starts at `y` and is `h` high,
    /// cut off at the bottom edge of the screen.
    pub open spec fn bottom_edge(self, y: int, h: int) -> int {
        if y + h <= self.height {
            y + h
        } else {
            self.height as int
        }
    }

    /// Fills the rectangle of width `w` and height `h` whose top left pixel
    /// is (`x`, `y`), as far as it lies on the screen.
    pub fn fill_rect(&self, memory: &mut Vec<u8>, x: usize, y: usize, w: usize, h: usize, color: u32)
        ensures
            final(memory)@ == self.with_area(
                old(memory)@,
                x as int,
                self.right_edge(x as int, w as int),
                y as int,
                self.bottom_edge(y as int, h as int),
                |px: int, py: int| color,
                false,
            ),
    {
        let x1: usize = if w > self.width || x > self.width - w {
            self.width
        } else {
            x + w
        };
        let y1: usize = if h > self.height || y > self.height - h {
            self.height
        } else {
            y + h
        };
        let ghost paint = |px: int, py: int| color;
        let mut yy: usize = y;
        while yy < y1
            invariant
                y <= yy,
                yy <= y1 || yy == y,
                forall|px: int, py: int| #[trigger] paint(px, py) == color,
                memory@ == self.with_area(
                    old(memory)@,
                    x as int,
                    x1 as int,
                    y as int,
                    yy as int,
                    paint,
                    false,
                ),
            decreases y1 - yy,
        {
            let ghost row_start = memory@;
            let mut xx: usize = x;
            while xx < x1
                invariant
                    x <= xx,
                    xx <= x1 || xx == x,
                    forall|px: int, py: int| #[trigger] paint(px, py) == color,
                    memory@ == self.with_span(
                        row_start,
                        yy as int,
                        x as int,
                        xx as int,
                        paint,
                        false,
                    ),
                decreases x1 - xx,
            {
                assert(paint(xx as int, yy as int) == color);
                self.put_pixel(memory, xx, yy, color);
                xx = xx + 1;
            }
            proof {
                self.lemma_span_end(row_start, yy as int, x as int, xx as int, x1 as int, paint, false);
            }
            yy = yy + 1;
        }
        proof {
            self.lemma_area_end(
                old(memory)@,
                x as int,
                x1 as int,
                y as int,
                yy as int,
                y1 as int,
                paint,
                false,
            );
            assert(paint =~= (|px: int, py: int| color));
        }
    }

    /// Sets every pixel of the screen to `color`, as four-byte pixels.
    pub fn clear_32(&self, memory: &mut Vec<u8>, color: u32)
        ensures
            final(memory)@ == self.with_area(
                old(memory)@,
                0,
                self.width as int,
                0,
                self.height as int,
                |px: int, py: int| color,
                true,
            ),
    {
        let ghost paint = |px: int, py: int| color;
        let mut y: usize = 0;
        while y < self.height
            invariant
                y <= self.height,
                forall|px: int, py: int| #[trigger] paint(px, py) == color,
                memory@ == self.with_area(
                    old(memory)@,
                    0,
                    self.width as int,
                    0,
                    y as int,
                    paint,
                    true,
                ),
            decreases self.height - y,
        {
            let ghost row_start = memory@;
            let mut x: usize = 0;
            while x < self.width
                invariant
                    x <= self.width,
                    forall|px: int, py: int| #[trigger] paint(px, py) == color,
                    memory@ == self.with_span(row_start, y as int, 0, x as int, paint, true),
                decreases self.width - x,
            {
                assert(paint(x as int, y as int) == color);
                self.put_pixel_32(memory, x, y, color);
                x = x + 1;
            }
            y = y + 1;
        }
        assert(paint =~= (|px: int, py: int| color));
    }

    /// Paints the background gradient over the whole screen.
    pub fn draw_gradient(&self, memory: &mut Vec<u8>)
        requires
            self.width != 1,
            self.height != 1,
            self.width * 255 <= usize::MAX,
            self.height * 128 <= usize::MAX,
        ensures
            final(memory)@ == self.with_area(
                old(memory)@,
                0,
                self.width as int,
                0,
                self.height as int,
                |px: int, py: int| self.gradient_color(px, py),
                false,
            ),
    {
        let ghost paint = |px: int, py: int| self.gradient_color(px, py);
        let mut y: usize = 0;
        while y < self.height
            invariant
                y <= self.height,
                self.width != 1,
                self.height != 1,
                self.width * 255 <= usize::MAX,
                self.height * 128 <= usize::MAX,
                forall|px: int, py: int| #[trigger] paint(px, py) == self.gradient_color(px, py),
                memory@ == self.with_area(
                    old(memory)@,
                    0,
                    self.width as int,
                    0,
                    y as int,
                    paint,
                    false,
                ),
            decreases self.height - y,
        {
            let ghost row_start = memory@;
            let mut x: usize = 0;
            while x < self.width
                invariant
                    x <= self.width,
                    y < self.height,
                    self.width != 1,
                    self.height != 1,
                    self.width * 255 <= usize::MAX,
                    self.height * 128 <= usize::MAX,
                    forall|px: int, py: int|
                        #[trigger] paint(px, py) == self.gradient_color(px, py),
                    memory@ == self.with_span(row_start, y as int, 0, x as int, paint, false),
                decreases self.width - x,
            {
                let color = self.gradient_at(x, y);
                assert(paint(x as int, y as int) == color);
                self.put_pixel(memory, x, y, color);
                x = x + 1;
            }
            y = y + 1;
        }
        assert(paint =~= (|px: int, py: int| self.gradient_color(px, py)));
    }

    /// The colour of pixel (`x`, `y`) in the background gradient.
    pub fn gradient_at(&self, x: usize, y: usize) -> (color: u32)
        requires
            x < self.width,
            y < self.height,
            self.width != 1,
            self.height != 1,
            self.width * 255 <= usize::MAX,
            self.height * 128 <= usize::MAX,
        ensures
            color == self.gradient_color(x as int, y as int),
    {
        let across: usize = self.width - 1;
        let down: usize = self.height - 1;
        assert(x * 255 <= across * 255 && x * 255 / (across as int) <= 255) by (nonlinear_arith)
            requires
                0 <= x <= across,
                across > 0,
        ;
        assert(y * 128 <= down * 128 && y * 128 / (down as int) <= 128) by (nonlinear_arith)
            requires
                0 <= y <= down,
                down > 0,
        ;
        let t: usize = (x * 255) / across;
        let g: usize = (y * 128) / down;
        let r: u32 = t as u32;
        let b: u32 = (255 - t) as u32;
        0xFF00_0000 + r * 0x1_0000 + (g as u32) * 0x100 + b
    }

    /// A span that was painted up to its end, or that has no column at
    /// all, is painted.
    proof fn lemma_span_end(
        self,
        memory: Seq<u8>,
        y: int,
        from: int,
        reached: int,
        to: int,
        color: spec_fn(int, int) -> u32,
        wide: bool,
    )
        requires
            from <= reached,
            reached >= to,
            reached == to || reached == from,
        ensures
            self.with_span(memory, y, from, reached, color, wide) == self.with_span(
                memory,
                y,
                from,
                to,
                color,
                wide,
            ),
    {
    }

    /// An area that was painted up to its last row, or that has no row at
    /// all, is painted.
    proof fn lemma_area_end(
        self,
        memory: Seq<u8>,
        x0: int,
        x1: int,
        y0: int,
        reached: int,
        y1: int,
        color: spec_fn(int, int) -> u32,
        wide: bool,
    )
        requires
            y0 <= reached,
            reached >= y1,
            reached == y1 || reached == y0,
        ensures
            self.with_area(memory, x0, x1, y0, reached, color, wide) == self.with_area(
                memory,
                x0,
                x1,
                y0,
                y1,
                color,
                wide,
            ),
    {
    }
}

impl Framebuffer {
    /// Video memory after the pixels of row `y` from column `from` up to,
    /// not including, column `to` were each given the bytes `pixel`, a
    /// pixel being as wide as `pixel` is long. Pixels whose bytes do not all
    /// lie in `memory` are left out; a row off the screen is left alone.
    pub open spec fn with_row_bytes(
        self,
        memory: Seq<u8>,
        y: int,
        from: int,
        to: int,
        pixel: Seq<u8>,
    ) -> Seq<u8>
        decreases to - from,
    {
        if to <= from || y >= self.height {
            memory
        } else {
            let before = self.with_row_bytes(memory, y, from, to - 1, pixel);
            let at = y * self.pitch + (to - 1) * pixel.len();
            if at + pixel.len() <= before.len() {
                splice(before, at, pixel)
            } else {
                before
            }
        }
    }

    /// Fills row `y` from column `x0` up to, not including, column `x1`
    /// with pixels of the given bytes.
    pub fn fill_row_bytes(
        &self,
        memory: &mut Vec<u8>,
        y: usize,
        x0: usize,
        x1: usize,
        pixel_bytes: &Vec<u8>,
    )
        ensures
            final(memory)@ == self.with_row_bytes(
                old(memory)@,
                y as int,
                x0 as int,
                x1 as int,
                pixel_bytes@,
            ),
    {
        if y >= self.height || x0 >= x1 {
            return;
        }
        let mut x: usize = x0;
        while x < x1
            invariant
                x0 <= x <= x1,
                y < self.height,
                memory@ == self.with_row_bytes(
                    old(memory)@,
                    y as int,
                    x0 as int,
                    x as int,
                    pixel_bytes@,
                ),
            decreases x1 - x,
        {
            match span_start(
                memory.len(),
                y,
                self.pitch,
                x,
                pixel_bytes.len(),
                pixel_bytes.len(),
            ) {
                Some(at) => {
                    store(memory, at, pixel_bytes);
                },
                None => {},
            }
            x = x + 1;
        }
    }
}

// ---------------------------------------------------------------------------
// What painting does to the pixels
// ---------------------------------------------------------------------------

impl Framebuffer {
    /// The geometry is one the drawing routines can serve, and `len` bytes
    /// of video memory hold the whole screen: the depth is 32, 24 or 16
    /// bits, a row of pixels fits in the pitch, and all rows fit in memory.
    pub open spec fn sound(self, len: int) -> bool {
        &&& self.bpp == 32 || self.bpp == 24 || self.bpp == 16
        &&& self.width * (self.bpp / 8) <= self.pitch
        &&& self.pitch * self.height <= len
    }

    /// The bytes of pixel (`x`, `y`) in video memory.
    pub open spec fn pixel(self, memory: Seq<u8>, x: int, y: int) -> Seq<u8> {
        memory.subrange(self.offset_of(x, y), self.offset_of(x, y) + self.bpp / 8)
    }

    /// On a sound framebuffer every pixel of the screen lies in memory.
    pub proof fn lemma_pixel_in_memory(self, len: int, x: int, y: int)
        requires
            self.sound(len),
            self.shows(x, y),
        ensures
            0 <= self.offset_of(x, y),
            self.offset_of(x, y) + self.bpp / 8 <= len,
    {
        let b = (self.bpp / 8) as int;
        let pitch = self.pitch as int;
        let width = self.width as int;
        let height = self.height as int;
        assert(0 <= y * pitch && 0 <= x * b && x * b + b <= width * b) by (nonlinear_arith)
            requires
                0 <= y,
                0 <= pitch,
                0 <= x < width,
                0 <= b,
        ;
        assert(y * pitch + pitch <= pitch * height) by (nonlinear_arith)
            requires
                0 <= y < height,
                0 <= pitch,
        ;
    }

    /// On a sound framebuffer two different pixels share no byte.
    pub proof fn lemma_pixels_apart(self, len: int, x: int, y: int, x2: int, y2: int)
        requires
            self.sound(len),
            self.shows(x, y),
            self.shows(x2, y2),
            x != x2 || y != y2,
        ensures
            self.offset_of(x, y) + self.bpp / 8 <= self.offset_of(x2, y2) || self.offset_of(
                x2,
                y2,
            ) + self.bpp / 8 <= self.offset_of(x, y),
    {
        let b = (self.bpp / 8) as int;
        let pitch = self.pitch as int;
        let width = self.width as int;
        if y == y2 {
            if x < x2 {
                assert(x * b + b <= x2 * b) by (nonlinear_arith)
                    requires
                        x + 1 <= x2,
                        0 <= b,
                ;
            } else {
                assert(x2 * b + b <= x * b) by (nonlinear_arith)
                    requires
                        x2 + 1 <= x,
                        0 <= b,
                ;
            }
        } else if y < y2 {
            assert(x * b + b <= width * b && 0 <= x2 * b && y * pitch + pitch <= y2 * pitch)
                by (nonlinear_arith)
                requires
                    0 <= x < width,
                    0 <= x2,
                    0 <= b,
                    y + 1 <= y2,
                    0 <= pitch,
            ;
        } else {
            assert(x2 * b + b <= width * b && 0 <= x * b && y2 * pitch + pitch <= y * pitch)
                by (nonlinear_arith)
                requires
                    0 <= x2 < width,
                    0 <= x,
                    0 <= b,
                    y2 + 1 <= y,
                    0 <= pitch,
            ;
        }
    }

    /// Putting a pixel changes that pixel and no other. On a sound
    /// framebuffer, after pixel (`x`, `y`) was given `color`, it holds the
    /// bytes of `color`, and every other pixel of the screen holds what it
    /// held before.
    pub proof fn lemma_put_pixel_effect(
        self,
        memory: Seq<u8>,
        x: int,
        y: int,
        color: u32,
        x2: int,
        y2: int,
    )
        requires
            self.sound(memory.len() as int),
            self.shows(x2, y2),
        ensures
            self.with_pixel(memory, x, y, color).len() == memory.len(),
            self.pixel(self.with_pixel(memory, x, y, color), x2, y2) == if x2 == x && y2 == y {
                encoded(self.bpp as int, color)
            } else {
                self.pixel(memory, x2, y2)
            },
    {
        let after = self.with_pixel(memory, x, y, color);
        self.lemma_pixel_in_memory(memory.len() as int, x2, y2);
        if self.shows(x, y) {
            self.lemma_pixel_in_memory(memory.len() as int, x, y);
            if x2 == x && y2 == y {
                assert(self.pixel(after, x2, y2) =~= encoded(self.bpp as int, color));
            } else {
                self.lemma_pixels_apart(memory.len() as int, x, y, x2, y2);
                assert(self.pixel(after, x2, y2) =~= self.pixel(memory, x2, y2));
            }
        }
    }

    /// Painting a span of a row changes the pixels of the span and no
    /// others.
    pub proof fn lemma_span_effect(
        self,
        memory: Seq<u8>,
        y: int,
        from: int,
        to: int,
        color: spec_fn(int, int) -> u32,
        x2: int,
        y2: int,
    )
        requires
            self.sound(memory.len() as int),
            self.shows(x2, y2),
        ensures
            self.with_span(memory, y, from, to, color, false).len() == memory.len(),
            self.pixel(self.with_span(memory, y, from, to, color, false), x2, y2) == if y2 == y
                && from <= x2 < to {
                encoded(self.bpp as int, color(x2, y2))
            } else {
                self.pixel(memory, x2, y2)
            },
        decreases to - from,
    {
        if to > from {
            self.lemma_span_effect(memory, y, from, to - 1, color, x2, y2);
            let before = self.with_span(memory, y, from, to - 1, color, false);
            self.lemma_put_pixel_effect(before, to - 1, y, color(to - 1, y), x2, y2);
        }
    }

    /// Painting an area changes the pixels of the area and no others. On a
    /// sound framebuffer, after the rows from `y0` to `y1` were painted from
    /// column `x0` to `x1`, every pixel of the screen in that area holds the
    /// bytes of its colour, and every other pixel of the screen holds what
    /// it held before.
    pub proof fn lemma_area_effect(
        self,
        memory: Seq<u8>,
        x0: int,
        x1: int,
        y0: int,
        y1: int,
        color: spec_fn(int, int) -> u32,
        x2: int,
        y2: int,
    )
        requires
            self.sound(memory.len() as int),
            self.shows(x2, y2),
        ensures
            self.with_area(memory, x0, x1, y0, y1, color, false).len() == memory.len(),
            self.pixel(self.with_area(memory, x0, x1, y0, y1, color, false), x2, y2) == if y0
                <= y2 < y1 && x0 <= x2 < x1 {
                encoded(self.bpp as int, color(x2, y2))
            } else {
                self.pixel(memory, x2, y2)
            },
        decreases y1 - y0,
    {
        if y1 > y0 {
            self.lemma_area_effect(memory, x0, x1, y0, y1 - 1, color, x2, y2);
            let before = self.with_area(memory, x0, x1, y0, y1 - 1, color, false);
            self.lemma_span_effect(before, y1 - 1, x0, x1, color, x2, y2);
        }
    }

    /// At 32 bits per pixel the four-byte routines do what the general ones
    /// do.
    pub proof fn lemma_wide_is_general(
        self,
        memory: Seq<u8>,
        x0: int,
        x1: int,
        y0: int,
        y1: int,
        color: spec_fn(int, int) -> u32,
    )
        requires
            self.bpp == 32,
        ensures
            self.with_area(memory, x0, x1, y0, y1, color, true) == self.with_area(
                memory,
                x0,
                x1,
                y0,
                y1,
                color,
                false,
            ),
        decreases y1 - y0,
    {
        if y1 > y0 {
            self.lemma_wide_is_general(memory, x0, x1, y0, y1 - 1, color);
            self.lemma_wide_span(
                self.with_area(memory, x0, x1, y0, y1 - 1, color, false),
                y1 - 1,
                x0,
                x1,
                color,
            );
        }
    }

    /// At 32 bits per pixel a span of four-byte pixels is the general span.
    proof fn lemma_wide_span(
        self,
        memory: Seq<u8>,
        y: int,
        from: int,
        to: int,
        color: spec_fn(int, int) -> u32,
    )
        requires
            self.bpp == 32,
        ensures
            self.with_span(memory, y, from, to, color, true) == self.with_span(
                memory,
                y,
                from,
                to,
                color,
                false,
            ),
        decreases to - from,
    {
        if to > from {
            self.lemma_wide_span(memory, y, from, to - 1, color);
        }
    }
}

// ---------------------------------------------------------------------------
// Lines
// ---------------------------------------------------------------------------

/// The distance between two coordinates.
pub open spec fn span(a: int, b: int) -> int {
    if a <= b {
        b - a
    } else {
        a - b
    }
}

/// The direction from coordinate `a` towards `b`: one forwards, or one
/// backwards also where the two are equal.
pub open spec fn toward(a: int, b: int) -> int {
    if a < b {
        1
    } else {
        -1
    }
}

/// Coordinate `b` lies between `a` and `c`, the ends included.
pub open spec fn between(a: int, b: int, c: int) -> bool {
    if a <= c {
        a <= b <= c
    } else {
        c <= b <= a
    }
}

/// One pen position of the line algorithm: the pixel and the error term.
pub struct Pen {
    pub x: int,
    pub y: int,
    pub err: int,
}

/// The line from (`x0`, `y0`) to (`x1`, `y1`) as the algorithm sees it.
pub struct Line {
    pub x0: int,
    pub y0: int,
    pub x1: int,
    pub y1: int,
}

impl Line {
    /// Extent of the line in x.
    pub open spec fn dx(self) -> int {
        span(self.x0, self.x1)
    }

    /// Extent of the line in y, negated.
    pub open spec fn dy(self) -> int {
        -span(self.y0, self.y1)
    }

    /// The pen at the start of the line.
    pub open spec fn start(self) -> Pen {
        Pen { x: self.x0, y: self.y0, err: self.dx() + self.dy() }
    }

    /// The pen has reached the end of the line.
    pub open spec fn done(self, pen: Pen) -> bool {
        pen.x == self.x1 && pen.y == self.y1
    }

    /// The pen after one step: it moves in x where twice the error is at
    /// least `dy`, and in y where twice the error is at most `dx`.
    pub open spec fn step(self, pen: Pen) -> Pen {
        let e2 = 2 * pen.err;
        let in_x = e2 >= self.dy();
        let in_y = e2 <= self.dx();
        Pen {
            x: if in_x {
                pen.x + toward(self.x0, self.x1)
            } else {
                pen.x
            },
            y: if in_y {
                pen.y + toward(self.y0, self.y1)
            } else {
                pen.y
            },
            err: pen.err + if in_x {
                self.dy()
            } else {
                0
            } + if in_y {
                self.dx()
            } else {
                0
            },
        }
    }

    /// Number of steps already taken in x, and in y, by a pen on the line.
    pub open spec fn steps_x(self, pen: Pen) -> int {
        span(self.x0, pen.x)
    }

    /// Number of steps already taken in y by a pen on the line.
    pub open spec fn steps_y(self, pen: Pen) -> int {
        span(self.y0, pen.y)
    }

    /// The pen lies on the way from the start to the end, and its error
    /// term is the one that belongs to its position.
    pub open spec fn on_line(self, pen: Pen) -> bool {
        &&& between(self.x0, pen.x, self.x1)
        &&& between(self.y0, pen.y, self.y1)
        &&& pen.err == self.dx() * (1 + self.steps_y(pen)) + self.dy() * (1 + self.steps_x(pen))
        &&& 2 * self.dy() <= pen.err <= 2 * self.dx()
    }

    /// Number of single moves that still separate the pen from the end.
    pub open spec fn remaining(self, pen: Pen) -> int {
        (self.dx() - self.steps_x(pen)) + (-self.dy() - self.steps_y(pen))
    }
}

/// The line algorithm reaches the end. A pen on the line that has not
/// reached the end stays on the line when it steps, and comes closer to the
/// end by at least one move.
pub proof fn lemma_line_step(line: Line, pen: Pen)
    requires
        line.on_line(pen),
        !line.done(pen),
    ensures
        line.on_line(line.step(pen)),
        line.remaining(line.step(pen)) < line.remaining(pen),
        line.remaining(line.step(pen)) >= 0,
{
    let dx = line.dx();
    let dy = line.dy();
    let sxs = line.steps_x(pen);
    let sys = line.steps_y(pen);
    // At the end in x, the pen moves in y only.
    if sxs == dx {
        assert(sys <= -dy - 1);
        assert(dx * (1 + sys) + dy * (1 + sxs) <= dy) by (nonlinear_arith)
            requires
                sxs == dx,
                0 <= sys <= -dy - 1,
                dx >= 0,
        ;
    }
    // At the end in y, the pen moves in x only.
    if sys == -dy {
        assert(sxs <= dx - 1);
        assert(dx * (1 + sys) + dy * (1 + sxs) >= dx) by (nonlinear_arith)
            requires
                sys == -dy,
                0 <= sxs <= dx - 1,
                dy <= 0,
        ;
    }
    assert(dx * (1 + (sys + 1)) == dx * (1 + sys) + dx) by (nonlinear_arith);
    assert(dy * (1 + (sxs + 1)) == dy * (1 + sxs) + dy) by (nonlinear_arith);
}

/// The pen at the start of a line is on the line.
pub proof fn lemma_line_start(line: Line)
    ensures
        line.on_line(line.start()),
        line.remaining(line.start()) == line.dx() - line.dy(),
{
    let dx = line.dx();
    let dy = line.dy();
    assert(dx * (1 + 0) + dy * (1 + 0) == dx + dy) by (nonlinear_arith);
}

impl Framebuffer {
    /// Video memory after the line algorithm drew from `pen` on: the pixel
    /// under the pen, then, unless the pen is at the end, the rest from the
    /// next pen position. `budget` bounds the number of steps.
    pub open spec fn with_line_from(
        self,
        memory: Seq<u8>,
        line: Line,
        pen: Pen,
        color: u32,
        budget: nat,
    ) -> Seq<u8>
        decreases budget,
    {
        let drawn = self.with_pixel(memory, pen.x, pen.y, color);
        if line.done(pen) || budget == 0 {
            drawn
        } else {
            self.with_line_from(drawn, line, line.step(pen), color, (budget - 1) as nat)
        }
    }

    /// Video memory after the line from (`x0`, `y0`) to (`x1`, `y1`) was
    /// drawn, one pixel wide, both ends included; pixels off the screen are
    /// left out.
    pub open spec fn with_line(self, memory: Seq<u8>, line: Line, color: u32) -> Seq<u8> {
        self.with_line_from(memory, line, line.start(), color, line.remaining(line.start()) as nat)
    }

    /// Draws the line from (`x0`, `y0`) to (`x1`, `y1`).
    pub fn draw_line(
        &self,
        memory: &mut Vec<u8>,
        x0: isize,
        y0: isize,
        x1: isize,
        y1: isize,
        color: u32,
    )
        ensures
            final(memory)@ == self.with_line(
                old(memory)@,
                Line { x0: x0 as int, y0: y0 as int, x1: x1 as int, y1: y1 as int },
                color,
            ),
    {
        let ghost line = Line { x0: x0 as int, y0: y0 as int, x1: x1 as int, y1: y1 as int };
        let dx: i128 = if x0 <= x1 {
            x1 as i128 - x0 as i128
        } else {
            x0 as i128 - x1 as i128
        };
        let sx: i128 = if x0 < x1 {
            1
        } else {
            -1
        };
        let ady: i128 = if y0 <= y1 {
            y1 as i128 - y0 as i128
        } else {
            y0 as i128 - y1 as i128
        };
        let dy: i128 = -ady;
        let sy: i128 = if y0 < y1 {
            1
        } else {
            -1
        };
        let mut err: i128 = dx + dy;
        let mut x: i128 = x0 as i128;
        let mut y: i128 = y0 as i128;
        let ghost mut budget: nat = line.remaining(line.start()) as nat;
        proof {
            lemma_line_start(line);
        }
        loop
            invariant
                dx == line.dx(),
                dy == line.dy(),
                sx == toward(line.x0, line.x1),
                sy == toward(line.y0, line.y1),
                line == (Line { x0: x0 as int, y0: y0 as int, x1: x1 as int, y1: y1 as int }),
                line.on_line(Pen { x: x as int, y: y as int, err: err as int }),
                budget >= line.remaining(Pen { x: x as int, y: y as int, err: err as int }),
                self.with_line(old(memory)@, line, color) == self.with_line_from(
                    memory@,
                    line,
                    Pen { x: x as int, y: y as int, err: err as int },
                    color,
                    budget,
                ),
            ensures
                memory@ == self.with_line(old(memory)@, line, color),
            decreases line.remaining(Pen { x: x as int, y: y as int, err: err as int }),
        {
            let ghost pen = Pen { x: x as int, y: y as int, err: err as int };
            if x >= 0 && x < self.width as i128 && y >= 0 && y < self.height as i128 {
                self.put_pixel(memory, x as usize, y as usize, color);
            }
            if x == x1 as i128 && y == y1 as i128 {
                break;
            }
            proof {
                lemma_line_step(line, pen);
            }
            let e2: i128 = 2 * err;
            if e2 >= dy {
                err = err + dy;
                x = x + sx;
            }
            if e2 <= dx {
                err = err + dx;
                y = y + sy;
            }
            proof {
                budget = (budget - 1) as nat;
            }
        }
    }
}

// ---------------------------------------------------------------------------
// The boot information block
// ---------------------------------------------------------------------------

/// Offset of the first tag in the boot information block.
pub const FIRST_TAG: usize = 8;
/// Size of the header of a tag: its type and its size.
pub const TAG_HEADER: usize = 8;
/// Type of the tag that ends the block.
pub const TAG_END: u64 = 0;
/// Type of the tag that describes the framebuffer.
pub const TAG_FRAMEBUFFER: u64 = 8;
/// Number of bytes of the framebuffer tag that are read.
pub const FRAMEBUFFER_TAG: usize = 29;

/// The size of a tag rounded up to the next multiple of eight, which is the
/// distance to the next tag.
pub open spec fn padded(size: int) -> int {
    ((size + 7) / 8) * 8
}

/// The framebuffer that the tag at `offset` describes: address, pitch,
/// width, height and depth, at their places in the tag.
pub open spec fn framebuffer_at(bytes: Seq<u8>, offset: int) -> Framebuffer {
    Framebuffer {
        phys_addr: le_value(bytes, offset + 8, 8) as usize,
        pitch: le_value(bytes, offset + 16, 4) as usize,
        width: le_value(bytes, offset + 20, 4) as usize,
        height: le_value(bytes, offset + 24, 4) as usize,
        bpp: bytes[offset + 28] as usize,
    }
}

/// The framebuffer found when the tags are walked from `offset` on, none
/// being read beyond `limit`. The walk ends without a framebuffer at the
/// end tag, at a tag of size zero, at a tag that reaches to the limit or
/// beyond, and where no tag header fits any more; a framebuffer tag that
/// reaches beyond the limit, that is cut short, or whose address is no
/// address on this machine gives none either.
pub open spec fn find_from(bytes: Seq<u8>, limit: int, offset: int) -> Option<Framebuffer>
    decreases limit - offset,
{
    if offset < 0 || offset + TAG_HEADER > limit || limit > bytes.len() {
        None
    } else {
        let typ = le_value(bytes, offset, 4);
        let size = le_value(bytes, offset + 4, 4);
        if typ == TAG_END && size == 8 {
            None
        } else if typ == TAG_FRAMEBUFFER {
            if offset + size > limit || offset + FRAMEBUFFER_TAG > bytes.len() || le_value(
                bytes,
                offset + 8,
                8,
            ) > usize::MAX {
                None
            } else {
                Some(framebuffer_at(bytes, offset))
            }
        } else if padded(size) <= 0 || offset + padded(size) > limit {
            None
        } else {
            find_from(bytes, limit, offset + padded(size))
        }
    }
}

/// The framebuffer that a boot information block describes. The block
/// starts with its total size; tags are read up to that size and up to the
/// end of `bytes`, whichever comes first.
pub open spec fn find_in(bytes: Seq<u8>) -> Option<Framebuffer> {
    if bytes.len() < 4 || le_value(bytes, 0, 4) == 0 {
        None
    } else if le_value(bytes, 0, 4) <= bytes.len() {
        find_from(bytes, le_value(bytes, 0, 4), FIRST_TAG as int)
    } else {
        find_from(bytes, bytes.len() as int, FIRST_TAG as int)
    }
}

/// Finds the framebuffer in the boot information block `mbi`.
pub fn find_framebuffer(mbi: &[u8]) -> (found: Option<Framebuffer>)
    ensures
        found == find_in(mbi@),
{
    let len: usize = mbi.len();
    if len < 4 {
        return None;
    }
    let total_size: u64 = read_le(mbi, 0, 4);
    if total_size == 0 {
        return None;
    }
    let limit: usize = if total_size <= len as u64 {
        total_size as usize
    } else {
        len
    };
    let mut offset: usize = FIRST_TAG;
    while offset <= limit && limit - offset >= TAG_HEADER
        invariant
            len == mbi@.len(),
            limit <= len,
            find_in(mbi@) == find_from(mbi@, limit as int, offset as int),
        decreases limit - offset,
    {
        let typ: u64 = read_le(mbi, offset, 4);
        let size: u64 = read_le(mbi, offset + 4, 4);
        proof {
            lemma_le_value_bound(mbi@, offset + 4, 4);
        }
        if typ == TAG_END && size == 8 {
            return None;
        }
        if typ == TAG_FRAMEBUFFER {
            if size > (limit - offset) as u64 || len - offset < FRAMEBUFFER_TAG {
                return None;
            }
            let addr: u64 = read_le(mbi, offset + 8, 8);
            if addr > usize::MAX as u64 {
                return None;
            }
            let pitch: u64 = read_le(mbi, offset + 16, 4);
            let width: u64 = read_le(mbi, offset + 20, 4);
            let height: u64 = read_le(mbi, offset + 24, 4);
            let bpp: u8 = mbi[offset + 28];
            proof {
                lemma_le_value_bound(mbi@, offset + 16, 4);
                lemma_le_value_bound(mbi@, offset + 20, 4);
                lemma_le_value_bound(mbi@, offset + 24, 4);
            }
            return Some(
                Framebuffer {
                    phys_addr: addr as usize,
                    pitch: pitch as usize,
                    width: width as usize,
                    height: height as usize,
                    bpp: bpp as usize,
                },
            );
        }
        let step: u64 = ((size + 7) / 8) * 8;
        if step == 0 {
            return None;
        }
        if step > (limit - offset) as u64 {
            return None;
        }
        offset = offset + step as usize;
    }
    None
}

} // verus!
