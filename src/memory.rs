//! The machine's byte-addressable memory, with the built-in font resident at a
//! fixed offset, and its monochrome display.

use vstd::prelude::*;
use crate::error::Chip8Error;
use vstd::arithmetic::div_mod::{
    lemma_add_mod_noop, lemma_fundamental_div_mod, lemma_fundamental_div_mod_converse,
    lemma_mod_bound,
};

verus! {

/// Number of addressable bytes.
pub const MEMORY_SIZE: usize = 4096;

/// Address of the first byte of the font table.
pub const FONT_BASE: usize = 0x50;

/// Bytes per font glyph.
pub const GLYPH_SIZE: usize = 5;

/// Bytes in the font table: sixteen glyphs.
pub const FONT_SIZE: usize = 80;

/// Address at which a program image is loaded, and where execution starts.
pub const PROGRAM_START: usize = 0x200;

/// The font table: glyphs for the hexadecimal digits 0 to F, five rows each,
/// one byte per row with the pixels in the high nibble.
pub open spec fn font() -> Seq<u8> {
    seq![
        0xF0, 0x90, 0x90, 0x90, 0xF0,  // 0
        0x20, 0x60, 0x20, 0x20, 0x70,  // 1
        0xF0, 0x10, 0xF0, 0x80, 0xF0,  // 2
        0xF0, 0x10, 0xF0, 0x10, 0xF0,  // 3
        0x90, 0x90, 0xF0, 0x10, 0x10,  // 4
        0xF0, 0x80, 0xF0, 0x10, 0xF0,  // 5
        0xF0, 0x80, 0xF0, 0x90, 0xF0,  // 6
        0xF0, 0x10, 0x20, 0x40, 0x40,  // 7
        0xF0, 0x90, 0xF0, 0x90, 0xF0,  // 8
        0xF0, 0x90, 0xF0, 0x10, 0xF0,  // 9
        0xF0, 0x90, 0xF0, 0x90, 0x90,  // A
        0xE0, 0x90, 0xE0, 0x90, 0xE0,  // B
        0xF0, 0x80, 0x80, 0x80, 0xF0,  // C
        0xE0, 0x90, 0x90, 0x90, 0xE0,  // D
        0xF0, 0x80, 0xF0, 0x80, 0xF0,  // E
        0xF0, 0x80, 0xF0, 0x80, 0x80,  // F
    ]
}

/// The memory of a freshly built machine: zero everywhere but the font table.
pub open spec fn initial_memory() -> Seq<u8> {
    Seq::new(
        MEMORY_SIZE as nat,
        |a: int|
            if FONT_BASE <= a < FONT_BASE + FONT_SIZE {
                font()[a - FONT_BASE]
            } else {
                0u8
            },
    )
}

/// `mem` with `bytes` written over it from `addr` on.
pub open spec fn overwrite(mem: Seq<u8>, addr: int, bytes: Seq<u8>) -> Seq<u8> {
    Seq::new(
        mem.len(),
        |a: int|
            if addr <= a < addr + bytes.len() {
                bytes[a - addr]
            } else {
                mem[a]
            },
    )
}

fn font_bytes() -> (r: [u8; 80])
    ensures
        r@ == font(),
{
    let r: [u8; 80] = [
        0xF0, 0x90, 0x90, 0x90, 0xF0,  // 0
        0x20, 0x60, 0x20, 0x20, 0x70,  // 1
        0xF0, 0x10, 0xF0, 0x80, 0xF0,  // 2
        0xF0, 0x10, 0xF0, 0x10, 0xF0,  // 3
        0x90, 0x90, 0xF0, 0x10, 0x10,  // 4
        0xF0, 0x80, 0xF0, 0x10, 0xF0,  // 5
        0xF0, 0x80, 0xF0, 0x90, 0xF0,  // 6
        0xF0, 0x10, 0x20, 0x40, 0x40,  // 7
        0xF0, 0x90, 0xF0, 0x90, 0xF0,  // 8
        0xF0, 0x90, 0xF0, 0x10, 0xF0,  // 9
        0xF0, 0x90, 0xF0, 0x90, 0x90,  // A
        0xE0, 0x90, 0xE0, 0x90, 0xE0,  // B
        0xF0, 0x80, 0x80, 0x80, 0xF0,  // C
        0xE0, 0x90, 0x90, 0x90, 0xE0,  // D
        0xF0, 0x80, 0xF0, 0x80, 0xF0,  // E
        0xF0, 0x80, 0xF0, 0x80, 0x80,  // F
    ];
    assert(r@ =~= font());
    r
}

/// Memory: `MEMORY_SIZE` bytes, seen as a sequence of bytes. Nothing guards
/// the font table against writes: programs leave it alone by convention.
pub struct Ram {
    data: Vec<u8>,
}

impl View for Ram {
    type V = Seq<u8>;

    closed spec fn view(&self) -> Seq<u8> {
        self.data@
    }
}

impl Ram {
    /// Memory holding the font table at `FONT_BASE` and zero elsewhere.
    pub fn new() -> (r: Ram)
        ensures
            r@ == initial_memory(),
    {
        let mut data: Vec<u8> = vec![0u8; MEMORY_SIZE];
        let glyphs = font_bytes();
        let mut k: usize = 0;
        while k < FONT_SIZE
            invariant
                k <= FONT_SIZE,
                glyphs@ == font(),
                data@.len() == MEMORY_SIZE,
                forall|a: int|
                    0 <= a < MEMORY_SIZE ==> #[trigger] data@[a] == if FONT_BASE <= a < FONT_BASE
                        + k {
                        font()[a - FONT_BASE]
                    } else {
                        0u8
                    },
            decreases FONT_SIZE - k,
        {
            data[FONT_BASE + k] = glyphs[k];
            k += 1;
        }
        let r = Ram { data };
        assert(r@ =~= initial_memory());
        r
    }

    /// The byte at `addr`; `OutOfBounds` past the end of memory.
    pub fn read(&self, addr: usize) -> (r: Result<u8, Chip8Error>)
        ensures
            addr < self@.len() ==> r == Ok::<u8, Chip8Error>(self@[addr as int]),
            addr >= self@.len() ==> r == Err::<u8, Chip8Error>(Chip8Error::OutOfBounds),
    {
        if addr < self.data.len() {
            Ok(self.data[addr])
        } else {
            Err(Chip8Error::OutOfBounds)
        }
    }

    /// Writes `byte` at `addr`; `OutOfBounds`, with memory unchanged, past the end.
    pub fn write(&mut self, addr: usize, byte: u8) -> (r: Result<(), Chip8Error>)
        ensures
            addr < old(self)@.len() ==> r is Ok && final(self)@ == old(self)@.update(
                addr as int,
                byte,
            ),
            addr >= old(self)@.len() ==> r == Err::<(), Chip8Error>(Chip8Error::OutOfBounds)
                && final(self)@ == old(self)@,
    {
        if addr < self.data.len() {
            self.data[addr] = byte;
            Ok(())
        } else {
            Err(Chip8Error::OutOfBounds)
        }
    }

    /// The `len` bytes from `addr` on; `OutOfBounds` where they pass the end.
    pub fn read_range(&self, addr: usize, len: usize) -> (r: Result<Vec<u8>, Chip8Error>)
        ensures
            addr + len <= self@.len() ==> r is Ok && r.unwrap()@ == self@.subrange(
                addr as int,
                addr + len,
            ),
            addr + len > self@.len() ==> r == Err::<Vec<u8>, Chip8Error>(Chip8Error::OutOfBounds),
    {
        if addr > self.data.len() || len > self.data.len() - addr {
            return Err(Chip8Error::OutOfBounds);
        }
        let mut out: Vec<u8> = Vec::new();
        let mut k: usize = 0;
        while k < len
            invariant
                k <= len,
                addr + len <= self.data.len(),
                out@ == self@.subrange(addr as int, addr + k),
            decreases len - k,
        {
            out.push(self.data[addr + k]);
            k += 1;
            assert(out@ =~= self@.subrange(addr as int, addr + k));
        }
        Ok(out)
    }

    /// Writes `bytes` from `addr` on; `OutOfBounds`, with memory unchanged,
    /// where they would pass the end.
    pub fn write_range(&mut self, addr: usize, bytes: &[u8]) -> (r: Result<(), Chip8Error>)
        ensures
            addr + bytes@.len() <= old(self)@.len() ==> r is Ok && final(self)@ == overwrite(
                old(self)@,
                addr as int,
                bytes@,
            ),
            addr + bytes@.len() > old(self)@.len() ==> r == Err::<(), Chip8Error>(
                Chip8Error::OutOfBounds,
            ) && final(self)@ == old(self)@,
    {
        if addr > self.data.len() || bytes.len() > self.data.len() - addr {
            return Err(Chip8Error::OutOfBounds);
        }
        let ghost before = self.data@;
        let mut k: usize = 0;
        while k < bytes.len()
            invariant
                k <= bytes@.len(),
                addr + bytes@.len() <= before.len(),
                self.data.len() == before.len(),
                self.data@ == overwrite(before, addr as int, bytes@.subrange(0, k as int)),
            decreases bytes@.len() - k,
        {
            self.data[addr + k] = bytes[k];
            k += 1;
            assert(self.data@ =~= overwrite(before, addr as int, bytes@.subrange(0, k as int)));
        }
        assert(bytes@.subrange(0, bytes@.len() as int) =~= bytes@);
        Ok(())
    }
}

impl Default for Ram {
    fn default() -> (r: Ram)
        ensures
            r@ == initial_memory(),
    {
        Ram::new()
    }
}

/// Number of pixels on the display.
pub const DISPLAY_SIZE: usize = 2048;

/// Pixels per display row: the display's width.
pub const ROW_SIZE: usize = 64;

/// Rows on the display: its height.
pub const COL_SIZE: usize = 32;

/// Bit `j` of a sprite row, counted from the most significant bit (column 0).
pub open spec fn sprite_bit(byte: u8, j: int) -> u8 {
    (byte >> ((7 - j) as u8)) & 1u8
}

/// The display index that sprite row `i`, column `j` lands on when the
/// sprite is drawn at `(x, y)`, wrapping at the right and bottom edges.
pub open spec fn pixel_of(x: u8, y: u8, i: int, j: int) -> int {
    ((y + i) % COL_SIZE as int) * ROW_SIZE as int + (x + j) % ROW_SIZE as int
}

/// How many columns pixel `p` lies to the right of column `x`, modulo the width.
pub open spec fn column_offset(x: u8, p: int) -> int {
    (p % ROW_SIZE as int - x) % ROW_SIZE as int
}

/// The bit that the first `w` columns of sprite row `i` put on pixel `p`
/// (0 where they do not touch it).
pub open spec fn row_bits(x: u8, y: u8, s: Seq<u8>, i: int, w: int, p: int) -> u8 {
    if p / ROW_SIZE as int == (y + i) % COL_SIZE as int && column_offset(x, p) < w {
        sprite_bit(s[i], column_offset(x, p))
    } else {
        0u8
    }
}

/// The XOR of the bits that the first `k` rows of sprite `s` put on pixel `p`.
pub open spec fn sprite_mask(x: u8, y: u8, s: Seq<u8>, k: nat, p: int) -> u8
    decreases k,
{
    if k == 0 {
        0u8
    } else {
        sprite_mask(x, y, s, (k - 1) as nat, p) ^ row_bits(x, y, s, k - 1, 8, p)
    }
}

/// The display `buf` after sprite `s` is XOR-drawn at `(x, y)`.
pub open spec fn drawn(buf: Seq<u8>, x: u8, y: u8, s: Seq<u8>) -> Seq<u8> {
    Seq::new(buf.len(), |p: int| buf[p] ^ sprite_mask(x, y, s, s.len(), p))
}

/// Drawing bit `j` of row `i` turns off a pixel that was on just before.
pub open spec fn erases(buf: Seq<u8>, x: u8, y: u8, s: Seq<u8>, i: int, j: int) -> bool {
    let p = pixel_of(x, y, i, j);
    sprite_bit(s[i], j) == 1 && (buf[p] ^ sprite_mask(x, y, s, i as nat, p)) == 1
}

/// Drawing `s` at `(x, y)` on `buf` turns off at least one pixel.
pub open spec fn collides(buf: Seq<u8>, x: u8, y: u8, s: Seq<u8>) -> bool {
    exists|i: int, j: int| 0 <= i < s.len() && 0 <= j < 8 && #[trigger] erases(buf, x, y, s, i, j)
}

/// Every pixel of `buf` is 0 or 1.
pub open spec fn monochrome(buf: Seq<u8>) -> bool {
    forall|p: int| 0 <= p < buf.len() ==> #[trigger] buf[p] <= 1
}

proof fn lemma_xor_facts(a: u8, b: u8, c: u8)
    ensures
        (a ^ b) ^ c == a ^ (b ^ c),
        a ^ 0u8 == a,
        (a ^ b) ^ b == a,
        a <= 1 && b <= 1 ==> a ^ b <= 1,
        a <= 1 && b <= 1 ==> (a & b > 0 <==> a == 1 && b == 1),
        a & 1u8 <= 1,
{
    assert((a ^ b) ^ c == a ^ (b ^ c)) by (bit_vector);
    assert(a ^ 0u8 == a) by (bit_vector);
    assert((a ^ b) ^ b == a) by (bit_vector);
    assert(a <= 1 && b <= 1 ==> a ^ b <= 1) by (bit_vector);
    assert(a <= 1 && b <= 1 ==> (a & b > 0 <==> a == 1 && b == 1)) by (bit_vector);
    assert(a & 1u8 <= 1) by (bit_vector);
}

proof fn lemma_mask_bit(x: u8, y: u8, s: Seq<u8>, k: nat, p: int)
    ensures
        sprite_mask(x, y, s, k, p) <= 1,
    decreases k,
{
    if k > 0 {
        lemma_mask_bit(x, y, s, (k - 1) as nat, p);
        let i = k - 1;
        if p / ROW_SIZE as int == (y + i) % COL_SIZE as int && column_offset(x, p) < 8 {
            lemma_xor_facts(s[i] >> ((7 - column_offset(x, p)) as u8), 0, 0);
        }
        lemma_xor_facts(sprite_mask(x, y, s, (k - 1) as nat, p), row_bits(x, y, s, i, 8, p), 0);
    }
}

/// Where row `r`, column offset `j` from `x` lies on the display.
proof fn lemma_pixel_position(x: u8, r: int, j: int)
    requires
        0 <= r < COL_SIZE,
        0 <= j < ROW_SIZE,
    ensures
        0 <= r * 64 + (x + j) % 64 < DISPLAY_SIZE,
        (r * 64 + (x + j) % 64) / 64 == r,
        column_offset(x, r * 64 + (x + j) % 64) == j,
{
    let c = (x + j) % 64;
    lemma_mod_bound(x + j, 64);
    lemma_fundamental_div_mod_converse(r * 64 + c, 64, r, c);
    lemma_fundamental_div_mod(x + j, 64);
    let q = (x + j) / 64;
    lemma_fundamental_div_mod_converse(c - x, 64, -q, j);
}

/// A pixel is determined by its row and its column offset from `x`.
proof fn lemma_pixel_unique(x: u8, p: int, r: int, j: int)
    requires
        0 <= p < DISPLAY_SIZE,
        0 <= j < ROW_SIZE,
        p / 64 == r,
        column_offset(x, p) == j,
    ensures
        p == r * 64 + (x + j) % 64,
{
    lemma_fundamental_div_mod(p, 64);
    let c = p % 64;
    lemma_mod_bound(p, 64);
    lemma_fundamental_div_mod(c - x, 64);
    let k = (c - x) / 64;
    lemma_fundamental_div_mod_converse(x + j, 64, -k, c);
}

/// The display: `DISPLAY_SIZE` pixels in row-major order, each 0 or 1.
pub struct DisplayBuffer {
    data: Vec<u8>,
}

impl View for DisplayBuffer {
    type V = Seq<u8>;

    closed spec fn view(&self) -> Seq<u8> {
        self.data@
    }
}

impl DisplayBuffer {
    /// The display holds `DISPLAY_SIZE` pixels, each 0 or 1.
    pub open spec fn wf(&self) -> bool {
        self@.len() == DISPLAY_SIZE && monochrome(self@)
    }

    /// A blank display.
    pub fn new() -> (r: DisplayBuffer)
        ensures
            r.wf(),
            r@ == Seq::new(DISPLAY_SIZE as nat, |p: int| 0u8),
    {
        let r = DisplayBuffer { data: vec![0u8; DISPLAY_SIZE] };
        assert(r@ =~= Seq::new(DISPLAY_SIZE as nat, |p: int| 0u8));
        r
    }

    /// The pixel at `index` (row-major).
    pub fn get(&self, index: usize) -> (r: u8)
        requires
            index < self@.len(),
        ensures
            r == self@[index as int],
    {
        self.data[index]
    }

    /// Turns every pixel off.
    pub fn clear(&mut self)
        ensures
            final(self).wf(),
            final(self)@ == Seq::new(DISPLAY_SIZE as nat, |p: int| 0u8),
    {
        *self = DisplayBuffer::new();
    }

    /// XOR-draws sprite `pixels` with its top-left corner at `(x, y)`: row
    /// `i`, bit column `j` (from the most significant bit) flips the pixel at
    /// column `(x + j) mod 64`, row `(y + i) mod 32` when the bit is set. Returns
    /// whether a pixel that was on got turned off.
    pub fn draw_sprite(&mut self, x: u8, y: u8, pixels: &[u8]) -> (collision: bool)
        requires
            old(self).wf(),
        ensures
            final(self).wf(),
            final(self)@ == drawn(old(self)@, x, y, pixels@),
            collision == collides(old(self)@, x, y, pixels@),
    {
        let ghost before = self@;
        let ghost s = pixels@;
        let mut flag = false;
        let mut i: usize = 0;
        assert forall|p: int| 0 <= p < DISPLAY_SIZE implies #[trigger] self.data@[p] == before[p]
            ^ sprite_mask(x, y, s, 0, p) by {
            lemma_xor_facts(before[p], 0, 0);
        }
        while i < pixels.len()
            invariant
                i <= s.len(),
                s == pixels@,
                self.data@.len() == DISPLAY_SIZE,
                before.len() == DISPLAY_SIZE,
                monochrome(before),
                forall|p: int|
                    0 <= p < DISPLAY_SIZE ==> #[trigger] self.data@[p] == before[p] ^ sprite_mask(
                        x,
                        y,
                        s,
                        i as nat,
                        p,
                    ),
                flag == exists|i2: int, j2: int|
                    0 <= i2 < i && 0 <= j2 < 8 && #[trigger] erases(before, x, y, s, i2, j2),
            decreases s.len() - i,
        {
            let row: usize = ((y as usize) % COL_SIZE + i % COL_SIZE) % COL_SIZE;
            proof {
                lemma_add_mod_noop(y as int, i as int, 32);
            }
            let byte = pixels[i];
            let mut j: usize = 0;
            assert forall|p: int| 0 <= p < DISPLAY_SIZE implies #[trigger] self.data@[p] == (
            before[p] ^ sprite_mask(x, y, s, i as nat, p)) ^ row_bits(x, y, s, i as int, 0, p) by {
                lemma_mod_bound(p % 64 - x, 64);
                lemma_xor_facts(before[p] ^ sprite_mask(x, y, s, i as nat, p), 0, 0);
            }
            while j < 8
                invariant
                    i < s.len(),
                    j <= 8,
                    s == pixels@,
                    byte == s[i as int],
                    row == (y + i) % 32,
                    self.data@.len() == DISPLAY_SIZE,
                    before.len() == DISPLAY_SIZE,
                    monochrome(before),
                    forall|p: int|
                        0 <= p < DISPLAY_SIZE ==> #[trigger] self.data@[p] == (before[p]
                            ^ sprite_mask(x, y, s, i as nat, p)) ^ row_bits(
                            x,
                            y,
                            s,
                            i as int,
                            j as int,
                            p,
                        ),
                    flag == ((exists|i2: int, j2: int|
                        0 <= i2 < i && 0 <= j2 < 8 && #[trigger] erases(before, x, y, s, i2, j2))
                        || (exists|j2: int| 0 <= j2 < j && #[trigger] erases(before, x, y, s, i as int, j2))),
                decreases 8 - j,
            {
                let col: usize = (x as usize + j) % ROW_SIZE;
                let idx: usize = row * ROW_SIZE + col;
                let bit: u8 = (byte >> (7 - j as u8)) & 1;
                proof {
                    lemma_mod_bound(y + i, 32);
                    lemma_pixel_position(x, row as int, j as int);
                    assert(idx as int == pixel_of(x, y, i as int, j as int));
                    assert(bit == sprite_bit(byte, j as int));
                }
                let old_pixel = self.data[idx];
                proof {
                    let m = sprite_mask(x, y, s, i as nat, idx as int);
                    lemma_mask_bit(x, y, s, i as nat, idx as int);
                    lemma_xor_facts(before[idx as int], m, 0);
                    lemma_xor_facts(before[idx as int] ^ m, 0, bit);
                    lemma_xor_facts(byte >> ((7 - j) as u8), 0, 0);
                    lemma_xor_facts(old_pixel, bit, 0);
                    assert(row_bits(x, y, s, i as int, j as int, idx as int) == 0);
                    assert(old_pixel == before[idx as int] ^ m);
                }
                if old_pixel & bit > 0 {
                    flag = true;
                }
                self.data[idx] = old_pixel ^ bit;
                proof {
                    assert forall|p: int| 0 <= p < DISPLAY_SIZE implies #[trigger] self.data@[p] == (
                    before[p] ^ sprite_mask(x, y, s, i as nat, p)) ^ row_bits(
                        x,
                        y,
                        s,
                        i as int,
                        j + 1,
                        p,
                    ) by {
                        if p == idx {
                            lemma_xor_facts(before[p] ^ sprite_mask(x, y, s, i as nat, p), 0, bit);
                        } else if p / 64 == (y + i) % 32 && column_offset(x, p) == j {
                            lemma_pixel_unique(x, p, row as int, j as int);
                        }
                    }
                    assert(erases(before, x, y, s, i as int, j as int) == (old_pixel == 1 && bit
                        == 1));
                }
                j += 1;
            }
            proof {
                assert forall|p: int| 0 <= p < DISPLAY_SIZE implies #[trigger] self.data@[p]
                    == before[p] ^ sprite_mask(x, y, s, (i + 1) as nat, p) by {
                    lemma_xor_facts(
                        before[p],
                        sprite_mask(x, y, s, i as nat, p),
                        row_bits(x, y, s, i as int, 8, p),
                    );
                }
            }
            i += 1;
        }
        proof {
            assert(self.data@ =~= drawn(before, x, y, s));
            assert forall|p: int| 0 <= p < self.data@.len() implies #[trigger] self.data@[p] <= 1 by {
                lemma_mask_bit(x, y, s, s.len(), p);
                lemma_xor_facts(before[p], sprite_mask(x, y, s, s.len(), p), 0);
            }
        }
        flag
    }
}

impl Default for DisplayBuffer {
    fn default() -> (r: DisplayBuffer)
        ensures
            r.wf(),
            r@ == Seq::new(DISPLAY_SIZE as nat, |p: int| 0u8),
    {
        DisplayBuffer::new()
    }
}

/// Drawing the same sprite at the same place twice leaves the display as it was.
pub proof fn draw_sprite_is_self_inverse(buf: Seq<u8>, x: u8, y: u8, s: Seq<u8>)
    ensures
        drawn(drawn(buf, x, y, s), x, y, s) == buf,
{
    assert forall|p: int| 0 <= p < buf.len() implies #[trigger] drawn(drawn(buf, x, y, s), x, y, s)[p]
        == buf[p] by {
        lemma_xor_facts(buf[p], sprite_mask(x, y, s, s.len(), p), 0);
    }
    assert(drawn(drawn(buf, x, y, s), x, y, s) =~= buf);
}

} // verus!
