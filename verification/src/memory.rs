//! The flat 4 KiB byte store and its named regions.
use vstd::prelude::*;

verus! {

/// Number of addressable cells; valid addresses are `0..MAX_SIZE`.
pub const MAX_SIZE: u16 = 0x1000;

/// Address at which program images are loaded and execution starts.
pub const PROG_LOC: u16 = 0x0200;

/// Base address of the 256-byte display framebuffer.
pub const DISPLAY_LOC: u16 = 0x0F00;

/// Base address of the font table.
pub const FONT_LOC: u16 = 0x0050;

/// Size in bytes of one font glyph.
pub const FONT_CHAR_SIZE: u16 = 5;

/// The cells of `mem` with `bytes` copied over them starting at `base`.
pub open spec fn overlay(mem: Seq<u8>, base: int, bytes: Seq<u8>) -> Seq<u8> {
    Seq::new(
        mem.len(),
        |a: int|
            if base <= a < base + bytes.len() {
                bytes[a - base]
            } else {
                mem[a]
            },
    )
}

/// The big-endian 16-bit word whose most significant byte is at `addr`.
pub open spec fn word_at(mem: Seq<u8>, addr: int) -> int {
    mem[addr] * 256 + mem[addr + 1]
}

/// The cells of `mem` with the big-endian encoding of `word` stored at `addr`
/// and `addr + 1`.
pub open spec fn store_word(mem: Seq<u8>, addr: int, word: u16) -> Seq<u8> {
    mem.update(addr, (word / 256) as u8).update(addr + 1, (word % 256) as u8)
}

pub struct Memory {
    data: [u8; 4096],
}

impl View for Memory {
    type V = Seq<u8>;

    closed spec fn view(&self) -> Seq<u8> {
        self.data@
    }
}

impl Memory {
    /// Every memory has exactly `MAX_SIZE` cells.
    pub proof fn lemma_size(&self)
        ensures
            self@.len() == MAX_SIZE,
    {
    }

    /// A zero-filled memory.
    pub fn new() -> (mem: Self)
        ensures
            mem@ == Seq::new(MAX_SIZE as nat, |a: int| 0u8),
    {
        Memory { data: [0; 4096] }
    }

    /// Copies a program image to `PROG_LOC`. The image must fit in the
    /// address space.
    pub fn load_prog(&mut self, prgm: &[u8])
        requires
            PROG_LOC + prgm@.len() <= MAX_SIZE,
        ensures
            final(self)@ == overlay(old(self)@, PROG_LOC as int, prgm@),
    {
        let n: usize = prgm.len();
        let mut i: usize = 0;
        while i < n
            invariant
                n == prgm@.len(),
                PROG_LOC + n <= MAX_SIZE,
                i <= n,
                self@ == overlay(old(self)@, PROG_LOC as int, prgm@.subrange(0, i as int)),
            decreases n - i,
        {
            self.data[PROG_LOC as usize + i] = prgm[i];
            i += 1;
        }
        assert(prgm@.subrange(0, n as int) == prgm@);
    }

    /// Copies font glyphs to `FONT_LOC`. The table must fit in the address
    /// space.
    pub fn load_font(&mut self, font: &[u8])
        requires
            FONT_LOC + font@.len() <= MAX_SIZE,
        ensures
            final(self)@ == overlay(old(self)@, FONT_LOC as int, font@),
    {
        let n: usize = font.len();
        let mut i: usize = 0;
        while i < n
            invariant
                n == font@.len(),
                FONT_LOC + n <= MAX_SIZE,
                i <= n,
                self@ == overlay(old(self)@, FONT_LOC as int, font@.subrange(0, i as int)),
            decreases n - i,
        {
            self.data[FONT_LOC as usize + i] = font[i];
            i += 1;
        }
        assert(font@.subrange(0, n as int) == font@);
    }

    /// The words that a dump of the `len` bytes from `from` shows: for each
    /// even address from `from` rounded down to `from + len`, the address and
    /// the big-endian word stored there. The bytes must lie in memory.
    pub fn hexdump(&self, from: u16, len: u16) -> (rows: Vec<(u16, u16)>)
        requires
            from + len <= MAX_SIZE,
        ensures
            rows@.len() == (from % 2 + len + 1) / 2,
            forall|k: int|
                0 <= k < rows@.len() ==> (#[trigger] rows@[k]).0 == from - from % 2 + 2 * k
                    && rows@[k].1 == word_at(self@, from - from % 2 + 2 * k),
    {
        let mut rows: Vec<(u16, u16)> = Vec::new();
        let start: u16 = from - from % 2;
        let end: u16 = from + len;
        let mut addr: u16 = start;
        while addr < end
            invariant
                start == from - from % 2,
                end == from + len,
                end <= MAX_SIZE,
                start <= addr <= end + 1,
                addr % 2 == 0,
                rows@.len() == (addr - start) / 2,
                forall|k: int|
                    0 <= k < rows@.len() ==> (#[trigger] rows@[k]).0 == start + 2 * k
                        && rows@[k].1 == word_at(self@, start + 2 * k),
            decreases end + 1 - addr,
        {
            rows.push((addr, self.read_u16(addr)));
            addr += 2;
        }
        rows
    }

    /// The byte stored at `addr`.
    pub fn read(&self, addr: u16) -> (byte: u8)
        requires
            addr < MAX_SIZE,
        ensures
            byte == self@[addr as int],
    {
        self.data[addr as usize]
    }

    /// The big-endian word stored at `addr` and `addr + 1`.
    pub fn read_u16(&self, addr: u16) -> (word: u16)
        requires
            addr + 1 < MAX_SIZE,
        ensures
            word == word_at(self@, addr as int),
    {
        let hi = self.read(addr) as u16;
        let lo = self.read(addr + 1) as u16;
        assert(hi << 8 | lo == hi * 256 + lo) by (bit_vector)
            requires
                hi < 256,
                lo < 256,
        ;
        hi << 8 | lo
    }

    /// Stores `data` at `addr`, leaving every other cell as it was.
    pub fn write(&mut self, addr: u16, data: u8)
        requires
            addr < MAX_SIZE,
        ensures
            final(self)@ == old(self)@.update(addr as int, data),
    {
        self.data[addr as usize] = data;
    }

    /// Stores `data` big-endian at `addr` and `addr + 1`.
    pub fn write_u16(&mut self, addr: u16, data: u16)
        requires
            addr + 1 < MAX_SIZE,
        ensures
            final(self)@ == store_word(old(self)@, addr as int, data),
    {
        let hi = (data >> 8) as u8;
        let lo = (data & 0xff) as u8;
        assert(data >> 8 == data / 256 && data & 0xff == data % 256) by (bit_vector);
        self.write(addr, hi);
        self.write(addr + 1, lo);
    }
}

} // verus!
