//! The memory-mapped 64x32 monochrome display.
//!
//! The framebuffer is the 256 bytes at `DISPLAY_LOC`: 2048 bits, row-major,
//! most significant bit first within each byte. The pixel at `(x, y)` is bit
//! `x + 64 * y` of that region.
use vstd::prelude::*;
use crate::memory::{Memory, DISPLAY_LOC, MAX_SIZE};

verus! {

/// Display width in pixels.
pub const WIDTH: u8 = 64;

/// Display height in pixels.
pub const HEIGHT: u8 = 32;

/// Number of bytes in the RGBA texture: four per pixel.
pub const TEXTURE_SIZE: usize = 8192;

/// Whether `(x, y)` lies within the 64x32 display.
pub open spec fn on_screen(x: int, y: int) -> bool {
    0 <= x < WIDTH && 0 <= y < HEIGHT
}

/// Position of the pixel `(x, y)` among the bits of the framebuffer.
pub open spec fn bit_index(x: int, y: int) -> int {
    x + 64 * y
}

/// Address of the framebuffer byte that holds the pixel `(x, y)`.
pub open spec fn byte_addr(x: int, y: int) -> int {
    DISPLAY_LOC + bit_index(x, y) / 8
}

/// Position of the pixel `(x, y)` within its byte; 0 is the most significant
/// bit.
pub open spec fn bit_offset(x: int, y: int) -> int {
    bit_index(x, y) % 8
}

/// The byte with only the bit at `offset` set, counting from the most
/// significant bit.
pub open spec fn mask(offset: u8) -> u8 {
    0x80u8 >> offset
}

/// Whether the bit of `byte` at `offset` is set, counting from the most
/// significant bit.
pub open spec fn bit_set(byte: u8, offset: u8) -> bool {
    byte & mask(offset) != 0
}

/// Whether the pixel `(x, y)` is lit in `mem`.
pub open spec fn pixel(mem: Seq<u8>, x: int, y: int) -> bool {
    bit_set(mem[byte_addr(x, y)], bit_offset(x, y) as u8)
}

/// `mem` with the pixel `(x, y)` flipped.
pub open spec fn toggle(mem: Seq<u8>, x: int, y: int) -> Seq<u8> {
    mem.update(byte_addr(x, y), mem[byte_addr(x, y)] ^ mask(bit_offset(x, y) as u8))
}

/// The byte of the RGBA texture at index `k`: pixel `k / 4` in row-major
/// order is opaque green when lit and opaque black when not.
pub open spec fn texel(mem: Seq<u8>, k: int) -> u8 {
    let p = k / 4;
    if k % 4 == 1 {
        if pixel(mem, p % 64, p / 64) {
            0xFFu8
        } else {
            0u8
        }
    } else if k % 4 == 3 {
        0xFFu8
    } else {
        0u8
    }
}

/// The RGBA texture that shows the framebuffer of `mem`.
pub open spec fn texture(mem: Seq<u8>) -> Seq<u8> {
    Seq::new(TEXTURE_SIZE as nat, |k: int| texel(mem, k))
}

/// Flipping the bit at offset `o` changes that bit and no other.
pub proof fn lemma_xor_mask(byte: u8, o: u8, p: u8)
    requires
        o < 8,
        p < 8,
    ensures
        bit_set(byte ^ mask(o), p) == (bit_set(byte, p) != (o == p)),
{
    assert(((byte ^ (0x80u8 >> o)) & (0x80u8 >> p) != 0) == ((byte & (0x80u8 >> p) != 0) != (o
        == p))) by (bit_vector)
        requires
            o < 8,
            p < 8,
    ;
}

/// Two bytes that agree on each of their eight bits are equal.
pub proof fn lemma_bits_determine_byte(a: u8, b: u8)
    requires
        forall|p: u8| p < 8 ==> bit_set(a, p) == bit_set(b, p),
    ensures
        a == b,
{
    assert(bit_set(a, 0) == bit_set(b, 0));
    assert(bit_set(a, 1) == bit_set(b, 1));
    assert(bit_set(a, 2) == bit_set(b, 2));
    assert(bit_set(a, 3) == bit_set(b, 3));
    assert(bit_set(a, 4) == bit_set(b, 4));
    assert(bit_set(a, 5) == bit_set(b, 5));
    assert(bit_set(a, 6) == bit_set(b, 6));
    assert(bit_set(a, 7) == bit_set(b, 7));
    assert(a == b) by (bit_vector)
        requires
            (a & (0x80u8 >> 0u8) != 0) == (b & (0x80u8 >> 0u8) != 0),
            (a & (0x80u8 >> 1u8) != 0) == (b & (0x80u8 >> 1u8) != 0),
            (a & (0x80u8 >> 2u8) != 0) == (b & (0x80u8 >> 2u8) != 0),
            (a & (0x80u8 >> 3u8) != 0) == (b & (0x80u8 >> 3u8) != 0),
            (a & (0x80u8 >> 4u8) != 0) == (b & (0x80u8 >> 4u8) != 0),
            (a & (0x80u8 >> 5u8) != 0) == (b & (0x80u8 >> 5u8) != 0),
            (a & (0x80u8 >> 6u8) != 0) == (b & (0x80u8 >> 6u8) != 0),
            (a & (0x80u8 >> 7u8) != 0) == (b & (0x80u8 >> 7u8) != 0),
    ;
}

/// Toggling an on-screen pixel flips it, leaves every other on-screen pixel
/// as it was, and touches no byte outside the framebuffer.
pub proof fn lemma_toggle(mem: Seq<u8>, x: int, y: int)
    requires
        mem.len() == MAX_SIZE,
        on_screen(x, y),
    ensures
        toggle(mem, x, y).len() == MAX_SIZE,
        forall|a: int| 0 <= a < DISPLAY_LOC ==> toggle(mem, x, y)[a] == mem[a],
        forall|px: int, py: int|
            on_screen(px, py) ==> #[trigger] pixel(toggle(mem, x, y), px, py) == (pixel(
                mem,
                px,
                py,
            ) != (px == x && py == y)),
{
    let after = toggle(mem, x, y);
    assert forall|px: int, py: int| on_screen(px, py) implies #[trigger] pixel(after, px, py) == (
    pixel(mem, px, py) != (px == x && py == y)) by {
        if byte_addr(px, py) == byte_addr(x, y) {
            lemma_xor_mask(
                mem[byte_addr(x, y)],
                bit_offset(x, y) as u8,
                bit_offset(px, py) as u8,
            );
        }
    }
}

/// The host-facing picture of the display: a 64x32 RGBA texture that `draw`
/// fills from the framebuffer, together with the pixel accessors that the
/// interpreter draws with.
pub struct Display {
    frame: [u8; 8192],
}

impl View for Display {
    type V = Seq<u8>;

    closed spec fn view(&self) -> Seq<u8> {
        self.frame@
    }
}

impl Display {
    /// A texture with every byte zero.
    pub fn new() -> (display: Self)
        ensures
            display@ == Seq::new(TEXTURE_SIZE as nat, |k: int| 0u8),
    {
        Display { frame: [0; 8192] }
    }

    /// The texture bytes, four per pixel in row-major order.
    pub fn frame(&self) -> (frame: &[u8; 8192])
        ensures
            frame@ == self@,
    {
        &self.frame
    }

    /// 1 if the pixel at bit index `x + 64 * y` is lit, else 0. The index
    /// must fall inside the framebuffer.
    pub fn read_pixel(memory: &Memory, x: u8, y: u8) -> (bit: u8)
        requires
            byte_addr(x as int, y as int) < MAX_SIZE,
        ensures
            bit == (if pixel(memory@, x as int, y as int) {
                1u8
            } else {
                0u8
            }),
    {
        let byte = memory.read(Display::pos_to_byte_addr(x, y));
        let offset = Display::pos_to_bit_offset(x, y);
        let shift: u8 = 7 - offset;
        let bit = byte >> shift;
        assert(((byte >> shift) & 1u8) == if byte & (0x80u8 >> offset) != 0 {
            1u8
        } else {
            0u8
        }) by (bit_vector)
            requires
                offset < 8,
                shift == 7 - offset,
        ;
        bit & 0b0000_0001
    }

    /// Flips the pixel at bit index `x + 64 * y`. The index must fall inside
    /// the framebuffer.
    pub fn write_pixel(memory: &mut Memory, x: u8, y: u8)
        requires
            byte_addr(x as int, y as int) < MAX_SIZE,
        ensures
            final(memory)@ == toggle(old(memory)@, x as int, y as int),
    {
        let byte_addr = Display::pos_to_byte_addr(x, y);
        let bit_offset = Display::pos_to_bit_offset(x, y);
        let byte_to_write = 0b1000_0000u8 >> bit_offset;
        let current_byte = memory.read(byte_addr);
        memory.write(byte_addr, current_byte ^ byte_to_write);
    }

    /// Address of the byte that holds bit `x + 64 * y` of the framebuffer.
    pub fn pos_to_byte_addr(x: u8, y: u8) -> (addr: u16)
        ensures
            addr == byte_addr(x as int, y as int),
    {
        let bit_idx = Display::pos_to_bit_index(x, y);
        let byte_addr = bit_idx / 8;
        DISPLAY_LOC + byte_addr
    }

    /// Offset of bit `x + 64 * y` within its byte, from the most significant
    /// bit.
    pub fn pos_to_bit_offset(x: u8, y: u8) -> (offset: u8)
        ensures
            offset == bit_offset(x as int, y as int),
    {
        (Display::pos_to_bit_index(x, y) % 8) as u8
    }

    /// Row-major bit index of the pixel `(x, y)`.
    pub fn pos_to_bit_index(x: u8, y: u8) -> (index: u16)
        ensures
            index == bit_index(x as int, y as int),
    {
        (x as u16) + (64 * (y as u16))
    }

    /// Renders the framebuffer into the texture: lit pixels become opaque
    /// green, unlit pixels opaque black.
    pub fn draw(&mut self, memory: &Memory)
        ensures
            final(self)@ == texture(memory@),
    {
        let mut i: usize = 0;
        while i < 2048
            invariant
                i <= 2048,
                self@.len() == TEXTURE_SIZE,
                forall|k: int| 0 <= k < 4 * i ==> self@[k] == texel(memory@, k),
            decreases 2048 - i,
        {
            let x = (i % 64) as u8;
            let y = (i / 64) as u8;
            let bit = Display::read_pixel(memory, x, y);
            self.frame[4 * i] = 0x00;
            self.frame[4 * i + 1] = bit * 0xFF;
            self.frame[4 * i + 2] = 0x00;
            self.frame[4 * i + 3] = 0xFF;
            i += 1;
        }
        assert(self@ =~= texture(memory@));
    }
}

} // verus!
