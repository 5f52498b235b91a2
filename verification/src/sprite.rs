//! Sprite compositing: XOR-drawing rows of eight pixels into the
//! framebuffer, with clipping at the display edges and collision detection.
//!
//! Rows are drawn top to bottom and each row's byte is read when its turn
//! comes, so a sprite stored inside the framebuffer sees the rows drawn
//! before it. `sprite_drawn` and `sprite_collides` define exactly that; the
//! lemmas below give the pixel-by-pixel picture.
use vstd::prelude::*;
use crate::display::{
    bit_offset, bit_set, byte_addr, lemma_bits_determine_byte, lemma_toggle, on_screen, pixel,
    toggle, Display,
};
use crate::memory::{Memory, DISPLAY_LOC, MAX_SIZE};

verus! {

/// `mem` after the leftmost `cols` bits of the sprite row `bits` have been
/// drawn with the row's first bit at `(x, y)`: each set bit that falls on the
/// display flips its pixel, the others do nothing.
pub open spec fn row_drawn(mem: Seq<u8>, bits: u8, x: int, y: int, cols: nat) -> Seq<u8>
    decreases cols,
{
    if cols == 0 {
        mem
    } else {
        let col = cols - 1;
        let before = row_drawn(mem, bits, x, y, col as nat);
        if bit_set(bits, col as u8) && on_screen(x + col, y) {
            toggle(before, x + col, y)
        } else {
            before
        }
    }
}

/// Whether one of the leftmost `cols` bits of the sprite row `bits`, placed
/// with its first bit at `(x, y)`, is set and falls on a pixel lit in `mem`.
pub open spec fn row_collides(mem: Seq<u8>, bits: u8, x: int, y: int, cols: nat) -> bool
    decreases cols,
{
    if cols == 0 {
        false
    } else {
        let col = cols - 1;
        row_collides(mem, bits, x, y, col as nat) || (bit_set(bits, col as u8) && on_screen(
            x + col,
            y,
        ) && pixel(mem, x + col, y))
    }
}

/// `mem` after the first `rows` rows of the sprite stored at `addr` have been
/// drawn with its top-left corner at `(x, y)`.
pub open spec fn sprite_drawn(mem: Seq<u8>, addr: int, x: int, y: int, rows: nat) -> Seq<u8>
    decreases rows,
{
    if rows == 0 {
        mem
    } else {
        let row = rows - 1;
        let before = sprite_drawn(mem, addr, x, y, row as nat);
        row_drawn(before, before[addr + row], x, y + row, 8)
    }
}

/// Whether drawing the first `rows` rows of the sprite stored at `addr` with
/// its top-left corner at `(x, y)` turns off a pixel that was lit when its
/// row was drawn.
pub open spec fn sprite_collides(mem: Seq<u8>, addr: int, x: int, y: int, rows: nat) -> bool
    decreases rows,
{
    if rows == 0 {
        false
    } else {
        let row = rows - 1;
        let before = sprite_drawn(mem, addr, x, y, row as nat);
        sprite_collides(mem, addr, x, y, row as nat) || row_collides(
            before,
            before[addr + row],
            x,
            y + row,
            8,
        )
    }
}

/// Whether the pixel `(px, py)` lies under a set bit among the leftmost
/// `cols` bits of the sprite row `bits` placed at `(x, y)`.
pub open spec fn row_covers(bits: u8, x: int, y: int, cols: nat, px: int, py: int) -> bool {
    py == y && x <= px < x + cols && bit_set(bits, (px - x) as u8)
}

/// Whether the pixel `(px, py)` lies under a set bit of the `rows`-row sprite
/// stored at `addr` in `mem` and placed at `(x, y)`.
pub open spec fn sprite_covers(
    mem: Seq<u8>,
    addr: int,
    x: int,
    y: int,
    rows: nat,
    px: int,
    py: int,
) -> bool {
    y <= py < y + rows && row_covers(mem[addr + (py - y)], x, py, 8, px, py)
}

/// Drawing part of a row flips exactly the on-screen pixels under its set
/// bits and touches nothing outside the framebuffer.
pub proof fn lemma_row_drawn(mem: Seq<u8>, bits: u8, x: int, y: int, cols: nat)
    requires
        mem.len() == MAX_SIZE,
        cols <= 8,
        0 <= x,
    ensures
        row_drawn(mem, bits, x, y, cols).len() == MAX_SIZE,
        forall|a: int| 0 <= a < DISPLAY_LOC ==> row_drawn(mem, bits, x, y, cols)[a] == mem[a],
        forall|px: int, py: int|
            on_screen(px, py) ==> #[trigger] pixel(row_drawn(mem, bits, x, y, cols), px, py) == (
            pixel(mem, px, py) != row_covers(bits, x, y, cols, px, py)),
    decreases cols,
{
    if cols > 0 {
        let col = cols - 1;
        let before = row_drawn(mem, bits, x, y, col as nat);
        lemma_row_drawn(mem, bits, x, y, col as nat);
        if bit_set(bits, col as u8) && on_screen(x + col, y) {
            lemma_toggle(before, x + col, y);
        }
        let after = row_drawn(mem, bits, x, y, cols);
        assert forall|px: int, py: int| on_screen(px, py) implies #[trigger] pixel(after, px, py)
            == (pixel(mem, px, py) != row_covers(bits, x, y, cols, px, py)) by {
            assert(pixel(before, px, py) == (pixel(mem, px, py) != row_covers(
                bits,
                x,
                y,
                col as nat,
                px,
                py,
            )));
        }
    }
}

/// A row collides exactly when one of its set bits lies over a lit pixel of
/// the display.
pub proof fn lemma_row_collides(mem: Seq<u8>, bits: u8, x: int, y: int, cols: nat)
    ensures
        row_collides(mem, bits, x, y, cols) <==> exists|px: int|
            on_screen(px, y) && #[trigger] row_covers(bits, x, y, cols, px, y) && pixel(mem, px, y),
    decreases cols,
{
    if cols > 0 {
        let col = cols - 1;
        lemma_row_collides(mem, bits, x, y, col as nat);
        if row_collides(mem, bits, x, y, cols) {
            if row_collides(mem, bits, x, y, col as nat) {
                let px = choose|px: int|
                    on_screen(px, y) && #[trigger] row_covers(bits, x, y, col as nat, px, y)
                        && pixel(mem, px, y);
                assert(row_covers(bits, x, y, cols, px, y));
            } else {
                assert(row_covers(bits, x, y, cols, x + col, y));
            }
        }
        if exists|px: int|
            on_screen(px, y) && #[trigger] row_covers(bits, x, y, cols, px, y) && pixel(mem, px, y) {
            let px = choose|px: int|
                on_screen(px, y) && #[trigger] row_covers(bits, x, y, cols, px, y) && pixel(
                    mem,
                    px,
                    y,
                );
            if px < x + col {
                assert(row_covers(bits, x, y, col as nat, px, y));
            }
        }
    }
}

/// Drawing a sprite keeps the memory size, touches nothing outside the
/// framebuffer, and leaves alone every pixel outside the 8-wide, `rows`-high
/// rectangle at `(x, y)`: what sticks out past the right or bottom edge is
/// clipped, not wrapped around to the opposite edge.
pub proof fn lemma_sprite_clipped(mem: Seq<u8>, addr: int, x: int, y: int, rows: nat)
    requires
        mem.len() == MAX_SIZE,
        0 <= x,
        0 <= y,
    ensures
        sprite_drawn(mem, addr, x, y, rows).len() == MAX_SIZE,
        forall|a: int| 0 <= a < DISPLAY_LOC ==> sprite_drawn(mem, addr, x, y, rows)[a] == mem[a],
        forall|px: int, py: int|
            on_screen(px, py) && !(x <= px < x + 8 && y <= py < y + rows) ==> #[trigger] pixel(
                sprite_drawn(mem, addr, x, y, rows),
                px,
                py,
            ) == pixel(mem, px, py),
    decreases rows,
{
    if rows > 0 {
        let row = rows - 1;
        let before = sprite_drawn(mem, addr, x, y, row as nat);
        lemma_sprite_clipped(mem, addr, x, y, row as nat);
        lemma_row_drawn(before, before[addr + row], x, y + row, 8);
        let after = sprite_drawn(mem, addr, x, y, rows);
        assert forall|px: int, py: int|
            on_screen(px, py) && !(x <= px < x + 8 && y <= py < y + rows) implies #[trigger] pixel(
            after,
            px,
            py,
        ) == pixel(mem, px, py) by {
            assert(pixel(before, px, py) == pixel(mem, px, py));
        }
    }
}

/// For a sprite stored outside the framebuffer, drawing flips exactly the
/// on-screen pixels that lie under its set bits.
pub proof fn lemma_sprite_drawn(mem: Seq<u8>, addr: int, x: int, y: int, rows: nat)
    requires
        mem.len() == MAX_SIZE,
        0 <= x,
        0 <= y,
        0 <= addr,
        rows == 0 || addr + rows <= DISPLAY_LOC,
    ensures
        forall|px: int, py: int|
            on_screen(px, py) ==> #[trigger] pixel(sprite_drawn(mem, addr, x, y, rows), px, py)
                == (pixel(mem, px, py) != sprite_covers(mem, addr, x, y, rows, px, py)),
    decreases rows,
{
    if rows > 0 {
        let row = rows - 1;
        let before = sprite_drawn(mem, addr, x, y, row as nat);
        lemma_sprite_drawn(mem, addr, x, y, row as nat);
        lemma_sprite_clipped(mem, addr, x, y, row as nat);
        lemma_row_drawn(before, before[addr + row], x, y + row, 8);
        let after = sprite_drawn(mem, addr, x, y, rows);
        assert forall|px: int, py: int| on_screen(px, py) implies #[trigger] pixel(after, px, py)
            == (pixel(mem, px, py) != sprite_covers(mem, addr, x, y, rows, px, py)) by {
            assert(pixel(before, px, py) == (pixel(mem, px, py) != sprite_covers(
                mem,
                addr,
                x,
                y,
                row as nat,
                px,
                py,
            )));
        }
    }
}

/// For a sprite stored outside the framebuffer, a collision is reported
/// exactly when one of its set bits lies over a pixel that was lit before the
/// drawing began.
pub proof fn lemma_sprite_collides(mem: Seq<u8>, addr: int, x: int, y: int, rows: nat)
    requires
        mem.len() == MAX_SIZE,
        0 <= x,
        0 <= y,
        0 <= addr,
        rows == 0 || addr + rows <= DISPLAY_LOC,
    ensures
        sprite_collides(mem, addr, x, y, rows) <==> exists|px: int, py: int|
            on_screen(px, py) && #[trigger] sprite_covers(mem, addr, x, y, rows, px, py) && pixel(
                mem,
                px,
                py,
            ),
    decreases rows,
{
    if rows > 0 {
        let row = rows - 1;
        let before = sprite_drawn(mem, addr, x, y, row as nat);
        let bits = before[addr + row];
        lemma_sprite_collides(mem, addr, x, y, row as nat);
        lemma_sprite_clipped(mem, addr, x, y, row as nat);
        lemma_row_collides(before, bits, x, y + row, 8);
        if sprite_collides(mem, addr, x, y, rows) {
            if sprite_collides(mem, addr, x, y, row as nat) {
                let (px, py) = choose|px: int, py: int|
                    on_screen(px, py) && #[trigger] sprite_covers(
                        mem,
                        addr,
                        x,
                        y,
                        row as nat,
                        px,
                        py,
                    ) && pixel(mem, px, py);
                assert(sprite_covers(mem, addr, x, y, rows, px, py));
            } else {
                let px = choose|px: int|
                    on_screen(px, y + row) && #[trigger] row_covers(bits, x, y + row, 8, px, y + row)
                        && pixel(before, px, y + row);
                assert(pixel(before, px, y + row) == pixel(mem, px, y + row));
                assert(sprite_covers(mem, addr, x, y, rows, px, y + row));
            }
        }
        if exists|px: int, py: int|
            on_screen(px, py) && #[trigger] sprite_covers(mem, addr, x, y, rows, px, py) && pixel(
                mem,
                px,
                py,
            ) {
            let (px, py) = choose|px: int, py: int|
                on_screen(px, py) && #[trigger] sprite_covers(mem, addr, x, y, rows, px, py)
                    && pixel(mem, px, py);
            if py < y + row {
                assert(sprite_covers(mem, addr, x, y, row as nat, px, py));
            } else {
                assert(pixel(before, px, py) == pixel(mem, px, py));
                assert(row_covers(bits, x, y + row, 8, px, y + row));
            }
        }
    }
}

/// Two memories of full size that agree below the framebuffer and on every
/// pixel are equal.
pub proof fn lemma_pixels_determine_memory(a: Seq<u8>, b: Seq<u8>)
    requires
        a.len() == MAX_SIZE,
        b.len() == MAX_SIZE,
        forall|k: int| 0 <= k < DISPLAY_LOC ==> a[k] == b[k],
        forall|px: int, py: int| on_screen(px, py) ==> pixel(a, px, py) == pixel(b, px, py),
    ensures
        a == b,
{
    assert forall|k: int| DISPLAY_LOC <= k < MAX_SIZE implies a[k] == b[k] by {
        let first = (k - DISPLAY_LOC) * 8;
        assert forall|p: u8| p < 8 implies bit_set(a[k], p) == bit_set(b[k], p) by {
            let px = (first + p) % 64;
            let py = (first + p) / 64;
            assert(on_screen(px, py));
            assert(byte_addr(px, py) == k);
            assert(bit_offset(px, py) == p);
            assert(pixel(a, px, py) == pixel(b, px, py));
        }
        lemma_bits_determine_byte(a[k], b[k]);
    }
    assert(a =~= b);
}

/// Drawing the same sprite at the same position twice in succession restores
/// the memory, and so every pixel, to what it was before the first drawing.
/// The sprite must be stored outside the framebuffer: one stored inside it is
/// itself changed by being drawn.
pub proof fn lemma_draw_twice_restores(mem: Seq<u8>, addr: int, x: int, y: int, rows: nat)
    requires
        mem.len() == MAX_SIZE,
        0 <= x,
        0 <= y,
        0 <= addr,
        rows == 0 || addr + rows <= DISPLAY_LOC,
    ensures
        sprite_drawn(sprite_drawn(mem, addr, x, y, rows), addr, x, y, rows) == mem,
{
    let once = sprite_drawn(mem, addr, x, y, rows);
    let twice = sprite_drawn(once, addr, x, y, rows);
    lemma_sprite_clipped(mem, addr, x, y, rows);
    lemma_sprite_drawn(mem, addr, x, y, rows);
    lemma_sprite_clipped(once, addr, x, y, rows);
    lemma_sprite_drawn(once, addr, x, y, rows);
    assert forall|px: int, py: int| on_screen(px, py) implies pixel(twice, px, py) == pixel(
        mem,
        px,
        py,
    ) by {
        assert(pixel(once, px, py) == (pixel(mem, px, py) != sprite_covers(
            mem,
            addr,
            x,
            y,
            rows,
            px,
            py,
        )));
        assert(sprite_covers(once, addr, x, y, rows, px, py) == sprite_covers(
            mem,
            addr,
            x,
            y,
            rows,
            px,
            py,
        ));
    }
    lemma_pixels_determine_memory(twice, mem);
}

/// Draws the `rows`-row sprite stored at `addr` with its top-left corner at
/// `(x, y)` and reports whether a lit pixel was turned off. The sprite's bytes
/// must lie in memory.
pub fn draw_sprite(memory: &mut Memory, addr: u16, x: u8, y: u8, rows: u8) -> (collision: bool)
    requires
        rows > 0 ==> addr + rows <= MAX_SIZE,
    ensures
        final(memory)@ == sprite_drawn(old(memory)@, addr as int, x as int, y as int, rows as nat),
        collision == sprite_collides(old(memory)@, addr as int, x as int, y as int, rows as nat),
{
    let mut collision = false;
    let mut row: u8 = 0;
    proof {
        memory.lemma_size();
    }
    while row < rows
        invariant
            row <= rows,
            rows > 0 ==> addr + rows <= MAX_SIZE,
            memory@.len() == MAX_SIZE,
            memory@ == sprite_drawn(old(memory)@, addr as int, x as int, y as int, row as nat),
            collision == sprite_collides(
                old(memory)@,
                addr as int,
                x as int,
                y as int,
                row as nat,
            ),
        decreases rows - row,
    {
        let sprite_byte = memory.read(addr + row as u16);
        let pos_y: u16 = y as u16 + row as u16;
        let ghost start = memory@;
        let mut hit = false;
        let mut col: u8 = 0;
        while col < 8
            invariant
                col <= 8,
                pos_y == y + row,
                start.len() == MAX_SIZE,
                memory@ == row_drawn(start, sprite_byte, x as int, pos_y as int, col as nat),
                hit == row_collides(start, sprite_byte, x as int, pos_y as int, col as nat),
            decreases 8 - col,
        {
            let shift: u8 = 7 - col;
            let sprite_bit = (sprite_byte >> shift) & 0b0000_0001;
            assert((sprite_bit == 1) == bit_set(sprite_byte, col)) by {
                assert((((sprite_byte >> shift) & 1u8) == 1) == (sprite_byte & (0x80u8 >> col)
                    != 0)) by (bit_vector)
                    requires
                        col < 8,
                        shift == 7 - col,
                ;
            }
            if sprite_bit == 1 {
                let pos_x: u16 = x as u16 + col as u16;
                if pos_x < 64 && pos_y < 32 {
                    proof {
                        lemma_row_drawn(start, sprite_byte, x as int, pos_y as int, col as nat);
                    }
                    let curr_pixel = Display::read_pixel(memory, pos_x as u8, pos_y as u8);
                    assert(pixel(memory@, pos_x as int, pos_y as int) == pixel(
                        start,
                        pos_x as int,
                        pos_y as int,
                    ));
                    if curr_pixel == 1 {
                        hit = true;
                    }
                    Display::write_pixel(memory, pos_x as u8, pos_y as u8);
                }
            }
            col += 1;
        }
        proof {
            lemma_row_drawn(start, sprite_byte, x as int, pos_y as int, 8);
        }
        if hit {
            collision = true;
        }
        row += 1;
    }
    collision
}

} // verus!
