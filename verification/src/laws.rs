//! Laws of the instruction set, proved from the definitions in `machine`.
//!
//! Each law speaks of `executed_opcode` or `stepped`, the functions in which
//! the contracts of `Interpreter::exec_with`, `Interpreter::exec` and
//! `Interpreter::step` are stated, so each holds of the running interpreter.
use vstd::prelude::*;
use crate::display::{on_screen, pixel};
use crate::instruction::{
    decoded, lemma_decoded_wf, mode_of, n_of, nn_of, nnn_of, x_of, y_of, Instruction,
};
use crate::machine::{executed_opcode, stepped, Fault, Machine, Outcome, FLAG, STACK_SIZE};
use crate::memory::{word_at, DISPLAY_LOC, MAX_SIZE};
use crate::sprite::{
    lemma_draw_twice_restores, lemma_sprite_clipped, lemma_sprite_collides, lemma_sprite_drawn,
    sprite_covers,
};

verus! {

/// The word with the given mode, register index and low byte.
pub open spec fn word_xnn(mode: u8, x: u8, nn: u8) -> u16 {
    (mode * 0x1000 + x * 0x100 + nn) as u16
}

/// The word with the given mode, register indices and low nibble.
pub open spec fn word_xyn(mode: u8, x: u8, y: u8, n: u8) -> u16 {
    (mode * 0x1000 + x * 0x100 + y * 0x10 + n) as u16
}

/// The word with the given mode and address.
pub open spec fn word_nnn(mode: u8, addr: u16) -> u16 {
    (mode * 0x1000 + addr) as u16
}

/// A word built from its fields decodes into those fields.
pub proof fn lemma_word_fields(mode: u8, x: u8, y: u8, n: u8)
    requires
        mode < 16,
        x < 16,
        y < 16,
        n < 16,
    ensures
        word_xyn(mode, x, y, n) == word_xnn(mode, x, (y * 0x10 + n) as u8),
        word_xyn(mode, x, y, n) == word_nnn(mode, (x * 0x100 + y * 0x10 + n) as u16),
        mode_of(word_xyn(mode, x, y, n)) == mode,
        x_of(word_xyn(mode, x, y, n)) == x,
        y_of(word_xyn(mode, x, y, n)) == y,
        n_of(word_xyn(mode, x, y, n)) == n,
        nn_of(word_xyn(mode, x, y, n)) == y * 0x10 + n,
        nnn_of(word_xyn(mode, x, y, n)) == x * 0x100 + y * 0x10 + n,
{
    let word = word_xyn(mode, x, y, n);
    assert(word == mode * 0x1000 + x * 0x100 + y * 0x10 + n);
    assert(word / 0x1000 == mode && (word / 0x100) % 0x10 == x && (word / 0x10) % 0x10 == y && word
        % 0x10 == n && word % 0x100 == y * 0x10 + n && word % 0x1000 == x * 0x100 + y * 0x10 + n)
        by (bit_vector)
        requires
            mode < 16,
            x < 16,
            y < 16,
            n < 16,
            word == mode * 0x1000 + x * 0x100 + y * 0x10 + n,
    ;
}

/// `6xNN` leaves `NN` in register `x`, whatever `x` is, and changes nothing
/// else.
pub proof fn law_set_register(cpu: Machine, mem: Seq<u8>, x: u8, nn: u8, random: u8)
    requires
        cpu.wf(),
        !cpu.halted,
        x < 16,
    ensures
        ({
            let out = executed_opcode(cpu, mem, word_xnn(0x6, x, nn), random);
            &&& out == (Outcome { cpu: cpu.set_reg(x as int, nn), mem, result: Ok(()) })
            &&& out.cpu.v[x as int] == nn
        }),
{
    lemma_word_fields(0x6, x, nn / 16, nn % 16);
}

/// `7xNN` leaves `(Vx + NN) mod 256` in register `x` and touches no other
/// register: the flag `VF` keeps its value unless it is the target itself.
pub proof fn law_add_constant(cpu: Machine, mem: Seq<u8>, x: u8, nn: u8, random: u8)
    requires
        cpu.wf(),
        !cpu.halted,
        x < 16,
    ensures
        ({
            let out = executed_opcode(cpu, mem, word_xnn(0x7, x, nn), random);
            let sum = ((cpu.v[x as int] + nn) % 256) as u8;
            &&& out == (Outcome { cpu: cpu.set_reg(x as int, sum), mem, result: Ok(()) })
            &&& out.cpu.v[x as int] == (cpu.v[x as int] + nn) % 256
            &&& x != FLAG ==> out.cpu.v[FLAG as int] == cpu.v[FLAG as int]
        }),
{
    lemma_word_fields(0x7, x, nn / 16, nn % 16);
}

/// `8xy4` leaves `(Vx + Vy) mod 256` in register `x` and sets `VF` to 1 if
/// `Vx + Vy > 255`, else to 0. The flag is written last, so with `x = F` it
/// is the flag that stays in `VF`.
pub proof fn law_add(cpu: Machine, mem: Seq<u8>, x: u8, y: u8, random: u8)
    requires
        cpu.wf(),
        !cpu.halted,
        x < 16,
        y < 16,
    ensures
        ({
            let out = executed_opcode(cpu, mem, word_xyn(0x8, x, y, 0x4), random);
            let sum = cpu.v[x as int] + cpu.v[y as int];
            &&& out.result == Ok::<(), Fault>(())
            &&& out.mem == mem
            &&& x != FLAG ==> out.cpu.v[x as int] == sum % 256
            &&& out.cpu.v[FLAG as int] == 1 <==> sum > 255
            &&& out.cpu.v[FLAG as int] == 0 <==> sum <= 255
        }),
{
    lemma_word_fields(0x8, x, y, 0x4);
}

/// `8xy5` leaves `(Vx - Vy) mod 256` in register `x` and sets `VF` to 1 if
/// `Vx >= Vy` (no borrow), to 0 if `Vx < Vy`. `8xy7` does the same for
/// `Vy - Vx`.
pub proof fn law_subtract(cpu: Machine, mem: Seq<u8>, x: u8, y: u8, random: u8)
    requires
        cpu.wf(),
        !cpu.halted,
        x < 16,
        y < 16,
    ensures
        ({
            let out = executed_opcode(cpu, mem, word_xyn(0x8, x, y, 0x5), random);
            let vx = cpu.v[x as int];
            let vy = cpu.v[y as int];
            &&& out.result == Ok::<(), Fault>(())
            &&& out.mem == mem
            &&& x != FLAG ==> out.cpu.v[x as int] == (vx - vy) % 256
            &&& out.cpu.v[FLAG as int] == 1 <==> vx >= vy
            &&& out.cpu.v[FLAG as int] == 0 <==> vx < vy
        }),
        ({
            let out = executed_opcode(cpu, mem, word_xyn(0x8, x, y, 0x7), random);
            let vx = cpu.v[x as int];
            let vy = cpu.v[y as int];
            &&& out.result == Ok::<(), Fault>(())
            &&& out.mem == mem
            &&& x != FLAG ==> out.cpu.v[x as int] == (vy - vx) % 256
            &&& out.cpu.v[FLAG as int] == 1 <==> vy >= vx
            &&& out.cpu.v[FLAG as int] == 0 <==> vy < vx
        }),
{
    lemma_word_fields(0x8, x, y, 0x5);
    lemma_word_fields(0x8, x, y, 0x7);
}

/// `8xy6` leaves `Vx >> 1` in register `x` and the bit shifted out, bit 0 of
/// the old `Vx`, in `VF`. `8xyE` leaves `Vx << 1` in register `x` and the bit
/// shifted out, bit 7 of the old `Vx`, in `VF`.
pub proof fn law_shift(cpu: Machine, mem: Seq<u8>, x: u8, y: u8, random: u8)
    requires
        cpu.wf(),
        !cpu.halted,
        x < 16,
        y < 16,
    ensures
        ({
            let out = executed_opcode(cpu, mem, word_xyn(0x8, x, y, 0x6), random);
            let vx = cpu.v[x as int];
            &&& out.result == Ok::<(), Fault>(())
            &&& out.mem == mem
            &&& x != FLAG ==> out.cpu.v[x as int] == vx >> 1
            &&& out.cpu.v[FLAG as int] == vx & 1
        }),
        ({
            let out = executed_opcode(cpu, mem, word_xyn(0x8, x, y, 0xE), random);
            let vx = cpu.v[x as int];
            &&& out.result == Ok::<(), Fault>(())
            &&& out.mem == mem
            &&& x != FLAG ==> out.cpu.v[x as int] == vx << 1
            &&& out.cpu.v[FLAG as int] == vx >> 7
        }),
{
    lemma_word_fields(0x8, x, y, 0x6);
    lemma_word_fields(0x8, x, y, 0xE);
    let vx = cpu.v[x as int];
    assert(vx >> 1 == vx / 2 && vx & 1 == vx % 2 && vx << 1 == (vx * 2) % 256 && vx >> 7 == (
    if vx >= 128 {
        1u8
    } else {
        0u8
    })) by (bit_vector);
}

/// `Dxyn` twice in succession, with the sprite stored outside the
/// framebuffer and neither coordinate taken from `VF`, leaves the memory,
/// and so every pixel, as it was before the first of the two. (With a
/// coordinate in `VF` the first drawing's flag would move the second.)
pub proof fn law_draw_twice(cpu: Machine, mem: Seq<u8>, x: u8, y: u8, n: u8, random: u8)
    requires
        cpu.wf(),
        !cpu.halted,
        mem.len() == MAX_SIZE,
        x < FLAG,
        y < FLAG,
        n < 16,
        n == 0 || cpu.i + n <= DISPLAY_LOC,
    ensures
        ({
            let once = executed_opcode(cpu, mem, word_xyn(0xD, x, y, n), random);
            let twice = executed_opcode(once.cpu, once.mem, word_xyn(0xD, x, y, n), random);
            once.result == Ok::<(), Fault>(()) && twice.result == Ok::<(), Fault>(()) && twice.mem
                == mem
        }),
{
    lemma_word_fields(0xD, x, y, n);
    lemma_draw_twice_restores(
        mem,
        cpu.i as int,
        cpu.v[x as int] as int,
        cpu.v[y as int] as int,
        n as nat,
    );
}

/// `Dxyn` with the sprite stored outside the framebuffer flips exactly the
/// pixels of the display that lie under a set bit of the sprite placed at
/// `(Vx, Vy)`, and leaves 1 in `VF` if one of those pixels was lit before,
/// else 0. Nothing is drawn left of `Vx` or above `Vy`: the part of a sprite
/// that sticks out at `x >= 64` or `y >= 32` does not come back at the
/// opposite edge.
pub proof fn law_draw(cpu: Machine, mem: Seq<u8>, x: u8, y: u8, n: u8, random: u8)
    requires
        cpu.wf(),
        !cpu.halted,
        mem.len() == MAX_SIZE,
        x < 16,
        y < 16,
        n < 16,
        n == 0 || cpu.i + n <= DISPLAY_LOC,
    ensures
        ({
            let out = executed_opcode(cpu, mem, word_xyn(0xD, x, y, n), random);
            let vx = cpu.v[x as int] as int;
            let vy = cpu.v[y as int] as int;
            &&& out.result == Ok::<(), Fault>(())
            &&& out.mem.len() == MAX_SIZE
            &&& (forall|a: int| 0 <= a < DISPLAY_LOC ==> out.mem[a] == mem[a])
            &&& (forall|px: int, py: int|
                on_screen(px, py) ==> #[trigger] pixel(out.mem, px, py) == (pixel(mem, px, py)
                    != sprite_covers(mem, cpu.i as int, vx, vy, n as nat, px, py)))
            &&& (forall|px: int, py: int|
                on_screen(px, py) && (px < vx || py < vy) ==> #[trigger] pixel(out.mem, px, py)
                    == pixel(mem, px, py))
            &&& out.cpu.v[FLAG as int] == 1 <==> (exists|px: int, py: int|
                on_screen(px, py) && #[trigger] sprite_covers(
                    mem,
                    cpu.i as int,
                    vx,
                    vy,
                    n as nat,
                    px,
                    py,
                ) && pixel(mem, px, py))
            &&& out.cpu.v[FLAG as int] == 0 || out.cpu.v[FLAG as int] == 1
        }),
{
    lemma_word_fields(0xD, x, y, n);
    let vx = cpu.v[x as int] as int;
    let vy = cpu.v[y as int] as int;
    lemma_sprite_clipped(mem, cpu.i as int, vx, vy, n as nat);
    lemma_sprite_drawn(mem, cpu.i as int, vx, vy, n as nat);
    lemma_sprite_collides(mem, cpu.i as int, vx, vy, n as nat);
}

/// `Fx55` copies `V0..=Vx` to memory at `I` and changes no register. `Fx65`
/// run later from the same `I`, on whatever the registers then hold, brings
/// back into `V0..=Vx` the values that were stored and leaves the registers
/// beyond `Vx` as they are.
pub proof fn law_store_load(cpu: Machine, later: Machine, mem: Seq<u8>, x: u8, random: u8)
    requires
        cpu.wf(),
        later.wf(),
        !cpu.halted,
        !later.halted,
        mem.len() == MAX_SIZE,
        x < 16,
        cpu.i + x < MAX_SIZE,
        later.i == cpu.i,
    ensures
        ({
            let stored = executed_opcode(cpu, mem, word_xnn(0xF, x, 0x55), random);
            let loaded = executed_opcode(later, stored.mem, word_xnn(0xF, x, 0x65), random);
            &&& stored.result == Ok::<(), Fault>(())
            &&& stored.cpu == cpu
            &&& loaded.result == Ok::<(), Fault>(())
            &&& loaded.mem == stored.mem
            &&& loaded.cpu.v.len() == 16
            &&& (forall|k: int| 0 <= k <= x ==> loaded.cpu.v[k] == cpu.v[k])
            &&& (forall|k: int| x < k < 16 ==> loaded.cpu.v[k] == later.v[k])
            &&& later == cpu ==> loaded.cpu == cpu
        }),
{
    lemma_word_fields(0xF, x, 0x5, 0x5);
    lemma_word_fields(0xF, x, 0x6, 0x5);
    let stored = executed_opcode(cpu, mem, word_xnn(0xF, x, 0x55), random);
    let loaded = executed_opcode(later, stored.mem, word_xnn(0xF, x, 0x65), random);
    assert(decoded(word_xnn(0xF, x, 0x55)) == Some(Instruction::Store { x }));
    assert(decoded(word_xnn(0xF, x, 0x65)) == Some(Instruction::Load { x }));
    if later == cpu {
        assert(loaded.cpu.v =~= cpu.v);
    }
}

/// A call followed at once by a return brings the program counter back to
/// the instruction after the call and the stack back to what it was: with
/// `2nnn` at the program counter, `00EE` at `nnn` and room on the stack, two
/// steps change nothing but the program counter, which moves on by two.
pub proof fn law_call_return(cpu: Machine, mem: Seq<u8>, addr: u16, random: u8)
    requires
        cpu.wf(),
        !cpu.halted,
        cpu.pc + 1 < MAX_SIZE,
        addr + 1 < MAX_SIZE,
        cpu.stack.len() < STACK_SIZE,
        word_at(mem, cpu.pc as int) == word_nnn(0x2, addr),
        word_at(mem, addr as int) == 0x00EE,
    ensures
        ({
            let called = stepped(cpu, mem, random);
            let returned = stepped(called.cpu, called.mem, random);
            &&& called.result == Ok::<(), Fault>(())
            &&& called.cpu.pc == addr
            &&& returned == (Outcome {
                cpu: Machine { pc: (cpu.pc + 2) as u16, ..cpu },
                mem,
                result: Ok(()),
            })
        }),
{
    let call = word_nnn(0x2, addr);
    assert(decoded(call) == Some(Instruction::Call { addr }));
    assert(decoded(0x00EE) == Some(Instruction::Return));
    let called = stepped(cpu, mem, random);
    assert(called.cpu.stack.drop_last() =~= cpu.stack);
}

/// Whatever is executed, the machine keeps its sixteen registers and
/// sixteen keys, the stack stays within its capacity and the memory keeps its
/// size: on a fault because nothing changes, else because no instruction
/// breaks any of these.
pub proof fn law_stays_well_formed(cpu: Machine, mem: Seq<u8>, opcode: u16, random: u8)
    requires
        cpu.wf(),
        mem.len() == MAX_SIZE,
    ensures
        executed_opcode(cpu, mem, opcode, random).cpu.wf(),
        executed_opcode(cpu, mem, opcode, random).mem.len() == MAX_SIZE,
        stepped(cpu, mem, random).cpu.wf(),
        stepped(cpu, mem, random).mem.len() == MAX_SIZE,
{
    lemma_executed_well_formed(cpu, mem, opcode, random);
    if !cpu.halted && cpu.pc + 1 < MAX_SIZE {
        let advanced = Machine { pc: (cpu.pc + 2) as u16, ..cpu };
        lemma_executed_well_formed(advanced, mem, word_at(mem, cpu.pc as int) as u16, random);
    }
}

proof fn lemma_executed_well_formed(cpu: Machine, mem: Seq<u8>, opcode: u16, random: u8)
    requires
        cpu.wf(),
        mem.len() == MAX_SIZE,
    ensures
        executed_opcode(cpu, mem, opcode, random).cpu.wf(),
        executed_opcode(cpu, mem, opcode, random).mem.len() == MAX_SIZE,
{
    lemma_decoded_wf(opcode);
    match decoded(opcode) {
        Some(Instruction::Draw { x, y, n }) => {
            lemma_sprite_clipped(
                mem,
                cpu.i as int,
                cpu.v[x as int] as int,
                cpu.v[y as int] as int,
                n as nat,
            );
        },
        _ => {},
    }
}

/// A halted machine stays halted and nothing changes any more: `0000` halts,
/// and every step from then on is without effect.
pub proof fn law_halt(cpu: Machine, mem: Seq<u8>, random: u8)
    ensures
        !cpu.halted ==> executed_opcode(cpu, mem, 0x0000, random) == (Outcome {
            cpu: Machine { halted: true, ..cpu },
            mem,
            result: Ok(()),
        }),
        cpu.halted ==> stepped(cpu, mem, random) == (Outcome { cpu, mem, result: Ok(()) }),
        stepped(cpu, mem, random).cpu.halted ==> cpu.halted || (cpu.pc + 1 < MAX_SIZE && word_at(
            mem,
            cpu.pc as int,
        ) == 0),
{
    assert(decoded(0x0000) == Some(Instruction::Halt));
}

/// A fault stops the machine where it stands: nothing of the machine or the
/// memory has changed when a step or an instruction ends in one.
pub proof fn law_fault_changes_nothing(cpu: Machine, mem: Seq<u8>, opcode: u16, random: u8)
    ensures
        executed_opcode(cpu, mem, opcode, random).result is Err ==> executed_opcode(
            cpu,
            mem,
            opcode,
            random,
        ).cpu == cpu && executed_opcode(cpu, mem, opcode, random).mem == mem,
        stepped(cpu, mem, random).result is Err ==> stepped(cpu, mem, random).cpu == cpu
            && stepped(cpu, mem, random).mem == mem,
{
}

} // verus!
