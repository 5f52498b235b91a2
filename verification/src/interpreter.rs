//! The fetch/decode/execute engine.
use vstd::prelude::*;
use rand::Rng;
use crate::instruction::{
    decoded, is_arithmetic, is_control, lemma_decoded_wf, mode_of, n_of, nn_of, nnn_of, x_of, y_of,
    Instruction,
};
use crate::keyconf::{COSMACVIP, NUM_KEYS};
use crate::machine::{
    cleared, cpu_after, executed, executed_opcode, is_lowest_held, lemma_random_only_for_cxnn,
    lowest_held, stepped, wants_random, Fault, Machine, Outcome, FLAG, NUM_REGISTERS, STACK_SIZE,
};
use crate::memory::{overlay, word_at, Memory, DISPLAY_LOC, FONT_CHAR_SIZE, FONT_LOC, MAX_SIZE};
use crate::sprite::draw_sprite;

verus! {

/// The key-held vector in which exactly the keys listed in `held` are held.
pub open spec fn keys_held(held: Seq<COSMACVIP>) -> Seq<bool> {
    Seq::new(
        NUM_KEYS as nat,
        |k: int| exists|j: int| 0 <= j < held.len() && #[trigger] held[j].slot() == k,
    )
}

pub struct Interpreter {
    stack: [u16; STACK_SIZE],  // return addresses; the live ones are below `sc`
    sc: u8,  // stack counter
    vi: u16,  // index register
    vx: [u8; NUM_REGISTERS],  // registers V0 to VF
    pc: u16,  // program counter
    dt: u8,  // delay timer
    st: u8,  // sound timer
    key_held: [bool; NUM_KEYS],
    stop: bool,
}

impl View for Interpreter {
    type V = Machine;

    closed spec fn view(&self) -> Machine {
        Machine {
            v: self.vx@,
            i: self.vi,
            pc: self.pc,
            stack: self.stack@.subrange(0, self.sc as int),
            dt: self.dt,
            st: self.st,
            keys: self.key_held@,
            halted: self.stop,
        }
    }
}

impl Interpreter {
    /// Every interpreter models a well-formed machine.
    pub proof fn lemma_view(&self)
        ensures
            self@.wf(),
    {
    }

    /// An interpreter at power-on: everything zero, nothing held, the program
    /// counter at the program base.
    pub fn new() -> (interpreter: Self)
        ensures
            interpreter@ == Machine::initial(),
    {
        let interpreter = Interpreter {
            vi: 0,
            vx: [0; NUM_REGISTERS],
            pc: 0x0200,
            dt: 0,
            st: 0,
            stack: [0; STACK_SIZE],
            sc: 0,
            key_held: [false; NUM_KEYS],
            stop: false,
        };
        assert(interpreter@ =~= Machine::initial());
        interpreter
    }

    /// Stores `data` in register `x`.
    pub fn set_vx(&mut self, x: u8, data: u8)
        requires
            x < NUM_REGISTERS,
        ensures
            final(self)@ == old(self)@.set_reg(x as int, data),
    {
        self.vx[x as usize] = data;
    }

    /// Stores `data` in the flag register `VF`.
    pub fn set_vf(&mut self, data: u8)
        ensures
            final(self)@ == old(self)@.set_reg(FLAG as int, data),
    {
        self.vx[15] = data;
    }

    /// The value of register `x`.
    pub fn vx(&self, x: u8) -> (value: u8)
        requires
            x < NUM_REGISTERS,
        ensures
            value == self@.v[x as int],
    {
        self.vx[x as usize]
    }

    /// The value of the flag register `VF`.
    pub fn vf(&self) -> (value: u8)
        ensures
            value == self@.v[FLAG as int],
    {
        self.vx[15]
    }

    /// The value of the program counter.
    pub fn pc(&self) -> (value: u16)
        ensures
            value == self@.pc,
    {
        self.pc
    }

    /// The value of the index register.
    pub fn vi(&self) -> (value: u16)
        ensures
            value == self@.i,
    {
        self.vi
    }

    /// The value of the delay timer.
    pub fn dt(&self) -> (value: u8)
        ensures
            value == self@.dt,
    {
        self.dt
    }

    /// The value of the sound timer.
    pub fn st(&self) -> (value: u8)
        ensures
            value == self@.st,
    {
        self.st
    }

    /// Moves each timer one tick towards zero; a timer at zero stays there.
    pub fn decrement_timers(&mut self)
        ensures
            final(self)@ == old(self)@.ticked(),
    {
        if self.dt > 0 {
            self.dt -= 1;
        }
        if self.st > 0 {
            self.st -= 1;
        }
    }

    /// Sets the delay timer.
    pub fn set_dt(&mut self, value: u8)
        ensures
            final(self)@ == (Machine { dt: value, ..old(self)@ }),
    {
        self.dt = value;
    }

    /// Sets the sound timer.
    pub fn set_st(&mut self, value: u8)
        ensures
            final(self)@ == (Machine { st: value, ..old(self)@ }),
    {
        self.st = value;
    }

    /// Replaces the whole key-held vector: a key is held from now on exactly
    /// if `held` lists it.
    pub fn apply_input(&mut self, held: &[COSMACVIP])
        ensures
            final(self)@ == (Machine { keys: keys_held(held@), ..old(self)@ }),
    {
        self.key_held = [false; NUM_KEYS];
        let n = held.len();
        let mut i: usize = 0;
        while i < n
            invariant
                i <= n,
                n == held@.len(),
                self@ == (Machine { keys: self@.keys, ..old(self)@ }),
                self@.keys == keys_held(held@.subrange(0, i as int)),
            decreases n - i,
        {
            let key = held[i];
            let ghost before = self@.keys;
            self.key_held[key.index()] = true;
            proof {
                let prefix = held@.subrange(0, i as int);
                let longer = held@.subrange(0, i + 1);
                assert forall|k: int| 0 <= k < NUM_KEYS implies self@.keys[k] == keys_held(
                    longer,
                )[k] by {
                    if k == key.slot() {
                        assert(longer[i as int].slot() == k);
                    } else if before[k] {
                        let j = choose|j: int|
                            0 <= j < prefix.len() && #[trigger] prefix[j].slot() == k;
                        assert(longer[j].slot() == k);
                    } else if keys_held(longer)[k] {
                        let j = choose|j: int|
                            0 <= j < longer.len() && #[trigger] longer[j].slot() == k;
                        assert(prefix[j].slot() == k);
                    }
                }
                assert(self@.keys =~= keys_held(longer));
            }
            i += 1;
        }
        assert(held@.subrange(0, n as int) == held@);
    }

    /// The lowest-numbered key that is held, if any is.
    pub fn get_first_key_pressed(&self) -> (key: Option<usize>)
        ensures
            key matches Some(k) ==> is_lowest_held(self@.keys, k as int) && lowest_held(self@.keys)
                == Some(k as int),
            key is None ==> lowest_held(self@.keys) is None && (forall|k: int|
                0 <= k < NUM_KEYS ==> !self@.keys[k]),
    {
        let mut key_idx: usize = 0;
        while key_idx < NUM_KEYS
            invariant
                key_idx <= NUM_KEYS,
                forall|j: int| 0 <= j < key_idx ==> !self@.keys[j],
            decreases NUM_KEYS - key_idx,
        {
            if self.key_held[key_idx] {
                assert(is_lowest_held(self@.keys, key_idx as int));
                return Some(key_idx);
            }
            key_idx += 1;
        }
        None
    }

    /// Whether the halt instruction has been executed.
    pub fn stop(&self) -> (halted: bool)
        ensures
            halted == self@.halted,
    {
        self.stop
    }

    /// The instruction word at the program counter, which must lie in memory.
    pub fn next(&self, mem: &Memory) -> (opcode: u16)
        requires
            self@.pc + 1 < MAX_SIZE,
        ensures
            opcode == word_at(mem@, self@.pc as int),
    {
        mem.read_u16(self.pc)
    }

    /// Pushes a return address. The stack must have room.
    pub fn stack_push(&mut self, value: u16)
        requires
            old(self)@.stack.len() < STACK_SIZE,
        ensures
            final(self)@ == (Machine { stack: old(self)@.stack.push(value), ..old(self)@ }),
    {
        self.stack[self.sc as usize] = value;
        self.sc += 1;
        assert(self@.stack =~= old(self)@.stack.push(value));
    }

    /// Pops the innermost return address. The stack must not be empty.
    pub fn stack_pop(&mut self) -> (value: u16)
        requires
            old(self)@.stack.len() > 0,
        ensures
            value == old(self)@.stack.last(),
            final(self)@ == (Machine { stack: old(self)@.stack.drop_last(), ..old(self)@ }),
    {
        self.sc -= 1;
        assert(self@.stack =~= old(self)@.stack.drop_last());
        self.stack[self.sc as usize]
    }

    /// The top four bits of `opcode`.
    pub fn mode(opcode: u16) -> (mode: u8)
        ensures
            mode == mode_of(opcode),
    {
        assert((opcode & 0b1111_0000_0000_0000) >> 12 == opcode / 0x1000) by (bit_vector);
        ((opcode & 0b1111_0000_0000_0000) >> 12) as u8
    }

    /// Bits 8 to 11 of `opcode`.
    pub fn x(opcode: u16) -> (x: u8)
        ensures
            x == x_of(opcode),
            x < 16,
    {
        assert((opcode & 0b1111_0000_0000) >> 8 == (opcode / 0x100) % 0x10) by (bit_vector);
        ((opcode & 0b1111_0000_0000) >> 8) as u8
    }

    /// Bits 4 to 7 of `opcode`.
    pub fn y(opcode: u16) -> (y: u8)
        ensures
            y == y_of(opcode),
            y < 16,
    {
        assert((opcode & 0b0000_1111_0000) >> 4 == (opcode / 0x10) % 0x10) by (bit_vector);
        ((opcode & 0b0000_1111_0000) >> 4) as u8
    }

    /// The low four bits of `opcode`.
    pub fn n(opcode: u16) -> (n: u8)
        ensures
            n == n_of(opcode),
            n < 16,
    {
        assert(opcode & 0b0000_0000_1111 == opcode % 0x10) by (bit_vector);
        (opcode & 0b0000_0000_1111) as u8
    }

    /// The low byte of `opcode`.
    pub fn nn(opcode: u16) -> (nn: u8)
        ensures
            nn == nn_of(opcode),
    {
        assert(opcode & 0b0000_1111_1111 == opcode % 0x100) by (bit_vector);
        (opcode & 0b0000_1111_1111) as u8
    }

    /// The low twelve bits of `opcode`.
    pub fn nnn(opcode: u16) -> (nnn: u16)
        ensures
            nnn == nnn_of(opcode),
            nnn < 0x1000,
    {
        assert(opcode & 0b1111_1111_1111 == opcode % 0x1000) by (bit_vector);
        opcode & 0b1111_1111_1111
    }

    /// The instruction that `opcode` encodes, or `None` where it encodes
    /// none.
    pub fn decode(opcode: u16) -> (ins: Option<Instruction>)
        ensures
            ins == decoded(opcode),
    {
        if opcode == 0x0000 {
            return Some(Instruction::Halt);
        }
        let x = Interpreter::x(opcode);
        let y = Interpreter::y(opcode);
        let n = Interpreter::n(opcode);
        let nn = Interpreter::nn(opcode);
        let addr = Interpreter::nnn(opcode);
        match Interpreter::mode(opcode) {
            0x0 => match addr {
                0x0E0 => Some(Instruction::ClearScreen),
                0x0EE => Some(Instruction::Return),
                _ => None,
            },
            0x1 => Some(Instruction::Jump { addr }),
            0x2 => Some(Instruction::Call { addr }),
            0x3 => Some(Instruction::SkipIfEqual { x, nn }),
            0x4 => Some(Instruction::SkipIfNotEqual { x, nn }),
            0x5 => if n != 0 {
                None
            } else {
                Some(Instruction::SkipIfSame { x, y })
            },
            0x6 => Some(Instruction::SetRegister { x, nn }),
            0x7 => Some(Instruction::AddConstant { x, nn }),
            0x8 => match n {
                0x0 => Some(Instruction::CopyRegister { x, y }),
                0x1 => Some(Instruction::Or { x, y }),
                0x2 => Some(Instruction::And { x, y }),
                0x3 => Some(Instruction::Xor { x, y }),
                0x4 => Some(Instruction::Add { x, y }),
                0x5 => Some(Instruction::Subtract { x, y }),
                0x6 => Some(Instruction::ShiftRight { x }),
                0x7 => Some(Instruction::SubtractFrom { x, y }),
                0xE => Some(Instruction::ShiftLeft { x }),
                _ => None,
            },
            0x9 => if n != 0 {
                None
            } else {
                Some(Instruction::SkipIfDifferent { x, y })
            },
            0xA => Some(Instruction::SetIndex { addr }),
            0xB => Some(Instruction::JumpOffset { addr }),
            0xC => Some(Instruction::Random { x, nn }),
            0xD => Some(Instruction::Draw { x, y, n }),
            0xE => match nn {
                0x9E => Some(Instruction::SkipIfKey { x }),
                0xA1 => Some(Instruction::SkipIfNoKey { x }),
                _ => None,
            },
            0xF => match nn {
                0x07 => Some(Instruction::ReadDelay { x }),
                0x0A => Some(Instruction::WaitKey { x }),
                0x15 => Some(Instruction::SetDelay { x }),
                0x18 => Some(Instruction::SetSound { x }),
                0x1E => Some(Instruction::AddIndex { x }),
                0x29 => Some(Instruction::FontChar { x }),
                0x33 => Some(Instruction::Decimal { x }),
                0x55 => Some(Instruction::Store { x }),
                0x65 => Some(Instruction::Load { x }),
                _ => None,
            },
            _ => None,
        }
    }

    /// Moves the program counter past one more instruction if `cond` holds.
    fn skip_if(&mut self, cond: bool) -> (result: Result<(), Fault>)
        ensures
            result == (match old(self)@.skip_fault(cond) {
                Some(fault) => Err::<(), Fault>(fault),
                None => Ok(()),
            }),
            final(self)@ == (if old(self)@.skip_fault(cond) is Some {
                old(self)@
            } else {
                old(self)@.skip_if(cond)
            }),
    {
        if cond {
            if self.pc > 0xFFFD {
                return Err(Fault::AddressOutOfRange);
            }
            self.pc += 2;
        }
        Ok(())
    }

    /// Stores `value` in register `x`, then the flag in `VF`.
    fn set_with_flag(&mut self, x: u8, value: u8, flag: bool)
        requires
            x < NUM_REGISTERS,
        ensures
            final(self)@ == old(self)@.set_reg(x as int, value).set_flag(flag),
    {
        self.set_vx(x, value);
        self.set_vf(
            if flag {
                1
            } else {
                0
            },
        );
    }

    /// Zeroes the framebuffer.
    fn clear_screen(memory: &mut Memory)
        ensures
            final(memory)@ == cleared(old(memory)@),
    {
        proof {
            memory.lemma_size();
        }
        let mut offset: u16 = 0;
        while offset < 0x100
            invariant
                offset <= 0x100,
                memory@.len() == MAX_SIZE,
                forall|a: int|
                    0 <= a < MAX_SIZE ==> memory@[a] == if DISPLAY_LOC <= a < DISPLAY_LOC
                        + offset {
                        0u8
                    } else {
                        old(memory)@[a]
                    },
            decreases 0x100 - offset,
        {
            memory.write(DISPLAY_LOC + offset, 0);
            offset += 1;
        }
        assert(memory@ =~= cleared(old(memory)@));
    }

    /// Copies `V0..=Vx` to memory at the index register.
    fn store_registers(&self, memory: &mut Memory, x: u8)
        requires
            x < NUM_REGISTERS,
            self@.i + x < MAX_SIZE,
        ensures
            final(memory)@ == overlay(
                old(memory)@,
                self@.i as int,
                self@.v.subrange(0, x + 1),
            ),
    {
        proof {
            memory.lemma_size();
        }
        let mut k: u8 = 0;
        while k <= x
            invariant
                k <= x + 1,
                x < NUM_REGISTERS,
                self@.i + x < MAX_SIZE,
                memory@.len() == MAX_SIZE,
                memory@ == overlay(
                    old(memory)@,
                    self@.i as int,
                    self@.v.subrange(0, k as int),
                ),
            decreases x + 1 - k,
        {
            let addr = self.vi + k as u16;
            let value = self.vx[k as usize];
            memory.write(addr, value);
            k += 1;
        }
    }

    /// Copies memory at the index register to `V0..=Vx`.
    fn load_registers(&mut self, memory: &Memory, x: u8)
        requires
            x < NUM_REGISTERS,
            old(self)@.i + x < MAX_SIZE,
        ensures
            final(self)@ == cpu_after(old(self)@, memory@, Instruction::Load { x }, 0),
    {
        let mut k: u8 = 0;
        while k <= x
            invariant
                k <= x + 1,
                x < NUM_REGISTERS,
                self@.i + x < MAX_SIZE,
                self@ == (Machine { v: self@.v, ..old(self)@ }),
                forall|j: int|
                    0 <= j < NUM_REGISTERS ==> self@.v[j] == if j < k {
                        memory@[self@.i + j]
                    } else {
                        old(self)@.v[j]
                    },
            decreases x + 1 - k,
        {
            let addr = self.vi + k as u16;
            self.vx[k as usize] = memory.read(addr);
            k += 1;
        }
        assert(self@.v =~= cpu_after(old(self)@, memory@, Instruction::Load { x }, 0).v);
    }

    /// Executes an instruction that moves the program counter or halts.
    fn perform_control(&mut self, ins: Instruction, memory: &Memory) -> (result: Result<(), Fault>)
        requires
            ins.wf(),
            is_control(ins),
        ensures
            final(self)@ == executed(old(self)@, memory@, ins, 0).cpu,
            memory@ == executed(old(self)@, memory@, ins, 0).mem,
            result == executed(old(self)@, memory@, ins, 0).result,
    {
        match ins {
            Instruction::Halt => {
                self.stop = true;
                Ok(())
            },
            Instruction::Return => {
                if self.sc == 0 {
                    return Err(Fault::StackUnderflow);
                }
                self.pc = self.stack_pop();
                Ok(())
            },
            Instruction::Jump { addr } => {
                self.pc = addr;
                Ok(())
            },
            Instruction::Call { addr } => {
                if self.sc as usize >= STACK_SIZE {
                    return Err(Fault::StackOverflow);
                }
                self.stack_push(self.pc);
                self.pc = addr;
                Ok(())
            },
            Instruction::SkipIfEqual { x, nn } => {
                let cond = self.vx[x as usize] == nn;
                self.skip_if(cond)
            },
            Instruction::SkipIfNotEqual { x, nn } => {
                let cond = self.vx[x as usize] != nn;
                self.skip_if(cond)
            },
            Instruction::SkipIfSame { x, y } => {
                let cond = self.vx[x as usize] == self.vx[y as usize];
                self.skip_if(cond)
            },
            Instruction::SkipIfDifferent { x, y } => {
                let cond = self.vx[x as usize] != self.vx[y as usize];
                self.skip_if(cond)
            },
            Instruction::JumpOffset { addr } => {
                self.pc = addr + self.vx[0] as u16;
                Ok(())
            },
            Instruction::SkipIfKey { x } => {
                let vx = self.vx[x as usize];
                if vx as usize >= NUM_KEYS {
                    return Err(Fault::KeyOutOfRange);
                }
                let cond = self.key_held[vx as usize];
                self.skip_if(cond)
            },
            Instruction::SkipIfNoKey { x } => {
                let vx = self.vx[x as usize];
                if vx as usize >= NUM_KEYS {
                    return Err(Fault::KeyOutOfRange);
                }
                let cond = !self.key_held[vx as usize];
                self.skip_if(cond)
            },
            Instruction::WaitKey { x } => {
                match self.get_first_key_pressed() {
                    Some(key) => {
                        self.set_vx(x, key as u8);
                        Ok(())
                    },
                    None => {
                        // go back, so that this instruction runs again
                        if self.pc < 2 {
                            return Err(Fault::AddressOutOfRange);
                        }
                        self.pc -= 2;
                        Ok(())
                    },
                }
            },
            _ => Ok(()),
        }
    }

    /// Executes an instruction that computes a register from registers, a
    /// constant or the random byte.
    fn perform_arithmetic(&mut self, ins: Instruction, memory: &Memory, random: u8)
        requires
            ins.wf(),
            is_arithmetic(ins),
        ensures
            final(self)@ == executed(old(self)@, memory@, ins, random).cpu,
            memory@ == executed(old(self)@, memory@, ins, random).mem,
            executed(old(self)@, memory@, ins, random).result is Ok,
    {
        match ins {
            Instruction::SetRegister { x, nn } => {
                self.set_vx(x, nn);
            },
            Instruction::AddConstant { x, nn } => {
                let vx = self.vx[x as usize];
                self.set_vx(x, vx.wrapping_add(nn));
            },
            Instruction::CopyRegister { x, y } => {
                let vy = self.vx[y as usize];
                self.set_vx(x, vy);
            },
            Instruction::Or { x, y } => {
                let vx = self.vx[x as usize];
                let vy = self.vx[y as usize];
                self.set_vx(x, vx | vy);
            },
            Instruction::And { x, y } => {
                let vx = self.vx[x as usize];
                let vy = self.vx[y as usize];
                self.set_vx(x, vx & vy);
            },
            Instruction::Xor { x, y } => {
                let vx = self.vx[x as usize];
                let vy = self.vx[y as usize];
                self.set_vx(x, vx ^ vy);
            },
            Instruction::Add { x, y } => {
                let vx = self.vx[x as usize];
                let vy = self.vx[y as usize];
                let overflows = vx.checked_add(vy).is_none();
                self.set_with_flag(x, vx.wrapping_add(vy), overflows);
            },
            Instruction::Subtract { x, y } => {
                let vx = self.vx[x as usize];
                let vy = self.vx[y as usize];
                let underflows = vx.checked_sub(vy).is_none();
                self.set_with_flag(x, vx.wrapping_sub(vy), !underflows);
            },
            Instruction::ShiftRight { x } => {
                let vx = self.vx[x as usize];
                let shifted_bit = vx & 0b0000_0001;
                assert(vx >> 1 == vx / 2 && (vx & 1 == 1) == (vx % 2 == 1)) by (bit_vector);
                self.set_with_flag(x, vx >> 1, shifted_bit == 1);
            },
            Instruction::SubtractFrom { x, y } => {
                let vx = self.vx[x as usize];
                let vy = self.vx[y as usize];
                let underflows = vy.checked_sub(vx).is_none();
                self.set_with_flag(x, vy.wrapping_sub(vx), !underflows);
            },
            Instruction::ShiftLeft { x } => {
                let vx = self.vx[x as usize];
                let shifted_bit = (vx & 0b1000_0000) >> 7;
                assert(vx << 1 == (vx * 2) % 256 && (((vx & 0x80) >> 7) == 1) == (vx >= 128))
                    by (bit_vector);
                self.set_with_flag(x, vx << 1, shifted_bit == 1);
            },
            Instruction::Random { x, nn } => {
                self.set_vx(x, random & nn);
            },
            _ => {},
        }
    }

    /// Executes an instruction that moves data between registers, timers,
    /// the index register, memory and the display.
    fn perform_transfer(&mut self, ins: Instruction, memory: &mut Memory) -> (result: Result<
        (),
        Fault,
    >)
        requires
            ins.wf(),
            !is_control(ins),
            !is_arithmetic(ins),
        ensures
            final(self)@ == executed(old(self)@, old(memory)@, ins, 0).cpu,
            final(memory)@ == executed(old(self)@, old(memory)@, ins, 0).mem,
            result == executed(old(self)@, old(memory)@, ins, 0).result,
    {
        match ins {
            Instruction::ClearScreen => {
                Interpreter::clear_screen(memory);
                Ok(())
            },
            Instruction::SetIndex { addr } => {
                self.vi = addr;
                Ok(())
            },
            Instruction::Draw { x, y, n } => {
                if n > 0 && self.vi > MAX_SIZE - n as u16 {
                    return Err(Fault::AddressOutOfRange);
                }
                let vx = self.vx[x as usize];
                let vy = self.vx[y as usize];
                let collision = draw_sprite(memory, self.vi, vx, vy, n);
                self.set_vf(
                    if collision {
                        1
                    } else {
                        0
                    },
                );
                Ok(())
            },
            Instruction::ReadDelay { x } => {
                self.set_vx(x, self.dt);
                Ok(())
            },
            Instruction::SetDelay { x } => {
                self.set_dt(self.vx[x as usize]);
                Ok(())
            },
            Instruction::SetSound { x } => {
                self.set_st(self.vx[x as usize]);
                Ok(())
            },
            Instruction::AddIndex { x } => {
                let vx = self.vx[x as usize];
                self.vi = self.vi.wrapping_add(vx as u16);
                Ok(())
            },
            Instruction::FontChar { x } => {
                let vx = self.vx[x as usize];
                let offset = (vx as u16) * FONT_CHAR_SIZE;
                self.vi = FONT_LOC + offset;
                Ok(())
            },
            Instruction::Decimal { x } => {
                if self.vi > MAX_SIZE - 3 {
                    return Err(Fault::AddressOutOfRange);
                }
                let vx = self.vx[x as usize];
                let right_digit = vx % 10;
                let mid_digit = (vx / 10) % 10;
                let left_digit = vx / 100;
                memory.write(self.vi, left_digit);
                memory.write(self.vi + 1, mid_digit);
                memory.write(self.vi + 2, right_digit);
                Ok(())
            },
            Instruction::Store { x } => {
                if self.vi > MAX_SIZE - 1 - x as u16 {
                    return Err(Fault::AddressOutOfRange);
                }
                self.store_registers(memory, x);
                Ok(())
            },
            Instruction::Load { x } => {
                if self.vi > MAX_SIZE - 1 - x as u16 {
                    return Err(Fault::AddressOutOfRange);
                }
                self.load_registers(memory, x);
                Ok(())
            },
            _ => Ok(()),
        }
    }

    /// Executes one decoded instruction on a machine whose program counter
    /// already points past it.
    fn perform(&mut self, ins: Instruction, memory: &mut Memory, random: u8) -> (result: Result<
        (),
        Fault,
    >)
        requires
            ins.wf(),
        ensures
            final(self)@ == executed(old(self)@, old(memory)@, ins, random).cpu,
            final(memory)@ == executed(old(self)@, old(memory)@, ins, random).mem,
            result == executed(old(self)@, old(memory)@, ins, random).result,
    {
        proof {
            if !(ins is Random) {
                lemma_random_only_for_cxnn(self@, memory@, ins, random);
            }
        }
        match ins {
            Instruction::Halt
            | Instruction::Return
            | Instruction::Jump { .. }
            | Instruction::Call { .. }
            | Instruction::SkipIfEqual { .. }
            | Instruction::SkipIfNotEqual { .. }
            | Instruction::SkipIfSame { .. }
            | Instruction::SkipIfDifferent { .. }
            | Instruction::JumpOffset { .. }
            | Instruction::SkipIfKey { .. }
            | Instruction::SkipIfNoKey { .. }
            | Instruction::WaitKey { .. } => self.perform_control(ins, memory),
            Instruction::SetRegister { .. }
            | Instruction::AddConstant { .. }
            | Instruction::CopyRegister { .. }
            | Instruction::Or { .. }
            | Instruction::And { .. }
            | Instruction::Xor { .. }
            | Instruction::Add { .. }
            | Instruction::Subtract { .. }
            | Instruction::ShiftRight { .. }
            | Instruction::SubtractFrom { .. }
            | Instruction::ShiftLeft { .. }
            | Instruction::Random { .. } => {
                self.perform_arithmetic(ins, memory, random);
                Ok(())
            },
            _ => self.perform_transfer(ins, memory),
        }
    }

    /// Executes the word `opcode` with `random` as the byte that a `Cxnn`
    /// draws. The program counter is taken to point past the word already.
    /// A fault changes nothing.
    pub fn exec_with(&mut self, opcode: u16, memory: &mut Memory, random: u8) -> (result: Result<
        (),
        Fault,
    >)
        ensures
            final(self)@ == executed_opcode(old(self)@, old(memory)@, opcode, random).cpu,
            final(memory)@ == executed_opcode(old(self)@, old(memory)@, opcode, random).mem,
            result == executed_opcode(old(self)@, old(memory)@, opcode, random).result,
    {
        if self.stop {
            return Ok(());
        }
        match Interpreter::decode(opcode) {
            Some(ins) => {
                proof {
                    lemma_decoded_wf(opcode);
                }
                self.perform(ins, memory, random)
            },
            None => Err(Fault::DecodeError),
        }
    }

    /// Executes the word `opcode`, drawing a random byte where it is a
    /// `Cxnn`. The program counter is taken to point past the word already.
    /// Whatever byte was drawn, the result is that of `exec_with` for it;
    /// every word that is no `Cxnn` is executed as with the byte 0.
    pub fn exec(&mut self, opcode: u16, memory: &mut Memory) -> (result: Result<(), Fault>)
        ensures
            exists|random: u8|
                (mode_of(opcode) == 0xC || random == 0) && #[trigger] executed_opcode(
                    old(self)@,
                    old(memory)@,
                    opcode,
                    random,
                ) == (Outcome { cpu: final(self)@, mem: final(memory)@, result }),
    {
        let random = if Interpreter::mode(opcode) == 0xC {
            random_byte()
        } else {
            0
        };
        let result = self.exec_with(opcode, memory, random);
        assert(executed_opcode(old(self)@, old(memory)@, opcode, random) == (Outcome {
            cpu: self@,
            mem: memory@,
            result,
        }));
        result
    }

    /// Runs one instruction: fetches the word at the program counter,
    /// advances the counter by two and executes the word. A halted
    /// interpreter does nothing. A fault is returned with the interpreter and
    /// the memory as they were before the step.
    pub fn step(&mut self, memory: &mut Memory) -> (result: Result<(), Fault>)
        ensures
            exists|random: u8|
                (wants_random(old(self)@, old(memory)@) || random == 0) && #[trigger] stepped(
                    old(self)@,
                    old(memory)@,
                    random,
                ) == (Outcome { cpu: final(self)@, mem: final(memory)@, result }),
    {
        if self.stop {
            assert(stepped(old(self)@, old(memory)@, 0) == (Outcome {
                cpu: self@,
                mem: memory@,
                result: Ok(()),
            }));
            return Ok(());
        }
        if self.pc >= MAX_SIZE - 1 {
            assert(stepped(old(self)@, old(memory)@, 0) == (Outcome {
                cpu: self@,
                mem: memory@,
                result: Err(Fault::AddressOutOfRange),
            }));
            return Err(Fault::AddressOutOfRange);
        }
        let opcode = self.next(memory);
        let pc = self.pc;
        self.pc = pc + 2;
        let ghost advanced = self@;
        let result = self.exec(opcode, memory);
        let ghost random = choose|random: u8|
            (mode_of(opcode) == 0xC || random == 0) && #[trigger] executed_opcode(
                advanced,
                old(memory)@,
                opcode,
                random,
            ) == (Outcome { cpu: self@, mem: memory@, result });
        if result.is_err() {
            self.pc = pc;
        }
        assert(stepped(old(self)@, old(memory)@, random) == (Outcome {
            cpu: self@,
            mem: memory@,
            result,
        }));
        result
    }
}

/// A byte from `rand::thread_rng()`, drawn with `Rng::gen`. The generator is
/// seeded by the system, so nothing is claimed of the value: what callers
/// promise, they promise for every byte. (The call panics if the system
/// cannot provide the seed when the thread first asks for one.)
#[verifier::external_body]
fn random_byte() -> (byte: u8) {
    rand::thread_rng().gen()
}

} // verus!
