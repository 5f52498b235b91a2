//! The mathematical model of the CPU and the meaning of every instruction.
//!
//! `Machine` is what an `Interpreter` is to its contracts. `executed` says
//! what one instruction does to a machine and a memory, `executed_opcode`
//! adds decoding and the halt state, and `stepped` adds the fetch. A fault
//! leaves both the machine and the memory exactly as they were.
use vstd::prelude::*;
use crate::instruction::{decoded, mode_of, Instruction};
use crate::memory::{overlay, word_at, DISPLAY_LOC, FONT_CHAR_SIZE, FONT_LOC, MAX_SIZE};
use crate::sprite::{sprite_collides, sprite_drawn};

verus! {

/// Number of return addresses the call stack can hold.
pub const STACK_SIZE: usize = 0xff;

/// Number of general registers, `V0` to `VF`.
pub const NUM_REGISTERS: usize = 16;

/// Index of `VF`, the register that doubles as the carry, borrow, shift and
/// collision flag.
pub const FLAG: usize = 15;

/// A fatal condition met while fetching or executing an instruction.
#[derive(Clone, Copy, Debug, PartialEq, Eq)]
pub enum Fault {
    /// The word is no instruction.
    DecodeError,
    /// A return with no call to return from.
    StackUnderflow,
    /// A call with the stack already full.
    StackOverflow,
    /// A fetch, a memory access or a program-counter move that would leave
    /// the address space.
    AddressOutOfRange,
    /// A key instruction whose register holds no key number.
    KeyOutOfRange,
}

/// The CPU-visible state.
#[verifier::ext_equal]
pub struct Machine {
    /// The registers `V0` to `VF`.
    pub v: Seq<u8>,
    /// The index register.
    pub i: u16,
    /// The program counter.
    pub pc: u16,
    /// The return addresses, innermost call last.
    pub stack: Seq<u16>,
    /// The delay timer.
    pub dt: u8,
    /// The sound timer.
    pub st: u8,
    /// For each key, whether it is held.
    pub keys: Seq<bool>,
    /// Whether the halt instruction has been executed.
    pub halted: bool,
}

/// A machine and a memory after an attempt to execute, and how it ended.
#[verifier::ext_equal]
pub struct Outcome {
    pub cpu: Machine,
    pub mem: Seq<u8>,
    pub result: Result<(), Fault>,
}

/// Whether `k` is the lowest-numbered key held in `keys`.
pub open spec fn is_lowest_held(keys: Seq<bool>, k: int) -> bool {
    &&& 0 <= k < keys.len()
    &&& keys[k]
    &&& forall|j: int| 0 <= j < k ==> !keys[j]
}

/// The lowest-numbered key held in `keys`, if any is held.
pub open spec fn lowest_held(keys: Seq<bool>) -> Option<int> {
    if exists|k: int| is_lowest_held(keys, k) {
        Some(choose|k: int| is_lowest_held(keys, k))
    } else {
        None
    }
}

/// The memory with every byte of the framebuffer zeroed.
pub open spec fn cleared(mem: Seq<u8>) -> Seq<u8> {
    Seq::new(
        mem.len(),
        |a: int|
            if DISPLAY_LOC <= a {
                0u8
            } else {
                mem[a]
            },
    )
}

/// The memory with the hundreds, tens and ones digits of `value` stored at
/// `addr`, `addr + 1` and `addr + 2`.
pub open spec fn with_digits(mem: Seq<u8>, addr: int, value: u8) -> Seq<u8> {
    mem.update(addr, value / 100).update(addr + 1, (value / 10) % 10).update(addr + 2, value % 10)
}

impl Machine {
    /// Sixteen registers, sixteen keys, and a stack within its capacity.
    pub open spec fn wf(self) -> bool {
        &&& self.v.len() == NUM_REGISTERS
        &&& self.keys.len() == 16
        &&& self.stack.len() <= STACK_SIZE
    }

    /// The machine as it is at power-on.
    pub open spec fn initial() -> Machine {
        Machine {
            v: Seq::new(NUM_REGISTERS as nat, |k: int| 0u8),
            i: 0,
            pc: 0x0200,
            stack: Seq::empty(),
            dt: 0,
            st: 0,
            keys: Seq::new(16, |k: int| false),
            halted: false,
        }
    }

    /// This machine with register `x` holding `value`.
    pub open spec fn set_reg(self, x: int, value: u8) -> Machine {
        Machine { v: self.v.update(x, value), ..self }
    }

    /// This machine with `VF` holding 1 if `flag`, else 0.
    pub open spec fn set_flag(self, flag: bool) -> Machine {
        self.set_reg(
            FLAG as int,
            if flag {
                1u8
            } else {
                0u8
            },
        )
    }

    /// This machine with the program counter moved past one more instruction
    /// if `cond` holds.
    pub open spec fn skip_if(self, cond: bool) -> Machine {
        if cond {
            Machine { pc: (self.pc + 2) as u16, ..self }
        } else {
            self
        }
    }

    /// The fault, if any, of a skip taken when `cond` holds: the program
    /// counter must stay within 16 bits.
    pub open spec fn skip_fault(self, cond: bool) -> Option<Fault> {
        if cond && self.pc + 2 > 0xFFFF {
            Some(Fault::AddressOutOfRange)
        } else {
            None
        }
    }

    /// This machine with both timers one tick closer to zero.
    pub open spec fn ticked(self) -> Machine {
        Machine {
            dt: if self.dt > 0 {
                (self.dt - 1) as u8
            } else {
                0u8
            },
            st: if self.st > 0 {
                (self.st - 1) as u8
            } else {
                0u8
            },
            ..self
        }
    }
}

/// The fault that executing `ins` meets, or `None` where it completes.
pub open spec fn fault_of(cpu: Machine, mem: Seq<u8>, ins: Instruction) -> Option<Fault> {
    match ins {
        Instruction::Return => if cpu.stack.len() == 0 {
            Some(Fault::StackUnderflow)
        } else {
            None
        },
        Instruction::Call { addr } => if cpu.stack.len() >= STACK_SIZE {
            Some(Fault::StackOverflow)
        } else {
            None
        },
        Instruction::SkipIfEqual { x, nn } => cpu.skip_fault(cpu.v[x as int] == nn),
        Instruction::SkipIfNotEqual { x, nn } => cpu.skip_fault(cpu.v[x as int] != nn),
        Instruction::SkipIfSame { x, y } => cpu.skip_fault(cpu.v[x as int] == cpu.v[y as int]),
        Instruction::SkipIfDifferent { x, y } => cpu.skip_fault(
            cpu.v[x as int] != cpu.v[y as int],
        ),
        Instruction::Draw { x, y, n } => if n > 0 && cpu.i + n > MAX_SIZE {
            Some(Fault::AddressOutOfRange)
        } else {
            None
        },
        Instruction::SkipIfKey { x } => if cpu.v[x as int] >= 16 {
            Some(Fault::KeyOutOfRange)
        } else {
            cpu.skip_fault(cpu.keys[cpu.v[x as int] as int])
        },
        Instruction::SkipIfNoKey { x } => if cpu.v[x as int] >= 16 {
            Some(Fault::KeyOutOfRange)
        } else {
            cpu.skip_fault(!cpu.keys[cpu.v[x as int] as int])
        },
        Instruction::WaitKey { x } => if lowest_held(cpu.keys) is None && cpu.pc < 2 {
            Some(Fault::AddressOutOfRange)
        } else {
            None
        },
        Instruction::Decimal { x } => if cpu.i + 2 >= MAX_SIZE {
            Some(Fault::AddressOutOfRange)
        } else {
            None
        },
        Instruction::Store { x } | Instruction::Load { x } => if cpu.i + x >= MAX_SIZE {
            Some(Fault::AddressOutOfRange)
        } else {
            None
        },
        _ => None,
    }
}

/// The machine after `ins` has completed. `random` is the byte drawn for
/// `Cxnn`; no other instruction looks at it.
pub open spec fn cpu_after(cpu: Machine, mem: Seq<u8>, ins: Instruction, random: u8) -> Machine {
    let v = cpu.v;
    match ins {
        Instruction::Halt => Machine { halted: true, ..cpu },
        Instruction::ClearScreen => cpu,
        Instruction::Return => Machine {
            pc: cpu.stack.last(),
            stack: cpu.stack.drop_last(),
            ..cpu
        },
        Instruction::Jump { addr } => Machine { pc: addr, ..cpu },
        Instruction::Call { addr } => Machine { pc: addr, stack: cpu.stack.push(cpu.pc), ..cpu },
        Instruction::SkipIfEqual { x, nn } => cpu.skip_if(v[x as int] == nn),
        Instruction::SkipIfNotEqual { x, nn } => cpu.skip_if(v[x as int] != nn),
        Instruction::SkipIfSame { x, y } => cpu.skip_if(v[x as int] == v[y as int]),
        Instruction::SetRegister { x, nn } => cpu.set_reg(x as int, nn),
        Instruction::AddConstant { x, nn } => cpu.set_reg(
            x as int,
            ((v[x as int] + nn) % 256) as u8,
        ),
        Instruction::CopyRegister { x, y } => cpu.set_reg(x as int, v[y as int]),
        Instruction::Or { x, y } => cpu.set_reg(x as int, v[x as int] | v[y as int]),
        Instruction::And { x, y } => cpu.set_reg(x as int, v[x as int] & v[y as int]),
        Instruction::Xor { x, y } => cpu.set_reg(x as int, v[x as int] ^ v[y as int]),
        Instruction::Add { x, y } => cpu.set_reg(
            x as int,
            ((v[x as int] + v[y as int]) % 256) as u8,
        ).set_flag(v[x as int] + v[y as int] > 255),
        Instruction::Subtract { x, y } => cpu.set_reg(
            x as int,
            ((v[x as int] - v[y as int]) % 256) as u8,
        ).set_flag(v[x as int] >= v[y as int]),
        Instruction::ShiftRight { x } => cpu.set_reg(x as int, v[x as int] / 2).set_flag(
            v[x as int] % 2 == 1,
        ),
        Instruction::SubtractFrom { x, y } => cpu.set_reg(
            x as int,
            ((v[y as int] - v[x as int]) % 256) as u8,
        ).set_flag(v[y as int] >= v[x as int]),
        Instruction::ShiftLeft { x } => cpu.set_reg(
            x as int,
            ((v[x as int] * 2) % 256) as u8,
        ).set_flag(v[x as int] >= 128),
        Instruction::SkipIfDifferent { x, y } => cpu.skip_if(v[x as int] != v[y as int]),
        Instruction::SetIndex { addr } => Machine { i: addr, ..cpu },
        Instruction::JumpOffset { addr } => Machine { pc: (addr + v[0]) as u16, ..cpu },
        Instruction::Random { x, nn } => cpu.set_reg(x as int, random & nn),
        Instruction::Draw { x, y, n } => cpu.set_flag(
            sprite_collides(mem, cpu.i as int, v[x as int] as int, v[y as int] as int, n as nat),
        ),
        Instruction::SkipIfKey { x } => cpu.skip_if(cpu.keys[v[x as int] as int]),
        Instruction::SkipIfNoKey { x } => cpu.skip_if(!cpu.keys[v[x as int] as int]),
        Instruction::ReadDelay { x } => cpu.set_reg(x as int, cpu.dt),
        Instruction::WaitKey { x } => match lowest_held(cpu.keys) {
            Some(k) => cpu.set_reg(x as int, k as u8),
            None => Machine { pc: (cpu.pc - 2) as u16, ..cpu },
        },
        Instruction::SetDelay { x } => Machine { dt: v[x as int], ..cpu },
        Instruction::SetSound { x } => Machine { st: v[x as int], ..cpu },
        Instruction::AddIndex { x } => Machine {
            i: ((cpu.i + v[x as int]) % 0x10000) as u16,
            ..cpu
        },
        Instruction::FontChar { x } => Machine {
            i: (FONT_LOC + v[x as int] * FONT_CHAR_SIZE) as u16,
            ..cpu
        },
        Instruction::Decimal { x } => cpu,
        Instruction::Store { x } => cpu,
        Instruction::Load { x } => Machine {
            v: Seq::new(
                v.len(),
                |k: int|
                    if k <= x {
                        mem[cpu.i + k]
                    } else {
                        v[k]
                    },
            ),
            ..cpu
        },
    }
}

/// The memory after `ins` has completed.
pub open spec fn mem_after(cpu: Machine, mem: Seq<u8>, ins: Instruction) -> Seq<u8> {
    match ins {
        Instruction::ClearScreen => cleared(mem),
        Instruction::Draw { x, y, n } => sprite_drawn(
            mem,
            cpu.i as int,
            cpu.v[x as int] as int,
            cpu.v[y as int] as int,
            n as nat,
        ),
        Instruction::Decimal { x } => with_digits(mem, cpu.i as int, cpu.v[x as int]),
        Instruction::Store { x } => overlay(mem, cpu.i as int, cpu.v.subrange(0, x + 1)),
        _ => mem,
    }
}

/// What executing `ins` does: nothing but report the fault where there is
/// one, else the instruction's effect.
pub open spec fn executed(cpu: Machine, mem: Seq<u8>, ins: Instruction, random: u8) -> Outcome {
    match fault_of(cpu, mem, ins) {
        Some(fault) => Outcome { cpu, mem, result: Err(fault) },
        None => Outcome {
            cpu: cpu_after(cpu, mem, ins, random),
            mem: mem_after(cpu, mem, ins),
            result: Ok(()),
        },
    }
}

/// The random byte matters to `Cxnn` alone.
pub proof fn lemma_random_only_for_cxnn(cpu: Machine, mem: Seq<u8>, ins: Instruction, random: u8)
    requires
        !(ins is Random),
    ensures
        executed(cpu, mem, ins, random) == executed(cpu, mem, ins, 0),
{
}

/// What executing the word `opcode` does on a machine whose program counter
/// already points past it. A halted machine does nothing; a word that is no
/// instruction is a decode error.
pub open spec fn executed_opcode(cpu: Machine, mem: Seq<u8>, opcode: u16, random: u8) -> Outcome {
    if cpu.halted {
        Outcome { cpu, mem, result: Ok(()) }
    } else {
        match decoded(opcode) {
            Some(ins) => executed(cpu, mem, ins, random),
            None => Outcome { cpu, mem, result: Err(Fault::DecodeError) },
        }
    }
}

/// Whether the two bytes at the program counter lie in memory.
pub open spec fn can_fetch(cpu: Machine) -> bool {
    cpu.pc + 1 < MAX_SIZE
}

/// Whether the next step draws a random byte: the machine runs and the word
/// at the program counter is a `Cxnn`.
pub open spec fn wants_random(cpu: Machine, mem: Seq<u8>) -> bool {
    !cpu.halted && can_fetch(cpu) && mode_of(word_at(mem, cpu.pc as int) as u16) == 0xC
}

/// What one step does: fetch the word at the program counter, advance the
/// counter by two, execute the word. A halted machine does nothing. A fault
/// leaves the machine, program counter included, and the memory as they were.
pub open spec fn stepped(cpu: Machine, mem: Seq<u8>, random: u8) -> Outcome {
    if cpu.halted {
        Outcome { cpu, mem, result: Ok(()) }
    } else if !can_fetch(cpu) {
        Outcome { cpu, mem, result: Err(Fault::AddressOutOfRange) }
    } else {
        let advanced = Machine { pc: (cpu.pc + 2) as u16, ..cpu };
        let out = executed_opcode(advanced, mem, word_at(mem, cpu.pc as int) as u16, random);
        if out.result is Err {
            Outcome { cpu, mem, result: out.result }
        } else {
            out
        }
    }
}

} // verus!
