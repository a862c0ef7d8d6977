//! Mathematical model of the machine: the meaning of one execution step as a
//! function from a memory and register state to the next state, the output it
//! emits, and its outcome. The executable engine in `machine` is proved to
//! follow this model exactly.

use vstd::prelude::*;

use crate::decimal::i32_dec_chars;
use crate::machine::Error;

verus! {

/// Number of bytes in the machine memory.
pub const MEMORY_SIZE: usize = 4096;

/// Number of registers; register 0 is the instruction pointer.
pub const NREGS: usize = 16;

/// A machine state as mathematics: the memory bytes and the register values.
#[verifier::ext_equal]
pub struct MachineView {
    pub mem: Seq<u8>,
    pub regs: Seq<u32>,
}

impl MachineView {
    /// A state is well formed when memory and register bank have their
    /// fixed sizes.
    pub open spec fn wf(self) -> bool {
        self.mem.len() == MEMORY_SIZE && self.regs.len() == NREGS
    }
}

/// How a step ends: the program halted (an `exit` instruction), execution
/// continues, or the machine faulted with an error.
pub enum Outcome {
    Halted,
    Running,
    Failed(Error),
}

/// The meaning of one step: the state after it, the characters it writes to
/// the output sink (assuming every write is accepted), and its outcome.
#[verifier::ext_equal]
pub struct StepSpec {
    pub mem: Seq<u8>,
    pub regs: Seq<u32>,
    pub out: Seq<char>,
    pub outcome: Outcome,
}

/// The 16-bit immediate `lo | hi << 8`, sign-extended to 32 bits.
pub open spec fn sext16(lo: u8, hi: u8) -> u32 {
    if hi >= 0x80 {
        (lo + hi * 0x100 + 0xFFFF_0000) as u32
    } else {
        (lo + hi * 0x100) as u32
    }
}

/// `a - b` with wrap-around over 32 bits.
pub open spec fn wrap_sub32(a: u32, b: u32) -> u32 {
    if a >= b {
        (a - b) as u32
    } else {
        (a - b + 0x1_0000_0000) as u32
    }
}

/// The little-endian 32-bit word at address `a` of `mem`.
pub open spec fn word_at(mem: Seq<u8>, a: int) -> u32 {
    (mem[a] + mem[a + 1] * 0x100 + mem[a + 2] * 0x1_0000 + mem[a + 3] * 0x100_0000) as u32
}

/// `mem` with the word `v` stored little-endian at address `a`.
pub open spec fn word_stored(mem: Seq<u8>, a: int, v: u32) -> Seq<u8> {
    mem.update(a, (v & 0xFF) as u8)
        .update(a + 1, ((v >> 8) & 0xFF) as u8)
        .update(a + 2, ((v >> 16) & 0xFF) as u8)
        .update(a + 3, ((v >> 24) & 0xFF) as u8)
}

/// The low byte of a register value, as the character written by `out`.
pub open spec fn low_char(v: u32) -> char {
    ((v & 0xFF) as u8) as char
}

/// The byte length of the instruction starting with opcode byte `op`;
/// `exit` and unknown opcodes occupy the opcode byte alone.
pub open spec fn instr_len(op: u8) -> int {
    if op == 1 || op == 4 || op == 5 {
        4
    } else if op == 2 || op == 3 {
        3
    } else if op == 6 || op == 8 {
        2
    } else {
        1
    }
}

/// Whether `op` selects an instruction.
pub open spec fn known_op(op: u8) -> bool {
    1 <= op <= 8
}

/// `move_if rd, rs1, rs2` on the already-advanced state `v`: when register
/// `rs2` is non-zero, register `rd` receives register `rs1`; otherwise
/// nothing happens. Register indices are validated in the order the engine
/// reads them: `rs2`, then `rs1`, then `rd`.
pub open spec fn spec_move_if(v: MachineView, rd: u8, rs1: u8, rs2: u8) -> StepSpec {
    if rs2 > 15 {
        StepSpec { mem: v.mem, regs: v.regs, out: Seq::empty(), outcome: Outcome::Failed(Error::RegisterOverflow) }
    } else if v.regs[rs2 as int] != 0 {
        if rs1 > 15 {
            StepSpec { mem: v.mem, regs: v.regs, out: Seq::empty(), outcome: Outcome::Failed(Error::RegisterOverflow) }
        } else if rd > 15 {
            StepSpec { mem: v.mem, regs: v.regs, out: Seq::empty(), outcome: Outcome::Failed(Error::RegisterOverflow) }
        } else {
            StepSpec {
                mem: v.mem,
                regs: v.regs.update(rd as int, v.regs[rs1 as int]),
                out: Seq::empty(),
                outcome: Outcome::Running,
            }
        }
    } else {
        StepSpec { mem: v.mem, regs: v.regs, out: Seq::empty(), outcome: Outcome::Running }
    }
}

/// `store rs1, rs2`: the word in register `rs2` is stored little-endian at
/// the address in register `rs1`. The engine reads `rs2` first, then `rs1`,
/// then checks the address.
pub open spec fn spec_store(v: MachineView, rs1: u8, rs2: u8) -> StepSpec {
    if rs2 > 15 {
        StepSpec { mem: v.mem, regs: v.regs, out: Seq::empty(), outcome: Outcome::Failed(Error::RegisterOverflow) }
    } else if rs1 > 15 {
        StepSpec { mem: v.mem, regs: v.regs, out: Seq::empty(), outcome: Outcome::Failed(Error::RegisterOverflow) }
    } else if v.regs[rs1 as int] + 3 >= MEMORY_SIZE {
        StepSpec { mem: v.mem, regs: v.regs, out: Seq::empty(), outcome: Outcome::Failed(Error::MemoryOverflow) }
    } else {
        StepSpec {
            mem: word_stored(v.mem, v.regs[rs1 as int] as int, v.regs[rs2 as int]),
            regs: v.regs,
            out: Seq::empty(),
            outcome: Outcome::Running,
        }
    }
}

/// `load rs1, rs2`: register `rs1` receives the word read little-endian at
/// the address in register `rs2`. The engine reads `rs2` first, then checks
/// the address, then writes `rs1`.
pub open spec fn spec_load(v: MachineView, rs1: u8, rs2: u8) -> StepSpec {
    if rs2 > 15 {
        StepSpec { mem: v.mem, regs: v.regs, out: Seq::empty(), outcome: Outcome::Failed(Error::RegisterOverflow) }
    } else if v.regs[rs2 as int] + 3 >= MEMORY_SIZE {
        StepSpec { mem: v.mem, regs: v.regs, out: Seq::empty(), outcome: Outcome::Failed(Error::MemoryOverflow) }
    } else if rs1 > 15 {
        StepSpec { mem: v.mem, regs: v.regs, out: Seq::empty(), outcome: Outcome::Failed(Error::RegisterOverflow) }
    } else {
        StepSpec {
            mem: v.mem,
            regs: v.regs.update(rs1 as int, word_at(v.mem, v.regs[rs2 as int] as int)),
            out: Seq::empty(),
            outcome: Outcome::Running,
        }
    }
}

/// `loadimm rd, lo, hi`: register `rd` receives the sign-extended 16-bit
/// immediate.
pub open spec fn spec_loadimm(v: MachineView, rd: u8, lo: u8, hi: u8) -> StepSpec {
    if rd > 15 {
        StepSpec { mem: v.mem, regs: v.regs, out: Seq::empty(), outcome: Outcome::Failed(Error::RegisterOverflow) }
    } else {
        StepSpec {
            mem: v.mem,
            regs: v.regs.update(rd as int, sext16(lo, hi)),
            out: Seq::empty(),
            outcome: Outcome::Running,
        }
    }
}

/// `sub rd, rs1, rs2`: register `rd` receives register `rs1` minus register
/// `rs2`, wrapping around over 32 bits. Indices are validated in the order
/// `rs1`, `rs2`, `rd`.
pub open spec fn spec_sub(v: MachineView, rd: u8, rs1: u8, rs2: u8) -> StepSpec {
    if rs1 > 15 {
        StepSpec { mem: v.mem, regs: v.regs, out: Seq::empty(), outcome: Outcome::Failed(Error::RegisterOverflow) }
    } else if rs2 > 15 {
        StepSpec { mem: v.mem, regs: v.regs, out: Seq::empty(), outcome: Outcome::Failed(Error::RegisterOverflow) }
    } else if rd > 15 {
        StepSpec { mem: v.mem, regs: v.regs, out: Seq::empty(), outcome: Outcome::Failed(Error::RegisterOverflow) }
    } else {
        StepSpec {
            mem: v.mem,
            regs: v.regs.update(rd as int, wrap_sub32(v.regs[rs1 as int], v.regs[rs2 as int])),
            out: Seq::empty(),
            outcome: Outcome::Running,
        }
    }
}

/// `out rs1`: the low byte of register `rs1` is written to the sink as one
/// character.
pub open spec fn spec_out(v: MachineView, rs1: u8) -> StepSpec {
    if rs1 > 15 {
        StepSpec { mem: v.mem, regs: v.regs, out: Seq::empty(), outcome: Outcome::Failed(Error::RegisterOverflow) }
    } else {
        StepSpec {
            mem: v.mem,
            regs: v.regs,
            out: seq![low_char(v.regs[rs1 as int])],
            outcome: Outcome::Running,
        }
    }
}

/// `out_number rs1`: register `rs1`, reinterpreted as a signed 32-bit
/// integer, is written to the sink as decimal text.
pub open spec fn spec_out_number(v: MachineView, rs1: u8) -> StepSpec {
    if rs1 > 15 {
        StepSpec { mem: v.mem, regs: v.regs, out: Seq::empty(), outcome: Outcome::Failed(Error::RegisterOverflow) }
    } else {
        StepSpec {
            mem: v.mem,
            regs: v.regs,
            out: i32_dec_chars(v.regs[rs1 as int]),
            outcome: Outcome::Running,
        }
    }
}

/// One fetch-decode-execute step from state `v`: fetch the opcode at the
/// instruction pointer (register 0), check that the whole instruction lies
/// in memory, advance the pointer by the instruction length, then apply the
/// instruction's effect. A fetch outside memory pins the pointer to
/// `MEMORY_SIZE`, so a faulted machine reproduces the same fault forever; an
/// unknown opcode fails after the pointer has passed the opcode byte alone.
pub open spec fn spec_step(v: MachineView) -> StepSpec {
    let ip = v.regs[0] as int;
    if ip >= MEMORY_SIZE {
        StepSpec {
            mem: v.mem,
            regs: v.regs.update(0, MEMORY_SIZE as u32),
            out: Seq::empty(),
            outcome: Outcome::Failed(Error::MemoryOverflow),
        }
    } else {
        let op = v.mem[ip];
        if !known_op(op) {
            StepSpec {
                mem: v.mem,
                regs: v.regs.update(0, (ip + 1) as u32),
                out: Seq::empty(),
                outcome: Outcome::Failed(Error::InstructionError),
            }
        } else if ip + instr_len(op) - 1 >= MEMORY_SIZE {
            StepSpec {
                mem: v.mem,
                regs: v.regs.update(0, MEMORY_SIZE as u32),
                out: Seq::empty(),
                outcome: Outcome::Failed(Error::MemoryOverflow),
            }
        } else {
            let w = MachineView { mem: v.mem, regs: v.regs.update(0, (ip + instr_len(op)) as u32) };
            if op == 1 {
                spec_move_if(w, v.mem[ip + 1], v.mem[ip + 2], v.mem[ip + 3])
            } else if op == 2 {
                spec_store(w, v.mem[ip + 1], v.mem[ip + 2])
            } else if op == 3 {
                spec_load(w, v.mem[ip + 1], v.mem[ip + 2])
            } else if op == 4 {
                spec_loadimm(w, v.mem[ip + 1], v.mem[ip + 2], v.mem[ip + 3])
            } else if op == 5 {
                spec_sub(w, v.mem[ip + 1], v.mem[ip + 2], v.mem[ip + 3])
            } else if op == 6 {
                spec_out(w, v.mem[ip + 1])
            } else if op == 7 {
                StepSpec { mem: w.mem, regs: w.regs, out: Seq::empty(), outcome: Outcome::Halted }
            } else {
                spec_out_number(w, v.mem[ip + 1])
            }
        }
    }
}

/// Up to `n` steps from state `v`, stopping at the first halt or fault: the
/// resulting state, the concatenation of everything written on the way, and
/// the outcome of the last step taken (`Running` when all `n` steps ran and
/// none halted or faulted).
pub open spec fn run_steps(v: MachineView, n: nat) -> StepSpec
    decreases n,
{
    if n == 0 {
        StepSpec { mem: v.mem, regs: v.regs, out: Seq::empty(), outcome: Outcome::Running }
    } else {
        let prev = run_steps(v, (n - 1) as nat);
        if !(prev.outcome is Running) {
            prev
        } else {
            let s = spec_step(MachineView { mem: prev.mem, regs: prev.regs });
            StepSpec { mem: s.mem, regs: s.regs, out: prev.out + s.out, outcome: s.outcome }
        }
    }
}

/// The machine state reached after `n` steps from `v`.
pub open spec fn state_after(v: MachineView, n: nat) -> MachineView {
    MachineView { mem: run_steps(v, n).mem, regs: run_steps(v, n).regs }
}

/// Only a step that keeps running can write output: a halting or faulting
/// step writes nothing.
pub proof fn lemma_no_output_unless_running(v: MachineView)
    ensures
        !(spec_step(v).outcome is Running) ==> spec_step(v).out == Seq::<char>::empty(),
{
}

/// Fault latching: a machine whose instruction pointer lies outside memory
/// faults with `MemoryOverflow`, pins the pointer to `MEMORY_SIZE`, writes
/// nothing, and every further step reproduces exactly the same fault on the
/// unchanged state.
pub proof fn lemma_fault_latch(v: MachineView)
    requires
        v.wf(),
        v.regs[0] >= MEMORY_SIZE,
    ensures
        spec_step(v).outcome == Outcome::Failed(Error::MemoryOverflow),
        spec_step(v).mem == v.mem,
        spec_step(v).regs == v.regs.update(0, MEMORY_SIZE as u32),
        spec_step(v).out == Seq::<char>::empty(),
        ({
            let w = MachineView { mem: spec_step(v).mem, regs: spec_step(v).regs };
            &&& spec_step(w).outcome == Outcome::Failed(Error::MemoryOverflow)
            &&& spec_step(w).mem == w.mem
            &&& spec_step(w).regs == w.regs
            &&& spec_step(w).out == Seq::<char>::empty()
        }),
{
    let w = MachineView { mem: spec_step(v).mem, regs: spec_step(v).regs };
    assert(w.regs[0] == MEMORY_SIZE as u32);
    assert(spec_step(w).regs =~= w.regs);
}

} // verus!
