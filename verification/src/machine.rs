//! The executable machine: fixed-size memory, the register bank, and the
//! fetch-decode-execute engine. Every method is specified against the
//! mathematical model in `semantics`.

use vstd::prelude::*;
use vstd::pervasive::VecAdditionalExecFns;

use crate::decimal::i32_chars;
use crate::semantics::{
    lemma_no_output_unless_running, run_steps, state_after, MachineView, NREGS, Outcome, sext16,
    spec_load, spec_loadimm, spec_move_if, spec_out, spec_out_number, spec_step, spec_store,
    spec_sub, word_at, word_stored, wrap_sub32,
};
use crate::sink::Sink;

pub use crate::semantics::MEMORY_SIZE;

verus! {

/// The errors a machine operation can surface. All are terminal for the
/// current run.
#[derive(Clone, Copy, Debug, PartialEq, Eq, Structural)]
pub enum Error {
    /// A memory access (construction image too large, or a load, store or
    /// fetch) would touch an address outside the memory.
    MemoryOverflow,
    /// A register index above 15 was used as an operand.
    RegisterOverflow,
    /// The output sink rejected a write.
    OutputError,
    /// The opcode byte matches no instruction.
    InstructionError,
}

/// The machine: 4096 bytes of memory and sixteen 32-bit registers, of which
/// register 0 is the instruction pointer.
pub struct Machine {
    memo: Vec<u8>,
    registre: Vec<u32>,
}

impl View for Machine {
    type V = MachineView;

    closed spec fn view(&self) -> MachineView {
        MachineView { mem: self.memo@, regs: self.registre@ }
    }
}

impl Machine {
    /// The machine always has its fixed memory and register bank sizes.
    pub open spec fn wf(&self) -> bool {
        self@.wf()
    }

    /// Create a new machine in its reset state: `memory` is copied to the
    /// beginning of the machine memory, the rest of the memory and every
    /// register are zero. Fails with `MemoryOverflow` when the image is
    /// larger than the memory.
    pub fn new(memory: &[u8]) -> (r: Result<Machine, Error>)
        ensures
            memory@.len() > MEMORY_SIZE <==> r is Err,
            r is Err ==> r->Err_0 == Error::MemoryOverflow,
            r is Ok ==> {
                let m = r->Ok_0;
                &&& m.wf()
                &&& forall|i: int| 0 <= i < memory@.len() ==> m@.mem[i] == memory@[i]
                &&& forall|i: int| memory@.len() <= i < MEMORY_SIZE ==> m@.mem[i] == 0
                &&& forall|i: int| 0 <= i < NREGS ==> m@.regs[i] == 0
            },
    {
        let size: usize = memory.len();
        if size > MEMORY_SIZE {
            return Err(Error::MemoryOverflow);
        }
        let mut mem: Vec<u8> = vec![0u8; MEMORY_SIZE];
        let mut i: usize = 0;
        while i < size
            invariant
                i <= size,
                size == memory@.len() <= MEMORY_SIZE,
                mem@.len() == MEMORY_SIZE,
                forall|j: int| 0 <= j < i ==> mem@[j] == memory@[j],
                forall|j: int| i <= j < MEMORY_SIZE ==> mem@[j] == 0,
            decreases size - i,
        {
            mem.set(i, memory[i]);
            i = i + 1;
        }
        let reg: Vec<u32> = vec![0u32; NREGS];
        Ok(Machine { memo: mem, registre: reg })
    }

    /// The machine's current registers.
    #[must_use]
    pub fn regs(&self) -> (r: &[u32])
        ensures
            r@ == self@.regs,
    {
        self.registre.as_slice()
    }

    /// Set register `reg` to `value`; fails with `RegisterOverflow` when
    /// `reg > 15` and changes nothing then.
    pub fn set_reg(&mut self, reg: usize, value: u32) -> (r: Result<(), Error>)
        requires
            old(self).wf(),
        ensures
            final(self).wf(),
            reg > 15 ==> r == Err::<(), Error>(Error::RegisterOverflow)
                && final(self)@ == old(self)@,
            reg <= 15 ==> r == Ok::<(), Error>(())
                && final(self)@.regs == old(self)@.regs.update(reg as int, value)
                && final(self)@.mem == old(self)@.mem,
    {
        if reg > 15 {
            return Err(Error::RegisterOverflow);
        }
        self.registre.set(reg, value);
        Ok(())
    }

    /// The machine's current memory.
    #[must_use]
    pub fn memory(&self) -> (r: &[u8])
        ensures
            r@ == self@.mem,
    {
        self.memo.as_slice()
    }

    /// Read register `reg`; fails with `RegisterOverflow` when `reg > 15`.
    pub fn get_reg(&self, reg: usize) -> (r: Result<u32, Error>)
        requires
            self.wf(),
        ensures
            reg > 15 ==> r == Err::<u32, Error>(Error::RegisterOverflow),
            reg <= 15 ==> r == Ok::<u32, Error>(self@.regs[reg as int]),
    {
        if reg > 15 {
            return Err(Error::RegisterOverflow);
        }
        Ok(self.registre[reg])
    }

    /// Store `value` little-endian at `addres`; fails with `MemoryOverflow`
    /// when the four bytes would not all lie inside memory, and changes
    /// nothing then.
    fn store_mem(&mut self, addres: usize, value: u32) -> (r: Result<(), Error>)
        requires
            old(self).wf(),
        ensures
            final(self).wf(),
            addres + 3 >= MEMORY_SIZE <==> r is Err,
            r is Err ==> r->Err_0 == Error::MemoryOverflow && final(self)@ == old(self)@,
            r is Ok ==> final(self)@.mem == word_stored(old(self)@.mem, addres as int, value)
                && final(self)@.regs == old(self)@.regs,
    {
        if addres >= MEMORY_SIZE - 3 {
            return Err(Error::MemoryOverflow);
        }
        assert(value & 0xFF < 256 && (value >> 8) & 0xFF < 256 && (value >> 16) & 0xFF < 256
            && (value >> 24) & 0xFF < 256) by (bit_vector);
        self.memo.set(addres, (value & 0xFF) as u8);
        self.memo.set(addres + 1, ((value >> 8) & 0xFF) as u8);
        self.memo.set(addres + 2, ((value >> 16) & 0xFF) as u8);
        self.memo.set(addres + 3, ((value >> 24) & 0xFF) as u8);
        Ok(())
    }

    /// Read the little-endian word at `addres`; fails with `MemoryOverflow`
    /// when the four bytes would not all lie inside memory.
    fn load_mem(&self, addres: usize) -> (r: Result<u32, Error>)
        requires
            self.wf(),
        ensures
            addres + 3 >= MEMORY_SIZE <==> r is Err,
            r is Err ==> r->Err_0 == Error::MemoryOverflow,
            r is Ok ==> r->Ok_0 == word_at(self@.mem, addres as int),
    {
        if addres >= MEMORY_SIZE - 3 {
            return Err(Error::MemoryOverflow);
        }
        let b0 = self.memo[addres] as u32;
        let b1 = self.memo[addres + 1] as u32;
        let b2 = self.memo[addres + 2] as u32;
        let b3 = self.memo[addres + 3] as u32;
        Ok(b0 + b1 * 0x100 + b2 * 0x1_0000 + b3 * 0x100_0000)
    }

    /// The `move_if` instruction: when register `rs2` is non-zero, register
    /// `rd` receives register `rs1`.
    fn move_if(&mut self, rd: u8, rs1: u8, rs2: u8) -> (r: Result<(), Error>)
        requires
            old(self).wf(),
        ensures
            final(self).wf(),
            ({
                let s = spec_move_if(old(self)@, rd, rs1, rs2);
                &&& final(self)@.mem == s.mem
                &&& final(self)@.regs == s.regs
                &&& (s.outcome is Running <==> r is Ok)
                &&& (s.outcome is Failed ==> r == Err::<(), Error>(s.outcome->Failed_0))
            }),
    {
        let test: u32 = match self.get_reg(rs2 as usize) {
            Ok(t) => t,
            Err(e) => {
                return Err(e);
            },
        };
        if test != 0 {
            let value: u32 = match self.get_reg(rs1 as usize) {
                Ok(v) => v,
                Err(e) => {
                    return Err(e);
                },
            };
            return self.set_reg(rd as usize, value);
        }
        Ok(())
    }

    /// The `store` instruction: the word in register `rs2` is stored at the
    /// address in register `rs1`.
    fn store(&mut self, rs1: u8, rs2: u8) -> (r: Result<(), Error>)
        requires
            old(self).wf(),
        ensures
            final(self).wf(),
            ({
                let s = spec_store(old(self)@, rs1, rs2);
                &&& final(self)@.mem == s.mem
                &&& final(self)@.regs == s.regs
                &&& (s.outcome is Running <==> r is Ok)
                &&& (s.outcome is Failed ==> r == Err::<(), Error>(s.outcome->Failed_0))
            }),
    {
        let value: u32 = match self.get_reg(rs2 as usize) {
            Ok(v) => v,
            Err(e) => {
                return Err(e);
            },
        };
        let addres: u32 = match self.get_reg(rs1 as usize) {
            Ok(a) => a,
            Err(e) => {
                return Err(e);
            },
        };
        self.store_mem(addres as usize, value)
    }

    /// The `load` instruction: register `rs1` receives the word at the
    /// address in register `rs2`.
    fn load(&mut self, rs1: u8, rs2: u8) -> (r: Result<(), Error>)
        requires
            old(self).wf(),
        ensures
            final(self).wf(),
            ({
                let s = spec_load(old(self)@, rs1, rs2);
                &&& final(self)@.mem == s.mem
                &&& final(self)@.regs == s.regs
                &&& (s.outcome is Running <==> r is Ok)
                &&& (s.outcome is Failed ==> r == Err::<(), Error>(s.outcome->Failed_0))
            }),
    {
        let addres: u32 = match self.get_reg(rs2 as usize) {
            Ok(a) => a,
            Err(e) => {
                return Err(e);
            },
        };
        let value: u32 = match self.load_mem(addres as usize) {
            Ok(v) => v,
            Err(e) => {
                return Err(e);
            },
        };
        self.set_reg(rs1 as usize, value)
    }

    /// The `loadimm` instruction: register `rd` receives the 16-bit
    /// immediate `lo | hi << 8`, sign-extended to 32 bits.
    fn loadimm(&mut self, rd: u8, lo: u8, hi: u8) -> (r: Result<(), Error>)
        requires
            old(self).wf(),
        ensures
            final(self).wf(),
            ({
                let s = spec_loadimm(old(self)@, rd, lo, hi);
                &&& final(self)@.mem == s.mem
                &&& final(self)@.regs == s.regs
                &&& (s.outcome is Running <==> r is Ok)
                &&& (s.outcome is Failed ==> r == Err::<(), Error>(s.outcome->Failed_0))
            }),
    {
        let somme: u16 = lo as u16 + (hi as u16) * 0x100;
        let value: u32 = if hi >= 0x80 {
            somme as u32 + 0xFFFF_0000
        } else {
            somme as u32
        };
        assert(value == sext16(lo, hi));
        self.set_reg(rd as usize, value)
    }

    /// The `sub` instruction: register `rd` receives register `rs1` minus
    /// register `rs2`, wrapping around over 32 bits.
    fn sub(&mut self, rd: u8, rs1: u8, rs2: u8) -> (r: Result<(), Error>)
        requires
            old(self).wf(),
        ensures
            final(self).wf(),
            ({
                let s = spec_sub(old(self)@, rd, rs1, rs2);
                &&& final(self)@.mem == s.mem
                &&& final(self)@.regs == s.regs
                &&& (s.outcome is Running <==> r is Ok)
                &&& (s.outcome is Failed ==> r == Err::<(), Error>(s.outcome->Failed_0))
            }),
    {
        let a: u32 = match self.get_reg(rs1 as usize) {
            Ok(x) => x,
            Err(e) => {
                return Err(e);
            },
        };
        let b: u32 = match self.get_reg(rs2 as usize) {
            Ok(x) => x,
            Err(e) => {
                return Err(e);
            },
        };
        let value: u32 = a.wrapping_sub(b);
        assert(value == wrap_sub32(a, b));
        self.set_reg(rd as usize, value)
    }

    /// The `out` instruction: the low byte of register `rs1` goes to the
    /// sink as one character; a rejected write is an `OutputError`.
    fn out<S: Sink>(&self, rs1: u8, fd: &mut S) -> (r: Result<(), Error>)
        requires
            self.wf(),
        ensures
            ({
                let s = spec_out(self@, rs1);
                &&& (s.outcome is Failed ==> r == Err::<(), Error>(s.outcome->Failed_0)
                    && final(fd).sunk() == old(fd).sunk())
                &&& (s.outcome is Running ==> (r == Ok::<(), Error>(())
                    && final(fd).sunk() == old(fd).sunk() + s.out)
                    || (r == Err::<(), Error>(Error::OutputError)
                    && final(fd).sunk() == old(fd).sunk()))
            }),
    {
        let data: u32 = match self.get_reg(rs1 as usize) {
            Ok(d) => d,
            Err(e) => {
                return Err(e);
            },
        };
        assert(data & 0xFF < 256) by (bit_vector);
        let value: char = ((data & 0xFF) as u8) as char;
        let ghost pre = fd.sunk();
        if fd.write_char(value) {
            assert(fd.sunk() =~= pre + spec_out(self@, rs1).out);
            Ok(())
        } else {
            Err(Error::OutputError)
        }
    }

    /// The `out_number` instruction: register `rs1`, reinterpreted as a
    /// signed 32-bit integer, goes to the sink as decimal text; a rejected
    /// write is an `OutputError`, leaving whatever was accepted before it.
    fn out_number<S: Sink>(&self, rs1: u8, fd: &mut S) -> (r: Result<(), Error>)
        requires
            self.wf(),
        ensures
            ({
                let s = spec_out_number(self@, rs1);
                &&& (s.outcome is Failed ==> r == Err::<(), Error>(s.outcome->Failed_0)
                    && final(fd).sunk() == old(fd).sunk())
                &&& (s.outcome is Running ==> (r == Ok::<(), Error>(())
                    && final(fd).sunk() == old(fd).sunk() + s.out)
                    || (r == Err::<(), Error>(Error::OutputError)
                    && (exists|i: int| 0 <= i < s.out.len()
                        && final(fd).sunk() == old(fd).sunk() + s.out.take(i))))
            }),
    {
        let data: u32 = match self.get_reg(rs1 as usize) {
            Ok(d) => d,
            Err(e) => {
                return Err(e);
            },
        };
        let chars: Vec<char> = i32_chars(data);
        let ghost pre = fd.sunk();
        let mut k: usize = 0;
        assert(pre + chars@.take(0) =~= pre);
        while k < chars.len()
            invariant
                k <= chars@.len(),
                chars@ == spec_out_number(self@, rs1).out,
                old(fd).sunk() == pre,
                fd.sunk() == pre + chars@.take(k as int),
            decreases chars@.len() - k,
        {
            let ghost mid = fd.sunk();
            let c: char = chars[k];
            if !fd.write_char(c) {
                assert(0 <= k < spec_out_number(self@, rs1).out.len()
                    && fd.sunk() == old(fd).sunk() + spec_out_number(self@, rs1).out.take(k as int));
                return Err(Error::OutputError);
            }
            assert(fd.sunk() =~= pre + chars@.take(k + 1)) by {
                assert(chars@.take(k + 1) =~= chars@.take(k as int).push(c));
                assert(mid.push(c) =~= pre + chars@.take(k as int).push(c));
            }
            k = k + 1;
        }
        assert(chars@.take(chars@.len() as int) =~= chars@);
        Ok(())
    }

    /// Run the program: execute instructions until one of `exit` (result
    /// `Ok(true)`), an error (returned as is), or `max_steps` executed
    /// instructions without either (result `Ok(false)`; a program may loop
    /// forever, so the caller chooses how long to wait). Output goes to
    /// `fd`. The state reached and the output written are those of the
    /// machine model run from the initial state; on an `OutputError` the
    /// sink holds the characters it accepted before rejecting one.
    pub fn run_on<S: Sink>(&mut self, fd: &mut S, max_steps: u64) -> (r: Result<bool, Error>)
        requires
            old(self).wf(),
        ensures
            final(self).wf(),
            r == Ok::<bool, Error>(false) ==> ({
                let fin = run_steps(old(self)@, max_steps as nat);
                &&& fin.outcome is Running
                &&& final(self)@.mem == fin.mem
                &&& final(self)@.regs == fin.regs
                &&& final(fd).sunk() == old(fd).sunk() + fin.out
            }),
            r == Ok::<bool, Error>(true) ==> (exists|n: nat|
                #![trigger run_steps(old(self)@, n)]
                {
                    let fin = run_steps(old(self)@, n);
                    &&& n <= max_steps
                    &&& fin.outcome is Halted
                    &&& final(self)@.mem == fin.mem
                    &&& final(self)@.regs == fin.regs
                    &&& final(fd).sunk() == old(fd).sunk() + fin.out
                }),
            (r is Err && r->Err_0 != Error::OutputError) ==> (exists|n: nat|
                #![trigger run_steps(old(self)@, n)]
                {
                    let fin = run_steps(old(self)@, n);
                    &&& n <= max_steps
                    &&& fin.outcome == Outcome::Failed(r->Err_0)
                    &&& final(self)@.mem == fin.mem
                    &&& final(self)@.regs == fin.regs
                    &&& final(fd).sunk() == old(fd).sunk() + fin.out
                }),
            r == Err::<bool, Error>(Error::OutputError) ==> (exists|n: nat, j: int|
                #![trigger run_steps(old(self)@, n).out.take(j)]
                {
                    let fin = run_steps(old(self)@, n);
                    &&& n <= max_steps
                    &&& fin.outcome is Running
                    &&& 0 <= j < fin.out.len()
                    &&& final(self)@.mem == fin.mem
                    &&& final(self)@.regs == fin.regs
                    &&& final(fd).sunk() == old(fd).sunk() + fin.out.take(j)
                }),
    {
        let ghost v = old(self)@;
        let mut steps: u64 = 0;
        proof {
            assert(old(fd).sunk() + run_steps(v, 0).out =~= old(fd).sunk());
        }
        while steps < max_steps
            invariant
                self.wf(),
                steps <= max_steps,
                v == old(self)@,
                run_steps(v, steps as nat).outcome is Running,
                self@.mem == run_steps(v, steps as nat).mem,
                self@.regs == run_steps(v, steps as nat).regs,
                fd.sunk() == old(fd).sunk() + run_steps(v, steps as nat).out,
            decreases max_steps - steps,
        {
            let ghost pre_view = self@;
            let ghost pre_out = run_steps(v, steps as nat).out;
            let ghost s = spec_step(pre_view);
            proof {
                assert(state_after(v, steps as nat) == pre_view);
                assert(run_steps(v, (steps + 1) as nat).outcome == s.outcome);
                assert(run_steps(v, (steps + 1) as nat).mem == s.mem);
                assert(run_steps(v, (steps + 1) as nat).regs == s.regs);
                assert(run_steps(v, (steps + 1) as nat).out == pre_out + s.out);
            }
            match self.step_on(fd) {
                Ok(false) => {
                    proof {
                        assert(fd.sunk() =~= old(fd).sunk() + (pre_out + s.out)) by {
                            assert((old(fd).sunk() + pre_out) + s.out
                                =~= old(fd).sunk() + (pre_out + s.out));
                        }
                    }
                    steps = steps + 1;
                },
                Ok(true) => {
                    proof {
                        lemma_no_output_unless_running(pre_view);
                        assert(fd.sunk() =~= old(fd).sunk() + run_steps(v, (steps + 1) as nat).out) by {
                            assert(pre_out + s.out =~= pre_out);
                        }
                        assert((steps + 1) as nat <= max_steps);
                    }
                    return Ok(true);
                },
                Err(e) => {
                    proof {
                        if s.outcome is Failed {
                            lemma_no_output_unless_running(pre_view);
                            assert(fd.sunk() =~= old(fd).sunk() + run_steps(v, (steps + 1) as nat).out) by {
                                assert(pre_out + s.out =~= pre_out);
                            }
                        } else {
                            // A rejected sink write: the machine took the
                            // step, the sink holds a proper prefix of its
                            // output.
                            let i = choose|i: int| 0 <= i < s.out.len()
                                && fd.sunk() == old(fd).sunk() + pre_out + s.out.take(i);
                            let j = pre_out.len() + i;
                            assert(run_steps(v, (steps + 1) as nat).out.take(j)
                                =~= pre_out + s.out.take(i));
                            assert(fd.sunk() == old(fd).sunk() + run_steps(v, (steps + 1) as nat).out.take(j)) by {
                                assert((old(fd).sunk() + pre_out) + s.out.take(i)
                                    =~= old(fd).sunk() + (pre_out + s.out.take(i)));
                            }
                        }
                    }
                    return Err(e);
                },
            }
        }
        Ok(false)
    }

    /// Execute the next instruction: decode the opcode at the instruction
    /// pointer (register 0), check that the whole instruction lies in
    /// memory, advance the pointer by the instruction length, then apply the
    /// instruction's effect, writing any output to `fd`. Returns `Ok(true)`
    /// when the instruction was `exit`, `Ok(false)` when execution
    /// continues, and otherwise the error. The result and the new state are
    /// exactly those of one step of the machine model; a rejected sink write
    /// surfaces as `OutputError` and leaves the characters accepted before
    /// it.
    #[verifier::rlimit(60)]
    pub fn step_on<S: Sink>(&mut self, fd: &mut S) -> (r: Result<bool, Error>)
        requires
            old(self).wf(),
        ensures
            final(self).wf(),
            ({
                let s = spec_step(old(self)@);
                &&& final(self)@.mem == s.mem
                &&& final(self)@.regs == s.regs
                &&& (s.outcome is Halted ==> r == Ok::<bool, Error>(true)
                    && final(fd).sunk() == old(fd).sunk())
                &&& (s.outcome is Failed ==> r == Err::<bool, Error>(s.outcome->Failed_0)
                    && final(fd).sunk() == old(fd).sunk())
                &&& (s.outcome is Running ==> (r == Ok::<bool, Error>(false)
                    && final(fd).sunk() == old(fd).sunk() + s.out)
                    || (r == Err::<bool, Error>(Error::OutputError)
                    && (exists|i: int| 0 <= i < s.out.len()
                        && final(fd).sunk() == old(fd).sunk() + s.out.take(i))))
            }),
    {
        let ghost s = spec_step(old(self)@);
        let r0: usize = self.registre[0] as usize;
        if r0 >= MEMORY_SIZE {
            self.registre.set(0, MEMORY_SIZE as u32);
            return Err(Error::MemoryOverflow);
        }
        let opcode: u8 = self.memo[r0];
        match opcode {
            1 => {
                self.registre.set(0, (r0 + 4) as u32);
                if let Err(e) = self.is_last(r0 + 3) {
                    proof {
                        assert(self@.regs =~= old(self)@.regs.update(0, MEMORY_SIZE as u32));
                    }
                    return Err(e);
                }
                let rd: u8 = self.memo[r0 + 1];
                let rs1: u8 = self.memo[r0 + 2];
                let rs2: u8 = self.memo[r0 + 3];
                match self.move_if(rd, rs1, rs2) {
                    Ok(()) => {
                        proof {
                            assert(old(fd).sunk() + s.out =~= old(fd).sunk());
                        }
                        Ok(false)
                    },
                    Err(e) => Err(e),
                }
            },
            2 => {
                self.registre.set(0, (r0 + 3) as u32);
                if let Err(e) = self.is_last(r0 + 2) {
                    proof {
                        assert(self@.regs =~= old(self)@.regs.update(0, MEMORY_SIZE as u32));
                    }
                    return Err(e);
                }
                let rs1: u8 = self.memo[r0 + 1];
                let rs2: u8 = self.memo[r0 + 2];
                match self.store(rs1, rs2) {
                    Ok(()) => {
                        proof {
                            assert(old(fd).sunk() + s.out =~= old(fd).sunk());
                        }
                        Ok(false)
                    },
                    Err(e) => Err(e),
                }
            },
            3 => {
                self.registre.set(0, (r0 + 3) as u32);
                if let Err(e) = self.is_last(r0 + 2) {
                    proof {
                        assert(self@.regs =~= old(self)@.regs.update(0, MEMORY_SIZE as u32));
                    }
                    return Err(e);
                }
                let rs1: u8 = self.memo[r0 + 1];
                let rs2: u8 = self.memo[r0 + 2];
                match self.load(rs1, rs2) {
                    Ok(()) => {
                        proof {
                            assert(old(fd).sunk() + s.out =~= old(fd).sunk());
                        }
                        Ok(false)
                    },
                    Err(e) => Err(e),
                }
            },
            4 => {
                self.registre.set(0, (r0 + 4) as u32);
                if let Err(e) = self.is_last(r0 + 3) {
                    proof {
                        assert(self@.regs =~= old(self)@.regs.update(0, MEMORY_SIZE as u32));
                    }
                    return Err(e);
                }
                let rd: u8 = self.memo[r0 + 1];
                let lo: u8 = self.memo[r0 + 2];
                let hi: u8 = self.memo[r0 + 3];
                match self.loadimm(rd, lo, hi) {
                    Ok(()) => {
                        proof {
                            assert(old(fd).sunk() + s.out =~= old(fd).sunk());
                        }
                        Ok(false)
                    },
                    Err(e) => Err(e),
                }
            },
            5 => {
                self.registre.set(0, (r0 + 4) as u32);
                if let Err(e) = self.is_last(r0 + 3) {
                    proof {
                        assert(self@.regs =~= old(self)@.regs.update(0, MEMORY_SIZE as u32));
                    }
                    return Err(e);
                }
                let rd: u8 = self.memo[r0 + 1];
                let rs1: u8 = self.memo[r0 + 2];
                let rs2: u8 = self.memo[r0 + 3];
                match self.sub(rd, rs1, rs2) {
                    Ok(()) => {
                        proof {
                            assert(old(fd).sunk() + s.out =~= old(fd).sunk());
                        }
                        Ok(false)
                    },
                    Err(e) => Err(e),
                }
            },
            6 => {
                self.registre.set(0, (r0 + 2) as u32);
                if let Err(e) = self.is_last(r0 + 1) {
                    proof {
                        assert(self@.regs =~= old(self)@.regs.update(0, MEMORY_SIZE as u32));
                    }
                    return Err(e);
                }
                let rs1: u8 = self.memo[r0 + 1];
                match self.out(rs1, fd) {
                    Ok(()) => Ok(false),
                    Err(e) => {
                        proof {
                            if s.outcome is Running {
                                assert(fd.sunk() == old(fd).sunk() + s.out.take(0)) by {
                                    assert(old(fd).sunk() + s.out.take(0) =~= old(fd).sunk());
                                }
                            }
                        }
                        Err(e)
                    },
                }
            },
            7 => {
                self.registre.set(0, (r0 + 1) as u32);
                Ok(true)
            },
            8 => {
                self.registre.set(0, (r0 + 2) as u32);
                if let Err(e) = self.is_last(r0 + 1) {
                    proof {
                        assert(self@.regs =~= old(self)@.regs.update(0, MEMORY_SIZE as u32));
                    }
                    return Err(e);
                }
                let rs1: u8 = self.memo[r0 + 1];
                match self.out_number(rs1, fd) {
                    Ok(()) => Ok(false),
                    Err(e) => Err(e),
                }
            },
            _ => {
                self.registre.set(0, (r0 + 1) as u32);
                Err(Error::InstructionError)
            },
        }
    }

    /// Register round trip: `set_reg` on an index in range changes the
    /// register bank exactly as stated, and reading the same index back with
    /// `get_reg` yields the value written, whatever was there before.
    pub proof fn lemma_register_round_trip(regs: Seq<u32>, reg: usize, value: u32)
        requires
            regs.len() == NREGS,
            reg <= 15,
        ensures
            regs.update(reg as int, value)[reg as int] == value,
            forall|i: int| 0 <= i < NREGS && i != reg ==>
                regs.update(reg as int, value)[i] == regs[i],
    {
    }

    /// Pin the instruction pointer to `MEMORY_SIZE` and fail with
    /// `MemoryOverflow` when `r0` lies outside memory: the last byte of the
    /// instruction about to execute must be a valid address.
    fn is_last(&mut self, r0: usize) -> (r: Result<(), Error>)
        requires
            old(self).wf(),
        ensures
            final(self).wf(),
            r0 >= MEMORY_SIZE ==> r == Err::<(), Error>(Error::MemoryOverflow)
                && final(self)@.regs == old(self)@.regs.update(0, MEMORY_SIZE as u32)
                && final(self)@.mem == old(self)@.mem,
            r0 < MEMORY_SIZE ==> r == Ok::<(), Error>(()) && final(self)@ == old(self)@,
    {
        if r0 >= MEMORY_SIZE {
            self.registre.set(0, MEMORY_SIZE as u32);
            return Err(Error::MemoryOverflow);
        }
        Ok(())
    }
}

} // verus!
