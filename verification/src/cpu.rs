//! The machine state engine: register file, status flags, program memory,
//! data memory and program counter, with a fetch-decode-execute step.
//!
//! The engine owns all of its state exclusively and runs synchronously:
//! `load_program` and `tick` run to completion, and the caller drives the
//! machine step by step. Every failure is a typed result handed back to the
//! caller, never a process abort: register arithmetic wraps modulo 256, every
//! register index is checked against the register file size, and a fetch past
//! the end of program memory is refused.

use crate::instructions::{spec_parse_16, word_from_bytes, Instruction};
use vstd::prelude::*;

verus! {

/// Bytes of program memory ("flash") in every machine.
pub const FLASH_SIZE: usize = 32768;

/// The lowest register index that windowed addressing can reach: `Ldi` maps
/// its operand into the upper register window at this base.
pub const UPPER_WINDOW_BASE: usize = 16;

/// A typed failure returned from `load_program`, `tick` or
/// `execute_instruction`. Each kind is a deterministic function of the
/// machine state and the inputs.
#[derive(Clone, Copy, Debug, PartialEq, Eq)]
pub enum CpuError {
    /// The fetched 16-bit word matches no known opcode family.
    DecodeFailure,
    /// The program counter plus the instruction window would pass the end of
    /// program memory.
    FetchOutOfBounds,
    /// A decoded or computed register index falls outside the register file.
    RegisterOutOfRange,
    /// The program handed to `load_program` does not fit in program memory.
    ProgramTooLarge,
}

/// The condition flags of the status register. No instruction in the current
/// opcode set writes them; they are machine state that every operation
/// preserves.
#[derive(Clone, Copy, Debug, PartialEq, Eq)]
pub struct StatusRegister {
    pub carry: bool,
    pub zero: bool,
    pub negative: bool,
    pub overflow: bool,
    pub sign: bool,
    pub half_carry: bool,
    pub twos_complement: bool,
}

/// True when every flag is down, as on a freshly constructed machine.
pub open spec fn flags_clear(status: StatusRegister) -> bool {
    &&& !status.carry
    &&& !status.zero
    &&& !status.negative
    &&& !status.overflow
    &&& !status.sign
    &&& !status.half_carry
    &&& !status.twos_complement
}

/// True when every byte of the sequence is zero.
pub open spec fn all_zero(bytes: Seq<u8>) -> bool {
    forall|i: int| 0 <= i < bytes.len() ==> bytes[i] == 0
}

/// Increment wrapping modulo 256.
pub open spec fn inc_wrap(v: u8) -> u8 {
    ((v + 1) % 256) as u8
}

/// Decrement wrapping modulo 256: 0 wraps to 255.
pub open spec fn dec_wrap(v: u8) -> u8 {
    ((v + 255) % 256) as u8
}

/// Addition wrapping modulo 256.
pub open spec fn add_wrap(a: u8, b: u8) -> u8 {
    ((a + b) % 256) as u8
}

/// What executing one instruction does to the register file: the new
/// contents, or `None` when an explicit or window-mapped register index falls
/// outside the file. Nothing but the register file moves.
pub open spec fn spec_execute(regs: Seq<u8>, instruction: Instruction) -> Option<Seq<u8>> {
    match instruction {
        Instruction::Inc(r) => if r < regs.len() {
            Some(regs.update(r as int, inc_wrap(regs[r as int])))
        } else {
            None
        },
        Instruction::Dec(r) => if r < regs.len() {
            Some(regs.update(r as int, dec_wrap(regs[r as int])))
        } else {
            None
        },
        Instruction::Add(rd, rr) => if rd < regs.len() && rr < regs.len() {
            Some(regs.update(rd as int, add_wrap(regs[rd as int], regs[rr as int])))
        } else {
            None
        },
        Instruction::Ldi(rd, k) => if rd + UPPER_WINDOW_BASE < regs.len() {
            Some(regs.update(rd + UPPER_WINDOW_BASE, k))
        } else {
            None
        },
        Instruction::Nop => Some(regs),
    }
}

/// The image that loading a program leaves in program memory: the program's
/// bytes from offset 0, and zero in every byte past them.
pub open spec fn spec_loaded(program: Seq<u8>) -> Seq<u8>
    recommends
        program.len() <= FLASH_SIZE,
{
    program + Seq::new((FLASH_SIZE - program.len()) as nat, |i: int| 0u8)
}

/// An AVR-style microcontroller core. The register file and the data memory
/// are sized at construction through the const parameters; program memory
/// holds `FLASH_SIZE` bytes. All state is plain data, open for inspection.
#[derive(Debug)]
pub struct Cpu<const REGISTERS: usize, const SRAM: usize> {
    /// The general-purpose register file; index 0 is the first register.
    pub registers: [u8; REGISTERS],
    /// The condition flags.
    pub status_register: StatusRegister,
    /// Data memory, reserved for future load/store instructions.
    pub eeprom: [u8; SRAM],
    /// Program memory, written wholesale by `load_program`, read by fetch.
    pub flash: [u8; FLASH_SIZE],
    /// Offset into program memory of the next instruction to fetch.
    pub program_counter: u16,
}

impl<const REGISTERS: usize, const SRAM: usize> Cpu<REGISTERS, SRAM> {
    /// A fresh machine: all registers, program memory and data memory zero,
    /// the program counter at 0, every flag down.
    pub fn new() -> (cpu: Self)
        ensures
            all_zero(cpu.registers@),
            all_zero(cpu.eeprom@),
            all_zero(cpu.flash@),
            cpu.program_counter == 0,
            flags_clear(cpu.status_register),
    {
        Self {
            registers: [0u8; REGISTERS],
            status_register: StatusRegister {
                carry: false,
                zero: false,
                negative: false,
                overflow: false,
                sign: false,
                half_carry: false,
                twos_complement: false,
            },
            eeprom: [0u8; SRAM],
            flash: [0u8; FLASH_SIZE],
            program_counter: 0,
        }
    }

    /// Execute one decoded instruction against the register file, exactly as
    /// `spec_execute` says: arithmetic wraps modulo 256, and an out-of-range
    /// register index (explicit, or `Ldi`'s window-mapped target) is a
    /// reported error that leaves the machine untouched. Nothing but the
    /// register file ever moves.
    pub fn execute_instruction(&mut self, instruction: Instruction) -> (result: Result<
        (),
        CpuError,
    >)
        ensures
            match spec_execute(old(self).registers@, instruction) {
                Some(regs) => result == Ok::<(), CpuError>(()) && final(self).registers@ == regs,
                None => result == Err::<(), CpuError>(CpuError::RegisterOutOfRange)
                    && final(self).registers@ == old(self).registers@,
            },
            final(self).status_register == old(self).status_register,
            final(self).eeprom@ == old(self).eeprom@,
            final(self).flash@ == old(self).flash@,
            final(self).program_counter == old(self).program_counter,
    {
        match instruction {
            Instruction::Inc(reg) => {
                let idx = reg as usize;
                if idx >= REGISTERS {
                    return Err(CpuError::RegisterOutOfRange);
                }
                let v = self.registers[idx];
                let next: u8 = if v == 255 {
                    0
                } else {
                    v + 1
                };
                self.registers[idx] = next;
                Ok(())
            },
            Instruction::Dec(reg) => {
                let idx = reg as usize;
                if idx >= REGISTERS {
                    return Err(CpuError::RegisterOutOfRange);
                }
                let v = self.registers[idx];
                let next: u8 = if v == 0 {
                    255
                } else {
                    v - 1
                };
                self.registers[idx] = next;
                Ok(())
            },
            Instruction::Add(rd, rr) => {
                let d = rd as usize;
                let s = rr as usize;
                if d >= REGISTERS || s >= REGISTERS {
                    return Err(CpuError::RegisterOutOfRange);
                }
                let a = self.registers[d];
                let b = self.registers[s];
                let sum: u16 = (a as u16) + (b as u16);
                self.registers[d] = (sum % 256) as u8;
                Ok(())
            },
            Instruction::Ldi(rd, k) => {
                // Ldi addresses the upper register window: operand 0 names
                // register 16, and the computed target must lie in the file.
                let target = (rd as usize) + UPPER_WINDOW_BASE;
                if target >= REGISTERS {
                    return Err(CpuError::RegisterOutOfRange);
                }
                self.registers[target] = k;
                Ok(())
            },
            Instruction::Nop => Ok(()),
        }
    }

    /// Zero the whole of program memory; nothing else moves.
    fn clear_flash(&mut self)
        ensures
            all_zero(final(self).flash@),
            final(self).registers@ == old(self).registers@,
            final(self).status_register == old(self).status_register,
            final(self).eeprom@ == old(self).eeprom@,
            final(self).program_counter == old(self).program_counter,
    {
        let mut i: usize = 0;
        while i < FLASH_SIZE
            invariant
                i <= FLASH_SIZE,
                forall|j: int| 0 <= j < i ==> self.flash@[j] == 0,
                self.registers@ == old(self).registers@,
                self.status_register == old(self).status_register,
                self.eeprom@ == old(self).eeprom@,
                self.program_counter == old(self).program_counter,
            decreases FLASH_SIZE - i,
        {
            self.flash[i] = 0;
            i = i + 1;
        }
    }

    /// Replace the whole contents of program memory: clear it to zero, then
    /// copy the program in from offset 0. A program longer than program
    /// memory is refused and the machine is left untouched. On success the
    /// image is exactly `spec_loaded(program@)` — the previous contents are
    /// gone, whatever they were.
    pub fn load_program(&mut self, program: &[u8]) -> (result: Result<(), CpuError>)
        ensures
            final(self).registers@ == old(self).registers@,
            final(self).status_register == old(self).status_register,
            final(self).eeprom@ == old(self).eeprom@,
            final(self).program_counter == old(self).program_counter,
            if program@.len() > FLASH_SIZE {
                result == Err::<(), CpuError>(CpuError::ProgramTooLarge) && final(self).flash@
                    == old(self).flash@
            } else {
                result == Ok::<(), CpuError>(()) && final(self).flash@ == spec_loaded(program@)
            },
    {
        if program.len() > FLASH_SIZE {
            return Err(CpuError::ProgramTooLarge);
        }
        self.clear_flash();
        let mut i: usize = 0;
        while i < program.len()
            invariant
                i <= program@.len() <= FLASH_SIZE,
                forall|j: int| 0 <= j < i ==> self.flash@[j] == program@[j],
                forall|j: int| i <= j < FLASH_SIZE ==> self.flash@[j] == 0,
                self.registers@ == old(self).registers@,
                self.status_register == old(self).status_register,
                self.eeprom@ == old(self).eeprom@,
                self.program_counter == old(self).program_counter,
            decreases program@.len() - i,
        {
            self.flash[i] = program[i];
            i = i + 1;
        }
        proof {
            assert(self.flash@ =~= spec_loaded(program@));
        }
        Ok(())
    }

    /// Fetch the 4-byte window at the program counter and decode it: the
    /// instruction, or `FetchOutOfBounds` when the window would pass the end
    /// of program memory, or `DecodeFailure` when no opcode family matches.
    fn fetch_instruction(&self) -> (result: Result<Instruction, CpuError>)
        ensures
            ({
                let pc = self.program_counter as int;
                if pc + 4 > FLASH_SIZE {
                    result == Err::<Instruction, CpuError>(CpuError::FetchOutOfBounds)
                } else {
                    match spec_parse_16(word_from_bytes(self.flash@[pc], self.flash@[pc + 1])) {
                        Some(instruction) => result == Ok::<Instruction, CpuError>(instruction),
                        None => result == Err::<Instruction, CpuError>(CpuError::DecodeFailure),
                    }
                }
            }),
    {
        let pc = self.program_counter as usize;
        if pc + 4 > FLASH_SIZE {
            return Err(CpuError::FetchOutOfBounds);
        }
        let window: [u8; 4] = [
            self.flash[pc],
            self.flash[pc + 1],
            self.flash[pc + 2],
            self.flash[pc + 3],
        ];
        match crate::instructions::parse_binary(window) {
            Some(instruction) => Ok(instruction),
            None => Err(CpuError::DecodeFailure),
        }
    }

    /// One machine step: fetch the window at the program counter, decode it,
    /// execute the instruction, then advance the program counter by 2 — the
    /// fixed 16-bit instruction width. Every failure (fetch out of bounds,
    /// decode failure, register out of range) comes back as a typed error
    /// that leaves the machine exactly as it was; in particular a word that
    /// decodes to nothing mutates no register. Program memory, data memory
    /// and the flags never move.
    pub fn tick(&mut self) -> (result: Result<(), CpuError>)
        ensures
            final(self).flash@ == old(self).flash@,
            final(self).eeprom@ == old(self).eeprom@,
            final(self).status_register == old(self).status_register,
            ({
                let pc = old(self).program_counter as int;
                if pc + 4 > FLASH_SIZE {
                    &&& result == Err::<(), CpuError>(CpuError::FetchOutOfBounds)
                    &&& final(self).registers@ == old(self).registers@
                    &&& final(self).program_counter == old(self).program_counter
                } else {
                    match spec_parse_16(
                        word_from_bytes(old(self).flash@[pc], old(self).flash@[pc + 1]),
                    ) {
                        None => {
                            &&& result == Err::<(), CpuError>(CpuError::DecodeFailure)
                            &&& final(self).registers@ == old(self).registers@
                            &&& final(self).program_counter == old(self).program_counter
                        },
                        Some(instruction) => match spec_execute(
                            old(self).registers@,
                            instruction,
                        ) {
                            None => {
                                &&& result == Err::<(), CpuError>(CpuError::RegisterOutOfRange)
                                &&& final(self).registers@ == old(self).registers@
                                &&& final(self).program_counter == old(self).program_counter
                            },
                            Some(regs) => {
                                &&& result == Ok::<(), CpuError>(())
                                &&& final(self).registers@ == regs
                                &&& final(self).program_counter == old(self).program_counter + 2
                            },
                        },
                    }
                }
            }),
    {
        let instruction = match self.fetch_instruction() {
            Ok(instruction) => instruction,
            Err(e) => {
                return Err(e);
            },
        };
        match self.execute_instruction(instruction) {
            Ok(()) => {},
            Err(e) => {
                return Err(e);
            },
        }
        // Always the 16-bit width: 32-bit instructions are a stated
        // extension point, not a present behaviour.
        self.program_counter = self.program_counter + 2;
        Ok(())
    }
}

/// The register file after `n` executions of `Inc(r)` in a row, or `None`
/// once one of them reports an out-of-range register.
pub open spec fn spec_execute_n_incs(regs: Seq<u8>, r: u8, n: nat) -> Option<Seq<u8>>
    decreases n,
{
    if n == 0 {
        Some(regs)
    } else {
        match spec_execute_n_incs(regs, r, (n - 1) as nat) {
            Some(prev) => spec_execute(prev, Instruction::Inc(r)),
            None => None,
        }
    }
}

proof fn lemma_n_incs_value(regs: Seq<u8>, r: u8, n: nat)
    requires
        r < regs.len(),
    ensures
        spec_execute_n_incs(regs, r, n) == Some(
            regs.update(r as int, ((regs[r as int] + n) % 256) as u8),
        ),
    decreases n,
{
    let v = regs[r as int] as int;
    if n == 0 {
        assert(regs.update(r as int, ((v + 0) % 256) as u8) =~= regs);
    } else {
        lemma_n_incs_value(regs, r, (n - 1) as nat);
        let prev = regs.update(r as int, ((v + (n - 1)) % 256) as u8);
        vstd::arithmetic::div_mod::lemma_add_mod_noop(v + (n - 1), 1, 256);
        assert(prev.update(r as int, inc_wrap(prev[r as int])) =~= regs.update(
            r as int,
            ((v + n) % 256) as u8,
        ));
    }
}

/// Law (wraparound): for every register `r` of the file, 256 executions of
/// `Inc(r)` in a row return the register file to exactly its original
/// contents.
pub proof fn lemma_increment_wraparound(regs: Seq<u8>, r: u8)
    requires
        r < regs.len(),
    ensures
        spec_execute_n_incs(regs, r, 256) == Some(regs),
{
    lemma_n_incs_value(regs, r, 256);
    let v = regs[r as int] as int;
    vstd::arithmetic::div_mod::lemma_mod_multiples_vanish(1, v, 256);
    assert(regs.update(r as int, ((v + 256) % 256) as u8) =~= regs);
}

/// Law (inverse): `Dec(r)` undoes `Inc(r)`. For every register file and
/// every register `r` of it, executing `Inc(r)` and then `Dec(r)` leaves the
/// register file exactly as it started, whatever value the register held.
pub proof fn lemma_decrement_inverts_increment(regs: Seq<u8>, r: u8)
    requires
        r < regs.len(),
    ensures
        (spec_execute(regs, Instruction::Inc(r)) matches Some(incremented) && spec_execute(
            incremented,
            Instruction::Dec(r),
        ) == Some(regs)),
{
    let v = regs[r as int] as int;
    let incremented = regs.update(r as int, ((v + 1) % 256) as u8);
    vstd::arithmetic::div_mod::lemma_add_mod_noop(v + 1, 255, 256);
    vstd::arithmetic::div_mod::lemma_mod_multiples_vanish(1, v, 256);
    assert(incremented.update(r as int, dec_wrap(incremented[r as int])) =~= regs);
}

/// Law (exchange): with distinct registers `d` and `s` holding `a` and `b`,
/// `Add(d, s)` followed by `Add(s, d)` leaves `d` at `a + b` and `s` at
/// `a + 2 * b`, both modulo 256, and every other register untouched. The
/// operation itself is not commutative — it always writes its first operand —
/// and this pins down what the exchanged pair really computes.
pub proof fn lemma_add_exchange(regs: Seq<u8>, d: u8, s: u8)
    requires
        d < regs.len(),
        s < regs.len(),
        d != s,
    ensures
        (spec_execute(regs, Instruction::Add(d, s)) matches Some(first) && spec_execute(
            first,
            Instruction::Add(s, d),
        ) matches Some(second) && {
            &&& second[d as int] == ((regs[d as int] + regs[s as int]) % 256) as u8
            &&& second[s as int] == ((regs[d as int] + 2 * regs[s as int]) % 256) as u8
            &&& (forall|i: int|
                0 <= i < regs.len() && i != d && i != s ==> second[i] == regs[i])
        }),
{
    let a = regs[d as int] as int;
    let b = regs[s as int] as int;
    vstd::arithmetic::div_mod::lemma_add_mod_noop(a + b, b, 256);
}

/// Law (zero-clear before copy): the image a load leaves in program memory is
/// a function of the new program alone — its bytes in order from offset 0,
/// and zero in every byte past its end. No byte of any earlier program
/// survives a later `load_program`.
pub proof fn lemma_load_leaves_no_residue(program: Seq<u8>)
    requires
        program.len() <= FLASH_SIZE,
    ensures
        spec_loaded(program).len() == FLASH_SIZE,
        forall|i: int| 0 <= i < program.len() ==> spec_loaded(program)[i] == program[i],
        forall|i: int| program.len() <= i < FLASH_SIZE ==> spec_loaded(program)[i] == 0,
{
}

} // verus!
