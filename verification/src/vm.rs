//! The Rain virtual machine: instruction decoder, register file, and
//! execution engine.
//!
//! A program is a flat byte buffer.  Byte 0 is the format version;
//! bytes 1.. are the instruction stream.  Each instruction starts with
//! a descriptor byte whose top 5 bits select the opcode and whose low
//! 3 bits are opcode-specific flags.  All 32-bit words are big-endian.
//!
//! The intended semantics live in the ghost functions [`step`] and
//! [`run`]: `step` gives the meaning of one fetch-decode-execute step,
//! and `run` iterates it.  Every executable function is proved exact
//! against this model.

use vstd::prelude::*;

use std::collections::HashMap;

use crate::version::BYTE_VERSION;

verus! {

broadcast use vstd::std_specs::hash::group_hash_axioms;

/// A register id.  Decoding always produces a 5-bit id (0 to 31).
#[derive(PartialEq, Eq, Structural, Clone, Copy, Debug, Hash)]
pub struct Reg(pub u8);

/// An execution error.  Every error is terminal within a run.
#[derive(PartialEq, Eq, Structural, Clone, Copy, Debug)]
pub enum ExecutionError {
    /// Missing version: the buffer is empty.
    MissingVersion,
    /// Given a mismatched version byte.
    VersionMismatch { version: u8 },
    /// Reached the unexpected end of the program.
    UnexpectedEndOfProgram,
    /// No result in the result register, `R0`.
    NoResult,
    /// 32-bit integers should have 4 bytes, but there are fewer bytes.
    TruncatedU32,
    /// Given an unknown opcode.
    NoSuchInstruction { opcode: u8 },
    /// No such register: it was read before ever being written.
    NoSuchRegister { reg: Reg },
    /// Nowhere to jump: a taken branch targets an offset past the end.
    NowhereToJump { address: u32 },
    /// The engine's step budget ran out before the program halted or
    /// failed.  The budget is [`STEP_LIMIT`] instructions, so only a
    /// program that branches essentially forever can reach this.
    StepLimitExceeded,
}

/// The descriptor byte's top 5 bits are the opcode.
pub const SHIFT_OPCODE: u8 = 3;

/// Mask for a 5-bit register id.
pub const REGISTER_WIDTH: u8 = 0b11111;

pub const OPCODE_MOVE: u8 = 0;

pub const OPCODE_HALT: u8 = 1;

pub const OPCODE_ADD: u8 = 2;

pub const OPCODE_BNZ: u8 = 3;

/// How many instructions the engine will execute in one run before
/// giving up with [`ExecutionError::StepLimitExceeded`].
pub const STEP_LIMIT: u64 = u64::MAX;

/// The machine state between two instructions: the read cursor (an
/// absolute byte offset into the program) and the registers written
/// so far.  A key absent from `regs` is a register never written,
/// which is observably distinct from a register holding zero.
pub ghost struct VmState {
    pub cursor: int,
    pub regs: Map<u8, u32>,
}

/// What one step, or a whole run, of the machine yields.
pub ghost enum Outcome {
    /// The machine may keep fetching instructions from `state`.
    Running { state: VmState },
    /// A HALT instruction was reached with these registers.
    Halted { regs: Map<u8, u32> },
    /// Execution failed; the run stops at once.
    Failed { error: ExecutionError },
}

/// The 32-bit big-endian word held by the 4 bytes of `p` starting at `i`.
pub open spec fn word_at(p: Seq<u8>, i: int) -> u32
    recommends
        0 <= i,
        i + 4 <= p.len(),
{
    ((p[i] as int) * 0x1000000 + (p[i + 1] as int) * 0x10000 + (p[i + 2] as int) * 0x100 + (p[i
        + 3] as int)) as u32
}

/// A 5-bit register id split across two bytes: `extra` (the low 2 bits
/// of the descriptor byte) supplies the id's high 2 bits, and the top
/// 3 bits of the operand byte `b` supply the id's low 3 bits.
pub open spec fn join_reg(extra: u8, b: u8) -> Reg
    recommends
        extra < 4,
{
    Reg((b >> 5) | (extra << 3))
}

/// Addition modulo 2^32: overflow wraps and is never an error.
pub open spec fn wrap_add(a: u32, b: u32) -> u32 {
    if a + b > u32::MAX {
        (a + b - 0x100000000) as u32
    } else {
        (a + b) as u32
    }
}

/// MOVE reg -> reg, with the operand byte at offset `c`: copy the
/// packed source register into the low-5-bit destination register.
pub open spec fn spec_mov_reg(p: Seq<u8>, c: int, regs: Map<u8, u32>, extra: u8) -> Outcome {
    if c >= p.len() {
        Outcome::Failed { error: ExecutionError::UnexpectedEndOfProgram }
    } else {
        let b = p[c];
        let src = join_reg(extra, b);
        let dest = Reg(b & REGISTER_WIDTH);
        if !regs.contains_key(src.0) {
            Outcome::Failed { error: ExecutionError::NoSuchRegister { reg: src } }
        } else {
            Outcome::Running {
                state: VmState { cursor: c + 1, regs: regs.insert(dest.0, regs[src.0]) },
            }
        }
    }
}

/// MOVE imm -> reg, with the operand byte at offset `c`: write the
/// word decoded from the 4 following bytes into the destination.
pub open spec fn spec_mov_imm(p: Seq<u8>, c: int, regs: Map<u8, u32>) -> Outcome {
    if c >= p.len() {
        Outcome::Failed { error: ExecutionError::UnexpectedEndOfProgram }
    } else {
        let dest = Reg(p[c] & REGISTER_WIDTH);
        if c + 5 > p.len() {
            Outcome::Failed { error: ExecutionError::TruncatedU32 }
        } else {
            Outcome::Running {
                state: VmState { cursor: c + 5, regs: regs.insert(dest.0, word_at(p, c + 1)) },
            }
        }
    }
}

/// ADD reg + reg -> reg, with the first operand byte at offset `c`:
/// the destination (the top 5 bits of the second operand byte)
/// receives the wrapping sum of the two source registers.
pub open spec fn spec_add_reg(p: Seq<u8>, c: int, regs: Map<u8, u32>, extra: u8) -> Outcome {
    if c >= p.len() {
        Outcome::Failed { error: ExecutionError::UnexpectedEndOfProgram }
    } else {
        let b = p[c];
        let src1 = join_reg(extra, b);
        let src2 = Reg(b & REGISTER_WIDTH);
        if c + 1 >= p.len() {
            Outcome::Failed { error: ExecutionError::UnexpectedEndOfProgram }
        } else {
            let dest = Reg(p[c + 1] >> SHIFT_OPCODE);
            if !regs.contains_key(src1.0) {
                Outcome::Failed { error: ExecutionError::NoSuchRegister { reg: src1 } }
            } else if !regs.contains_key(src2.0) {
                Outcome::Failed { error: ExecutionError::NoSuchRegister { reg: src2 } }
            } else {
                Outcome::Running {
                    state: VmState {
                        cursor: c + 2,
                        regs: regs.insert(dest.0, wrap_add(regs[src1.0], regs[src2.0])),
                    },
                }
            }
        }
    }
}

/// ADD reg + imm -> reg, with the operand byte at offset `c`: the
/// low-5-bit destination receives the wrapping sum of the packed
/// source register and the decoded word.
pub open spec fn spec_add_imm(p: Seq<u8>, c: int, regs: Map<u8, u32>, extra: u8) -> Outcome {
    if c >= p.len() {
        Outcome::Failed { error: ExecutionError::UnexpectedEndOfProgram }
    } else {
        let b = p[c];
        let src = join_reg(extra, b);
        let dest = Reg(b & REGISTER_WIDTH);
        if c + 5 > p.len() {
            Outcome::Failed { error: ExecutionError::TruncatedU32 }
        } else if !regs.contains_key(src.0) {
            Outcome::Failed { error: ExecutionError::NoSuchRegister { reg: src } }
        } else {
            Outcome::Running {
                state: VmState {
                    cursor: c + 5,
                    regs: regs.insert(dest.0, wrap_add(regs[src.0], word_at(p, c + 1))),
                },
            }
        }
    }
}

/// BNZ, with the operand byte at offset `c`: the low 5 bits of the
/// operand byte name the test register, read before the jump-target
/// word is decoded; the word is always decoded, taken branch or not.
/// A zero test value falls through; a nonzero one jumps to the target
/// when it is in bounds and fails nowhere-to-jump when it is not.
pub open spec fn spec_bnz(p: Seq<u8>, c: int, regs: Map<u8, u32>) -> Outcome {
    if c >= p.len() {
        Outcome::Failed { error: ExecutionError::UnexpectedEndOfProgram }
    } else {
        let r = Reg(p[c] & REGISTER_WIDTH);
        if !regs.contains_key(r.0) {
            Outcome::Failed { error: ExecutionError::NoSuchRegister { reg: r } }
        } else if c + 5 > p.len() {
            Outcome::Failed { error: ExecutionError::TruncatedU32 }
        } else {
            let target = word_at(p, c + 1);
            if regs[r.0] == 0 {
                Outcome::Running { state: VmState { cursor: c + 5, regs } }
            } else if target >= p.len() {
                Outcome::Failed { error: ExecutionError::NowhereToJump { address: target } }
            } else {
                Outcome::Running { state: VmState { cursor: target as int, regs } }
            }
        }
    }
}

/// One fetch-decode-execute step of the machine on program `p` from
/// state `s`.
pub open spec fn step(p: Seq<u8>, s: VmState) -> Outcome {
    if s.cursor < 0 || s.cursor >= p.len() {
        Outcome::Failed { error: ExecutionError::UnexpectedEndOfProgram }
    } else {
        let b = p[s.cursor];
        let op = b >> SHIFT_OPCODE;
        if op == OPCODE_MOVE {
            if b & 0b100 == 0 {
                spec_mov_reg(p, s.cursor + 1, s.regs, b & 0b11)
            } else {
                spec_mov_imm(p, s.cursor + 1, s.regs)
            }
        } else if op == OPCODE_HALT {
            Outcome::Halted { regs: s.regs }
        } else if op == OPCODE_ADD {
            if b & 0b100 == 0 {
                spec_add_reg(p, s.cursor + 1, s.regs, b & 0b11)
            } else {
                spec_add_imm(p, s.cursor + 1, s.regs, b & 0b11)
            }
        } else if op == OPCODE_BNZ {
            spec_bnz(p, s.cursor + 1, s.regs)
        } else {
            Outcome::Failed { error: ExecutionError::NoSuchInstruction { opcode: op } }
        }
    }
}

/// The machine iterated for at most `fuel` steps from state `s`.  A
/// halt or a failure within the budget is final: larger budgets yield
/// the same outcome (see [`lemma_run_absorbs`]).
pub open spec fn run(p: Seq<u8>, s: VmState, fuel: nat) -> Outcome
    decreases fuel,
{
    if fuel == 0 {
        Outcome::Running { state: s }
    } else {
        match step(p, s) {
            Outcome::Running { state } => run(p, state, (fuel - 1) as nat),
            o => o,
        }
    }
}

/// The state in which the engine starts the instruction loop: the
/// cursor sits just past the version byte.
pub open spec fn init_state(regs: Map<u8, u32>) -> VmState {
    VmState { cursor: 1, regs }
}

/// `run` for one more step applies `step` to the state reached so far.
pub proof fn lemma_run_step_right(p: Seq<u8>, s: VmState, fuel: nat)
    ensures
        run(p, s, fuel + 1) == (match run(p, s, fuel) {
            Outcome::Running { state } => step(p, state),
            o => o,
        }),
    decreases fuel,
{
    if fuel == 0 {
        match step(p, s) {
            Outcome::Running { state } => {
                assert(run(p, s, 1) == run(p, state, 0));
            },
            _ => {},
        }
    } else {
        match step(p, s) {
            Outcome::Running { state } => {
                lemma_run_step_right(p, state, (fuel - 1) as nat);
                assert(run(p, s, fuel + 1) == run(p, state, fuel));
                assert(run(p, s, fuel) == run(p, state, (fuel - 1) as nat));
            },
            _ => {},
        }
    }
}

/// A terminal outcome is final: once a run has halted or failed, any
/// larger step budget yields the same outcome.
pub proof fn lemma_run_absorbs(p: Seq<u8>, s: VmState, fuel1: nat, fuel2: nat)
    requires
        fuel1 <= fuel2,
        !(run(p, s, fuel1) matches Outcome::Running { .. }),
    ensures
        run(p, s, fuel2) == run(p, s, fuel1),
    decreases fuel1,
{
    match step(p, s) {
        Outcome::Running { state } => {
            lemma_run_absorbs(p, state, (fuel1 - 1) as nat, (fuel2 - 1) as nat);
        },
        _ => {},
    }
}

/// Wrapping addition is exactly addition modulo 2^32.
pub proof fn lemma_wrap_add_mod(a: u32, b: u32)
    ensures
        wrap_add(a, b) == ((a + b) % 0x100000000) as u32,
{
    if a + b > u32::MAX {
        assert((a + b) % 0x100000000 == a + b - 0x100000000);
    } else {
        assert((a + b) % 0x100000000 == a + b);
    }
}

/// ADD wraps on overflow: whenever an ADD instruction's operand bytes
/// are present and its source registers are written, the instruction
/// succeeds, and the destination receives the sum modulo 2^32 — an
/// overflowing sum is never an error.
pub proof fn lemma_add_wraps(p: Seq<u8>, c: int, regs: Map<u8, u32>, extra: u8)
    requires
        0 <= c,
        c + 2 <= p.len(),
        regs.contains_key(join_reg(extra, p[c]).0),
        regs.contains_key(p[c] & REGISTER_WIDTH),
    ensures
        spec_add_reg(p, c, regs, extra) == (Outcome::Running {
            state: (VmState {
                cursor: c + 2,
                regs: regs.insert(
                    p[c + 1] >> SHIFT_OPCODE,
                    ((regs[join_reg(extra, p[c]).0] + regs[p[c] & REGISTER_WIDTH])
                        % 0x100000000) as u32,
                ),
            }),
        }),
        c + 5 <= p.len() ==> spec_add_imm(p, c, regs, extra) == (Outcome::Running {
            state: (VmState {
                cursor: c + 5,
                regs: regs.insert(
                    p[c] & REGISTER_WIDTH,
                    ((regs[join_reg(extra, p[c]).0] + word_at(p, c + 1)) % 0x100000000) as u32,
                ),
            }),
        }),
{
    lemma_wrap_add_mod(regs[join_reg(extra, p[c]).0], regs[p[c] & REGISTER_WIDTH]);
    lemma_wrap_add_mod(regs[join_reg(extra, p[c]).0], word_at(p, c + 1));
}

/// BNZ with a zero-valued test register always falls through to the
/// next instruction, never consuming the branch; with a nonzero value
/// and a target past the end of the buffer it fails nowhere-to-jump
/// carrying the target; with a nonzero value and a valid target the
/// cursor moves exactly to that offset.  The registers are never
/// changed.
pub proof fn lemma_bnz_behavior(p: Seq<u8>, c: int, regs: Map<u8, u32>)
    requires
        0 <= c,
        c + 5 <= p.len(),
        regs.contains_key(p[c] & REGISTER_WIDTH),
    ensures
        regs[p[c] & REGISTER_WIDTH] == 0 ==> spec_bnz(p, c, regs) == (Outcome::Running {
            state: (VmState { cursor: c + 5, regs }),
        }),
        regs[p[c] & REGISTER_WIDTH] != 0 && word_at(p, c + 1) >= p.len() ==> spec_bnz(p, c, regs)
            == (Outcome::Failed {
            error: (ExecutionError::NowhereToJump { address: word_at(p, c + 1) }),
        }),
        regs[p[c] & REGISTER_WIDTH] != 0 && word_at(p, c + 1) < p.len() ==> spec_bnz(p, c, regs)
            == (Outcome::Running {
            state: (VmState { cursor: word_at(p, c + 1) as int, regs }),
        }),
{
}

/// Reading a register never previously written fails no-such-register
/// carrying that id, whether the read is a MOVE source, an ADD
/// operand, or a BNZ test register.  For ADD imm the trailing word is
/// checked first, so the bytes must be present; for BNZ the test
/// register is read before the word.
pub proof fn lemma_unwritten_register_faults(p: Seq<u8>, c: int, regs: Map<u8, u32>, extra: u8)
    requires
        0 <= c < p.len(),
    ensures
        !regs.contains_key(join_reg(extra, p[c]).0) ==> spec_mov_reg(p, c, regs, extra)
            == (Outcome::Failed {
            error: (ExecutionError::NoSuchRegister { reg: join_reg(extra, p[c]) }),
        }),
        c + 2 <= p.len() && !regs.contains_key(join_reg(extra, p[c]).0) ==> spec_add_reg(
            p,
            c,
            regs,
            extra,
        ) == (Outcome::Failed {
            error: (ExecutionError::NoSuchRegister { reg: join_reg(extra, p[c]) }),
        }),
        c + 2 <= p.len() && regs.contains_key(join_reg(extra, p[c]).0) && !regs.contains_key(
            p[c] & REGISTER_WIDTH,
        ) ==> spec_add_reg(p, c, regs, extra) == (Outcome::Failed {
            error: (ExecutionError::NoSuchRegister { reg: Reg(p[c] & REGISTER_WIDTH) }),
        }),
        c + 5 <= p.len() && !regs.contains_key(join_reg(extra, p[c]).0) ==> spec_add_imm(
            p,
            c,
            regs,
            extra,
        ) == (Outcome::Failed {
            error: (ExecutionError::NoSuchRegister { reg: join_reg(extra, p[c]) }),
        }),
        !regs.contains_key(p[c] & REGISTER_WIDTH) ==> spec_bnz(p, c, regs) == (Outcome::Failed {
            error: (ExecutionError::NoSuchRegister { reg: Reg(p[c] & REGISTER_WIDTH) }),
        }),
{
}

/// A descriptor byte whose top 5 bits encode value 4 or higher fails
/// no-such-instruction carrying that 5-bit value.
pub proof fn lemma_unknown_opcode(p: Seq<u8>, s: VmState)
    requires
        0 <= s.cursor < p.len(),
        p[s.cursor] >> SHIFT_OPCODE >= 4,
    ensures
        step(p, s) == (Outcome::Failed {
            error: (ExecutionError::NoSuchInstruction { opcode: p[s.cursor] >> SHIFT_OPCODE }),
        }),
{
}

/// The register file: a sparse store from 5-bit register ids to
/// 32-bit words.  Presence of an entry means "written at least once."
struct File(HashMap<u8, u32>);

impl File {
    fn get(&self, r: &Reg) -> (o: Option<u32>)
        ensures
            match o {
                Some(w) => self.0@.contains_key(r.0) && w == self.0@[r.0],
                None => !self.0@.contains_key(r.0),
            },
    {
        match self.0.get(&r.0) {
            Some(w) => Some(*w),
            None => None,
        }
    }

    fn insert(&mut self, r: Reg, w: u32)
        ensures
            final(self).0@ == old(self).0@.insert(r.0, w),
    {
        self.0.insert(r.0, w);
    }
}

/// The execution engine's mutable half: the register file.  The read
/// cursor lives in [`Machine::execute_bytes`], created per run.
pub struct Machine {
    file: File,
}

impl View for Machine {
    type V = Map<u8, u32>;

    closed spec fn view(&self) -> Map<u8, u32> {
        self.file.0@
    }
}

impl Machine {
    /// A machine with every register unwritten.
    pub fn new() -> (m: Machine)
        ensures
            m@ == Map::<u8, u32>::empty(),
    {
        Machine { file: File(HashMap::new()) }
    }

    /// Reads register `r`, failing no-such-register if it was never
    /// written.
    pub fn get(&self, r: Reg) -> (res: Result<u32, ExecutionError>)
        ensures
            match res {
                Ok(w) => self@.contains_key(r.0) && w == self@[r.0],
                Err(e) => !self@.contains_key(r.0) && e == (ExecutionError::NoSuchRegister {
                    reg: r,
                }),
            },
    {
        match self.file.get(&r) {
            Some(w) => Ok(w),
            None => Err(ExecutionError::NoSuchRegister { reg: r }),
        }
    }

    /// Writes `w` into register `r`, unconditionally.
    pub fn insert(&mut self, r: Reg, w: u32)
        ensures
            final(self)@ == old(self)@.insert(r.0, w),
    {
        self.file.insert(r, w);
    }
}

/// Returns the byte at offset `i`, or unexpected-end-of-program when
/// the buffer has no byte there.
pub fn must_next(v: &Vec<u8>, i: usize) -> (r: Result<u8, ExecutionError>)
    ensures
        v@.len() <= usize::MAX,
        i < v@.len() ==> r == Ok::<u8, ExecutionError>(v@[i as int]),
        i >= v@.len() ==> r == Err::<u8, ExecutionError>(ExecutionError::UnexpectedEndOfProgram),
{
    if i < v.len() {
        Ok(v[i])
    } else {
        Err(ExecutionError::UnexpectedEndOfProgram)
    }
}

/// Decodes the big-endian 32-bit word at offset `i`.  Any input with
/// fewer than 4 bytes available there fails truncated-word, regardless
/// of content.
pub fn decode_u32(v: &Vec<u8>, i: usize) -> (r: Result<u32, ExecutionError>)
    ensures
        v@.len() <= usize::MAX,
        i + 4 <= v@.len() ==> r == Ok::<u32, ExecutionError>(word_at(v@, i as int)),
        i + 4 > v@.len() ==> r == Err::<u32, ExecutionError>(ExecutionError::TruncatedU32),
{
    if v.len() < 4 || i > v.len() - 4 {
        return Err(ExecutionError::TruncatedU32);
    }
    let b0 = v[i];
    let b1 = v[i + 1];
    let b2 = v[i + 2];
    let b3 = v[i + 3];
    let w = ((b0 as u32) << 24) | ((b1 as u32) << 16) | ((b2 as u32) << 8) | (b3 as u32);
    proof {
        let a0 = b0 as u32;
        let a1 = b1 as u32;
        let a2 = b2 as u32;
        let a3 = b3 as u32;
        assert(a0 < 256 && a1 < 256 && a2 < 256 && a3 < 256 ==> ((a0 << 24) | (a1 << 16) | (a2
            << 8) | a3) == a0 * 0x1000000 + a1 * 0x10000 + a2 * 0x100 + a3) by (bit_vector);
    }
    Ok(w)
}

impl Machine {
    /// "Move register" instruction, operand byte at `pc`.
    /// The parameter `extra_bits` is assumed to be a two-bit integer.
    fn mov_reg(&mut self, v: &Vec<u8>, pc: usize, extra_bits: u8) -> (r: Result<
        usize,
        ExecutionError,
    >)
        ensures
            match spec_mov_reg(v@, pc as int, old(self)@, extra_bits) {
                Outcome::Running { state } => r matches Ok(npc) && npc as int == state.cursor
                    && final(self)@ == state.regs,
                Outcome::Failed { error } => r == Err::<usize, ExecutionError>(error) && final(self)@ == old(self)@,
                Outcome::Halted { .. } => false,
            },
    {
        let b = match must_next(v, pc) {
            Ok(b) => b,
            Err(e) => {
                return Err(e);
            },
        };
        let lower = b >> 5;
        let upper = extra_bits << 3;
        let src = Reg(lower | upper);

        let w = match self.get(src) {
            Ok(w) => w,
            Err(e) => {
                return Err(e);
            },
        };
        self.insert(Reg(b & REGISTER_WIDTH), w);
        Ok(pc + 1)
    }

    /// "Move immediate" instruction, operand byte at `pc`.
    fn mov_imm(&mut self, v: &Vec<u8>, pc: usize) -> (r: Result<usize, ExecutionError>)
        ensures
            match spec_mov_imm(v@, pc as int, old(self)@) {
                Outcome::Running { state } => r matches Ok(npc) && npc as int == state.cursor
                    && final(self)@ == state.regs,
                Outcome::Failed { error } => r == Err::<usize, ExecutionError>(error) && final(self)@ == old(self)@,
                Outcome::Halted { .. } => false,
            },
    {
        let b = match must_next(v, pc) {
            Ok(b) => b,
            Err(e) => {
                return Err(e);
            },
        };
        let r0 = Reg(b & REGISTER_WIDTH);
        let w = match decode_u32(v, pc + 1) {
            Ok(w) => w,
            Err(e) => {
                return Err(e);
            },
        };
        self.insert(r0, w);
        Ok(pc + 5)
    }

    /// "Add register" instruction, operand bytes at `pc`.
    /// The parameter `extra_bits` is assumed to be a two-bit integer.
    /// Arithmetic overflow wraps.
    fn add_reg(&mut self, v: &Vec<u8>, pc: usize, extra_bits: u8) -> (r: Result<
        usize,
        ExecutionError,
    >)
        ensures
            match spec_add_reg(v@, pc as int, old(self)@, extra_bits) {
                Outcome::Running { state } => r matches Ok(npc) && npc as int == state.cursor
                    && final(self)@ == state.regs,
                Outcome::Failed { error } => r == Err::<usize, ExecutionError>(error) && final(self)@ == old(self)@,
                Outcome::Halted { .. } => false,
            },
    {
        let b = match must_next(v, pc) {
            Ok(b) => b,
            Err(e) => {
                return Err(e);
            },
        };
        let lower = b >> 5;
        let upper = extra_bits << 3;
        let src1 = Reg(lower | upper);
        let src2 = Reg(b & REGISTER_WIDTH);

        let d = match must_next(v, pc + 1) {
            Ok(d) => d,
            Err(e) => {
                return Err(e);
            },
        };
        let dest = Reg(d >> SHIFT_OPCODE);
        let v1 = match self.get(src1) {
            Ok(w) => w,
            Err(e) => {
                return Err(e);
            },
        };
        let v2 = match self.get(src2) {
            Ok(w) => w,
            Err(e) => {
                return Err(e);
            },
        };
        self.insert(dest, v1.wrapping_add(v2));
        Ok(pc + 2)
    }

    /// "Add immediate" instruction, operand byte at `pc`.
    /// The parameter `extra_bits` is assumed to be a two-bit integer.
    /// Arithmetic overflow wraps.
    fn add_imm(&mut self, v: &Vec<u8>, pc: usize, extra_bits: u8) -> (r: Result<
        usize,
        ExecutionError,
    >)
        ensures
            match spec_add_imm(v@, pc as int, old(self)@, extra_bits) {
                Outcome::Running { state } => r matches Ok(npc) && npc as int == state.cursor
                    && final(self)@ == state.regs,
                Outcome::Failed { error } => r == Err::<usize, ExecutionError>(error) && final(self)@ == old(self)@,
                Outcome::Halted { .. } => false,
            },
    {
        let b = match must_next(v, pc) {
            Ok(b) => b,
            Err(e) => {
                return Err(e);
            },
        };
        let lower = b >> 5;
        let upper = extra_bits << 3;
        let src = Reg(lower | upper);

        let w = match decode_u32(v, pc + 1) {
            Ok(w) => w,
            Err(e) => {
                return Err(e);
            },
        };
        let v0 = match self.get(src) {
            Ok(w) => w,
            Err(e) => {
                return Err(e);
            },
        };
        self.insert(Reg(b & REGISTER_WIDTH), v0.wrapping_add(w));
        Ok(pc + 5)
    }

    /// "Branch if not zero" instruction, operand bytes at `pc`.  The
    /// test register is read before the jump-target word is decoded,
    /// and the word is always decoded even when the branch is not
    /// taken.  Returns the next cursor: past the instruction on a zero
    /// test value, the target on a taken branch.
    fn bnz(&mut self, v: &Vec<u8>, pc: usize) -> (r: Result<usize, ExecutionError>)
        ensures
            final(self)@ == old(self)@,
            match spec_bnz(v@, pc as int, old(self)@) {
                Outcome::Running { state } => r matches Ok(npc) && npc as int == state.cursor,
                Outcome::Failed { error } => r == Err::<usize, ExecutionError>(error),
                Outcome::Halted { .. } => false,
            },
    {
        let b = match must_next(v, pc) {
            Ok(b) => b,
            Err(e) => {
                return Err(e);
            },
        };
        let r0 = Reg(b & REGISTER_WIDTH);
        let w = match self.get(r0) {
            Ok(w) => w,
            Err(e) => {
                return Err(e);
            },
        };
        let t = match decode_u32(v, pc + 1) {
            Ok(t) => t,
            Err(e) => {
                return Err(e);
            },
        };
        if w == 0 {
            Ok(pc + 5)
        } else {
            if (t as usize) < v.len() {
                Ok(t as usize)
            } else {
                Err(ExecutionError::NowhereToJump { address: t })
            }
        }
    }

    /// Executes a sequence of bytes: the version gate, then the
    /// fetch-decode-execute loop from offset 1, over this machine's
    /// registers.  On a halt the registers of the halted state remain
    /// in the machine.
    #[verifier::loop_isolation(false)]
    pub fn execute_bytes(&mut self, v: Vec<u8>) -> (r: Result<(), ExecutionError>)
        ensures
            v@.len() == 0 ==> r == Err::<(), ExecutionError>(ExecutionError::MissingVersion)
                && final(self)@ == old(self)@,
            v@.len() > 0 && v@[0] != BYTE_VERSION ==> r == Err::<(), ExecutionError>(
                ExecutionError::VersionMismatch { version: v@[0] },
            ) && final(self)@ == old(self)@,
            v@.len() > 0 && v@[0] == BYTE_VERSION ==> match run(
                v@,
                init_state(old(self)@),
                STEP_LIMIT as nat,
            ) {
                Outcome::Halted { regs } => r == Ok::<(), ExecutionError>(()) && final(self)@
                    == regs,
                Outcome::Failed { error } => r == Err::<(), ExecutionError>(error),
                Outcome::Running { .. } => r == Err::<(), ExecutionError>(
                    ExecutionError::StepLimitExceeded,
                ),
            },
    {
        let ghost prog = v@;
        let ghost regs0 = self@;
        if v.len() == 0 {
            return Err(ExecutionError::MissingVersion);
        }
        let b0 = v[0];
        if b0 != BYTE_VERSION {
            return Err(ExecutionError::VersionMismatch { version: b0 });
        }
        let mut pc: usize = 1;
        let mut fuel: u64 = STEP_LIMIT;
        loop
            invariant
                fuel <= STEP_LIMIT,
                run(prog, init_state(regs0), (STEP_LIMIT - fuel) as nat) == (Outcome::Running {
                    state: (VmState { cursor: pc as int, regs: self@ }),
                }),
            decreases fuel,
        {
            let ghost taken = (STEP_LIMIT - fuel) as nat;
            let ghost cur = VmState { cursor: pc as int, regs: self@ };
            if fuel == 0 {
                return Err(ExecutionError::StepLimitExceeded);
            }
            fuel = fuel - 1;
            let b = match must_next(&v, pc) {
                Ok(b) => b,
                Err(e) => {
                    proof {
                        lemma_run_step_right(prog, init_state(regs0), taken);
                        lemma_run_absorbs(prog, init_state(regs0), taken + 1, STEP_LIMIT as nat);
                    }
                    return Err(e);
                },
            };
            let op = b >> SHIFT_OPCODE;
            if op == OPCODE_HALT {
                proof {
                    lemma_run_step_right(prog, init_state(regs0), taken);
                    lemma_run_absorbs(prog, init_state(regs0), taken + 1, STEP_LIMIT as nat);
                }
                return Ok(());
            }
            let res: Result<usize, ExecutionError> = if op == OPCODE_MOVE {
                if b & 0b100 == 0 {
                    self.mov_reg(&v, pc + 1, b & 0b11)
                } else {
                    self.mov_imm(&v, pc + 1)
                }
            } else if op == OPCODE_ADD {
                let bits = b & 0b11;
                if b & 0b100 == 0 {
                    self.add_reg(&v, pc + 1, bits)
                } else {
                    self.add_imm(&v, pc + 1, bits)
                }
            } else if op == OPCODE_BNZ {
                self.bnz(&v, pc + 1)
            } else {
                proof {
                    lemma_run_step_right(prog, init_state(regs0), taken);
                    lemma_run_absorbs(prog, init_state(regs0), taken + 1, STEP_LIMIT as nat);
                }
                return Err(ExecutionError::NoSuchInstruction { opcode: op });
            };
            match res {
                Ok(npc) => {
                    pc = npc;
                    proof {
                        lemma_run_step_right(prog, init_state(regs0), taken);
                    }
                },
                Err(e) => {
                    proof {
                        lemma_run_step_right(prog, init_state(regs0), taken);
                        lemma_run_absorbs(prog, init_state(regs0), taken + 1, STEP_LIMIT as nat);
                    }
                    return Err(e);
                },
            }
        }
    }
}

/// Executes a sequence of bytes on a fresh machine and returns the
/// value of the result register `R0` of the halted state, or the
/// error that ended the run.  Halting without `R0` ever written fails
/// no-result.
pub fn execute_bytes(v: Vec<u8>) -> (r: Result<u32, ExecutionError>)
    ensures
        v@.len() == 0 ==> r == Err::<u32, ExecutionError>(ExecutionError::MissingVersion),
        v@.len() > 0 && v@[0] != BYTE_VERSION ==> r == Err::<u32, ExecutionError>(
            ExecutionError::VersionMismatch { version: v@[0] },
        ),
        v@.len() > 0 && v@[0] == BYTE_VERSION ==> match run(
            v@,
            init_state(Map::empty()),
            STEP_LIMIT as nat,
        ) {
            Outcome::Halted { regs } => if regs.contains_key(0) {
                r == Ok::<u32, ExecutionError>(regs[0])
            } else {
                r == Err::<u32, ExecutionError>(ExecutionError::NoResult)
            },
            Outcome::Failed { error } => r == Err::<u32, ExecutionError>(error),
            Outcome::Running { .. } => r == Err::<u32, ExecutionError>(
                ExecutionError::StepLimitExceeded,
            ),
        },
{
    let mut m = Machine::new();
    match m.execute_bytes(v) {
        Err(e) => Err(e),
        Ok(()) => match m.get(Reg(0)) {
            Ok(w) => Ok(w),
            Err(_) => Err(ExecutionError::NoResult),
        },
    }
}

} // verus!
