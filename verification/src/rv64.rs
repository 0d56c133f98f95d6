//! The RV64G operand and instruction model.
//!
//! Pure data describing registers, memory locations and instruction forms,
//! plus the derived queries the rest of the backend needs: the register
//! footprint of an instruction (which drives callee-save decisions) and
//! offsetting of locations.

use vstd::prelude::*;

use crate::ident::Id;

verus! {

/// Registers of the RV64G machine, in register-file order.
#[derive(Clone, Copy, Debug, PartialEq, Eq, Hash, PartialOrd, Ord, Structural)]
pub enum Register {
    Zero,
    Ra,
    Sp,
    Gp,
    Tp,
    T0,
    T1,
    T2,
    Fp,
    S1,
    A0,
    A1,
    A2,
    A3,
    A4,
    A5,
    A6,
    A7,
    S2,
    S3,
    S4,
    S5,
    S6,
    S7,
    S8,
    S9,
    S10,
    S11,
    T3,
    T4,
    T5,
    T6,
}

/// Is `r` in the general-purpose callee-saved class (`s1`-`s11`)?
///
/// The frame pointer and the stack pointer are also preserved across calls,
/// but they are handled by dedicated prologue/epilogue logic, never by the
/// generic save/restore loop, so they are not part of this class.
pub open spec fn spec_is_callee_saved(r: Register) -> bool {
    match r {
        Register::S1 | Register::S2 | Register::S3 | Register::S4 | Register::S5
            | Register::S6 | Register::S7 | Register::S8 | Register::S9 | Register::S10
            | Register::S11 => true,
        _ => false,
    }
}

impl Register {
    /// Is this register in the general-purpose callee-saved class?
    pub fn is_callee_saved(self) -> (r: bool)
        ensures
            r == spec_is_callee_saved(self),
    {
        match self {
            Register::S1 | Register::S2 | Register::S3 | Register::S4 | Register::S5
                | Register::S6 | Register::S7 | Register::S8 | Register::S9 | Register::S10
                | Register::S11 => true,
            _ => false,
        }
    }
}

/// Memory locations that RV64G instructions can address.
#[derive(Clone, Copy, Debug, PartialEq, Eq)]
pub enum Memory {
    /// The address held in a register, plus a byte offset.
    Mem(Register, i32),
    /// A global symbol, as an index into the program's global table, plus a
    /// byte offset.  Address materialization is deferred to a later stage.
    Global { index: usize, offset: i32 },
}

impl Memory {
    /// The register used to describe this location, if any.
    pub fn used_registers(&self) -> (r: Option<Register>)
        ensures
            r == spec_mem_used_register(*self),
    {
        match self {
            Memory::Mem(r, _offset) => Some(*r),
            Memory::Global { .. } => None,
        }
    }

    /// The memory location `n` bytes after this one.
    pub fn offset(&self, n: i32) -> (r: Memory)
        requires
            mem_offset_in_range(*self, n as int),
        ensures
            r == spec_mem_offset(*self, n as int),
    {
        match *self {
            Memory::Mem(r, off) => Memory::Mem(r, off + n),
            Memory::Global { index, offset: off } => Memory::Global { index, offset: off + n },
        }
    }
}

/// The register named by a memory operand, if it has one.
pub open spec fn spec_mem_used_register(m: Memory) -> Option<Register> {
    match m {
        Memory::Mem(r, _) => Some(r),
        Memory::Global { .. } => None,
    }
}

/// The shifted byte offset stays representable.
pub open spec fn mem_offset_in_range(m: Memory, n: int) -> bool {
    match m {
        Memory::Mem(_, off) => i32::MIN <= off + n <= i32::MAX,
        Memory::Global { offset: off, .. } => i32::MIN <= off + n <= i32::MAX,
    }
}

/// The memory location `n` bytes after `m`.
pub open spec fn spec_mem_offset(m: Memory, n: int) -> Memory {
    match m {
        Memory::Mem(r, off) => Memory::Mem(r, (off + n) as i32),
        Memory::Global { index, offset: off } => Memory::Global { index, offset: (off + n) as i32 },
    }
}

/// A location an instruction reads or writes: a register or a memory place.
#[derive(Clone, Copy, Debug, PartialEq, Eq)]
pub enum Location {
    MemoryL(Memory),
    Reg(Register),
}

impl Location {
    /// The register used to describe this location, if any.
    pub fn used_registers(&self) -> (r: Option<Register>)
        ensures
            r == spec_loc_used_register(*self),
    {
        match self {
            Location::MemoryL(m) => m.used_registers(),
            Location::Reg(r) => Some(*r),
        }
    }

    /// The memory operand, if this location is one.
    pub fn get_memory(&self) -> (r: Option<&Memory>)
        ensures
            match r {
                Some(m) => self is MemoryL && *m == self->MemoryL_0,
                None => self is Reg,
            },
    {
        match self {
            Location::MemoryL(m) => Some(m),
            Location::Reg(_) => None,
        }
    }

    /// The location `n` bytes after this one.
    ///
    /// A register has no byte address, so a register location admits only a
    /// zero shift; see [`Location::checked_offset`] for the rejecting form.
    pub fn offset(&self, n: i32) -> (r: Location)
        requires
            self is Reg ==> n == 0,
            loc_offset_in_range(*self, n as int),
        ensures
            r == spec_loc_offset(*self, n as int),
    {
        match self {
            Location::Reg(_) => *self,
            Location::MemoryL(m) => Location::MemoryL(m.offset(n)),
        }
    }

    /// The location `n` bytes after this one, rejecting the undefined case of
    /// a non-zero shift of a register.
    pub fn checked_offset(&self, n: i32) -> (r: Result<Location, Error>)
        requires
            loc_offset_in_range(*self, n as int),
        ensures
            if self is Reg && n != 0 {
                r == Result::<Location, Error>::Err(Error::InvalidOperand)
            } else {
                r == Result::<Location, Error>::Ok(spec_loc_offset(*self, n as int))
            },
    {
        match self {
            Location::Reg(_) => {
                if n == 0 {
                    Ok(*self)
                } else {
                    Err(Error::InvalidOperand)
                }
            },
            Location::MemoryL(m) => Ok(Location::MemoryL(m.offset(n))),
        }
    }
}

/// The register named by a location, if it has one.
pub open spec fn spec_loc_used_register(l: Location) -> Option<Register> {
    match l {
        Location::MemoryL(m) => spec_mem_used_register(m),
        Location::Reg(r) => Some(r),
    }
}

/// The shifted byte offset stays representable.
pub open spec fn loc_offset_in_range(l: Location, n: int) -> bool {
    match l {
        Location::MemoryL(m) => mem_offset_in_range(m, n),
        Location::Reg(_) => true,
    }
}

/// The location `n` bytes after `l` (identity on registers).
pub open spec fn spec_loc_offset(l: Location, n: int) -> Location {
    match l {
        Location::MemoryL(m) => Location::MemoryL(spec_mem_offset(m, n)),
        Location::Reg(_) => l,
    }
}

/// Construction errors of the backend.
#[derive(Clone, Debug, PartialEq, Eq)]
pub enum Error {
    /// A reference to an undeclared identifier, or a jump to an unknown
    /// block; the offending identifier is carried along.
    MalformedIr(Id),
    /// A non-zero offset was requested of a register location.
    InvalidOperand,
    /// More than one argument or more than one return value was requested of
    /// a call.
    UnsupportedArity,
}

/// Spec-level mirror of [`Error`], with identifiers as character sequences.
pub enum ErrorV {
    MalformedIr(Seq<char>),
    InvalidOperand,
    UnsupportedArity,
}

impl View for Error {
    type V = ErrorV;

    open spec fn view(&self) -> ErrorV {
        match self {
            Error::MalformedIr(id) => ErrorV::MalformedIr(id@),
            Error::InvalidOperand => ErrorV::InvalidOperand,
            Error::UnsupportedArity => ErrorV::UnsupportedArity,
        }
    }
}

/// Conditions for branching and compare pseudo-instructions.
#[derive(Clone, Copy, Debug, PartialEq, Eq, Structural)]
pub enum Condition {
    Equal,
    NotEqual,
    Less,
    LessEq,
    Greater,
    GreaterEq,
}

/// Arithmetic operations of the `Arith` instruction family.
#[derive(Clone, Copy, Debug, PartialEq, Eq, Structural)]
pub enum ArithOp {
    Add,
    Sub,
    Mul,
    Div,
    /// Set if less-than: `dst = 1` if `lhs < rhs`, otherwise `dst = 0`.
    Slt,
    And,
    Or,
    Xor,
    Srl,
    Sra,
    Sll,
}

/// A jump target.
#[derive(Clone, Debug, PartialEq, Eq)]
pub enum JumpTarget {
    /// A basic-block label, scoped to one body; mangled into a globally
    /// unique composite name before emission.
    Local(Id),
    /// A top-level symbol (a runtime support function or the program entry);
    /// rendered verbatim.
    Global(Id),
}

/// Spec-level mirror of [`JumpTarget`].
pub enum JumpTargetV {
    Local(Seq<char>),
    Global(Seq<char>),
}

impl View for JumpTarget {
    type V = JumpTargetV;

    open spec fn view(&self) -> JumpTargetV {
        match self {
            JumpTarget::Local(id) => JumpTargetV::Local(id@),
            JumpTarget::Global(id) => JumpTargetV::Global(id@),
        }
    }
}

/// An RV64G instruction.
#[derive(Clone, Debug, PartialEq, Eq)]
pub enum Instruction {
    /// Load the address of a memory location.
    La { dst: Register, src: Memory },
    /// Load a doubleword.
    Ld { dst: Register, src: Memory },
    /// Store a doubleword.
    Sd { dst: Memory, src: Register },
    /// Load an immediate.
    Li { dst: Register, imm: i64 },
    /// Register-register arithmetic.
    Arith { op: ArithOp, dst: Register, lhs: Register, rhs: Register },
    /// Register-immediate arithmetic.  Forms without a hardware immediate
    /// variant are lowered at emission into an immediate load into a scratch
    /// register followed by the register-register form.
    ArithI { op: ArithOp, dst: Register, lhs: Register, rhs: i32 },
    /// Jump-and-link to a label.
    Jal { dst: Register, target: JumpTarget },
    /// Jump-and-link to an address held in a register.
    Jalr { dst: Register, target: Register },
    /// Conditional branch.
    Branch { cond: Condition, lhs: Register, rhs: Register, target: JumpTarget },
    /// Compare-against-zero pseudo-instruction: `dst = 1` if
    /// `lhs cond 0`, otherwise `dst = 0`.
    SCmpZ { dst: Register, lhs: Register, cond: Condition },
    /// An in-line comment in the output.
    Comment(String),
}

/// Spec-level mirror of [`Instruction`].
pub enum InstrV {
    La { dst: Register, src: Memory },
    Ld { dst: Register, src: Memory },
    Sd { dst: Memory, src: Register },
    Li { dst: Register, imm: i64 },
    Arith { op: ArithOp, dst: Register, lhs: Register, rhs: Register },
    ArithI { op: ArithOp, dst: Register, lhs: Register, rhs: i32 },
    Jal { dst: Register, target: JumpTargetV },
    Jalr { dst: Register, target: Register },
    Branch { cond: Condition, lhs: Register, rhs: Register, target: JumpTargetV },
    SCmpZ { dst: Register, lhs: Register, cond: Condition },
    Comment(Seq<char>),
}

impl View for Instruction {
    type V = InstrV;

    open spec fn view(&self) -> InstrV {
        match self {
            Instruction::La { dst, src } => InstrV::La { dst: *dst, src: *src },
            Instruction::Ld { dst, src } => InstrV::Ld { dst: *dst, src: *src },
            Instruction::Sd { dst, src } => InstrV::Sd { dst: *dst, src: *src },
            Instruction::Li { dst, imm } => InstrV::Li { dst: *dst, imm: *imm },
            Instruction::Arith { op, dst, lhs, rhs } => InstrV::Arith {
                op: *op,
                dst: *dst,
                lhs: *lhs,
                rhs: *rhs,
            },
            Instruction::ArithI { op, dst, lhs, rhs } => InstrV::ArithI {
                op: *op,
                dst: *dst,
                lhs: *lhs,
                rhs: *rhs,
            },
            Instruction::Jal { dst, target } => InstrV::Jal { dst: *dst, target: target@ },
            Instruction::Jalr { dst, target } => InstrV::Jalr { dst: *dst, target: *target },
            Instruction::Branch { cond, lhs, rhs, target } => InstrV::Branch {
                cond: *cond,
                lhs: *lhs,
                rhs: *rhs,
                target: target@,
            },
            Instruction::SCmpZ { dst, lhs, cond } => InstrV::SCmpZ {
                dst: *dst,
                lhs: *lhs,
                cond: *cond,
            },
            Instruction::Comment(s) => InstrV::Comment(s@),
        }
    }
}

/// Every register an instruction reads or writes, in a fixed order, including
/// base registers of memory operands.
pub open spec fn spec_used_registers(i: InstrV) -> Seq<Register> {
    match i {
        InstrV::La { dst, src } => seq![dst] + mem_used_seq(src),
        InstrV::Ld { dst, src } => seq![dst] + mem_used_seq(src),
        InstrV::Sd { dst, src } => mem_used_seq(dst) + seq![src],
        InstrV::Li { dst, .. } => seq![dst],
        InstrV::Arith { dst, lhs, rhs, .. } => seq![dst, lhs, rhs],
        InstrV::ArithI { dst, lhs, .. } => seq![dst, lhs],
        InstrV::Jal { dst, .. } => seq![dst],
        InstrV::Jalr { dst, target } => seq![target, dst],
        InstrV::Branch { lhs, rhs, .. } => seq![lhs, rhs],
        InstrV::SCmpZ { dst, lhs, .. } => seq![lhs, dst],
        InstrV::Comment(_) => Seq::empty(),
    }
}

/// The registers a memory operand names, as a sequence.
pub open spec fn mem_used_seq(m: Memory) -> Seq<Register> {
    match spec_mem_used_register(m) {
        Some(r) => seq![r],
        None => Seq::empty(),
    }
}

/// Does a memory operand's global reference, if it has one, resolve inside
/// a global table of `n` entries?
pub open spec fn mem_globals_ok(m: Memory, n: int) -> bool {
    match m {
        Memory::Global { index, offset } => (index as int) < n,
        Memory::Mem(_, _) => true,
    }
}

/// Do this instruction's global references resolve inside a global table of
/// `n` entries?
pub open spec fn instr_globals_ok(i: InstrV, n: int) -> bool {
    match i {
        InstrV::La { dst, src } => mem_globals_ok(src, n),
        InstrV::Ld { dst, src } => mem_globals_ok(src, n),
        InstrV::Sd { dst, src } => mem_globals_ok(dst, n),
        _ => true,
    }
}

/// Do all global references of a code sequence resolve inside a global
/// table of `n` entries?
pub open spec fn code_globals_ok(code: Seq<InstrV>, n: int) -> bool {
    forall|j: int| 0 <= j < code.len() ==> instr_globals_ok(#[trigger] code[j], n)
}

impl Memory {
    /// Does this operand's global reference, if it has one, resolve inside a
    /// global table of `n` entries?
    pub fn globals_ok(&self, n: usize) -> (r: bool)
        ensures
            r == mem_globals_ok(*self, n as int),
    {
        match self {
            Memory::Global { index, offset } => *index < n,
            Memory::Mem(_, _) => true,
        }
    }
}

impl Instruction {
    /// Do this instruction's global references resolve inside a global
    /// table of `n` entries?
    pub fn globals_ok(&self, n: usize) -> (r: bool)
        ensures
            r == instr_globals_ok(self@, n as int),
    {
        match self {
            Instruction::La { dst, src } => src.globals_ok(n),
            Instruction::Ld { dst, src } => src.globals_ok(n),
            Instruction::Sd { dst, src } => dst.globals_ok(n),
            _ => true,
        }
    }

    /// Every register this instruction reads or writes, including base
    /// registers of memory operands.
    pub fn used_registers(&self) -> (r: Vec<Register>)
        ensures
            r@ == spec_used_registers(self@),
    {
        let mut out: Vec<Register> = Vec::new();
        match self {
            Instruction::La { dst, src } => {
                out.push(*dst);
                push_mem_used(&mut out, src);
            },
            Instruction::Ld { dst, src } => {
                out.push(*dst);
                push_mem_used(&mut out, src);
            },
            Instruction::Sd { dst, src } => {
                push_mem_used(&mut out, dst);
                out.push(*src);
            },
            Instruction::Li { dst, .. } => {
                out.push(*dst);
            },
            Instruction::Arith { dst, lhs, rhs, .. } => {
                out.push(*dst);
                out.push(*lhs);
                out.push(*rhs);
            },
            Instruction::ArithI { dst, lhs, .. } => {
                out.push(*dst);
                out.push(*lhs);
            },
            Instruction::Jal { dst, .. } => {
                out.push(*dst);
            },
            Instruction::Jalr { dst, target } => {
                out.push(*target);
                out.push(*dst);
            },
            Instruction::Branch { lhs, rhs, .. } => {
                out.push(*lhs);
                out.push(*rhs);
            },
            Instruction::SCmpZ { dst, lhs, .. } => {
                out.push(*lhs);
                out.push(*dst);
            },
            Instruction::Comment(_) => {},
        }
        proof {
            assert(out@ =~= spec_used_registers(self@));
        }
        out
    }

    /// A jump that does not save the return address: its link destination is
    /// the zero register.
    pub fn jump(target: JumpTarget) -> (r: Instruction)
        ensures
            r@ == (InstrV::Jal { dst: Register::Zero, target: target@ }),
    {
        Instruction::Jal { dst: Register::Zero, target }
    }

    /// A direct call: jump to a global symbol, saving the return address in
    /// the return-address register.
    pub fn call(callee: Id) -> (r: Instruction)
        ensures
            r@ == (InstrV::Jal { dst: Register::Ra, target: JumpTargetV::Global(callee@) }),
    {
        Instruction::Jal { dst: Register::Ra, target: JumpTarget::Global(callee) }
    }

    /// A register-to-register move, synthesized as "add immediate zero".
    pub fn mov(dst: Register, src: Register) -> (r: Instruction)
        ensures
            r@ == (InstrV::ArithI { op: ArithOp::Add, dst: dst, lhs: src, rhs: 0 }),
    {
        Instruction::ArithI { op: ArithOp::Add, dst, lhs: src, rhs: 0 }
    }

    /// One instruction that brings the value of a location into a register: a
    /// move if the source is a register, else a load.
    pub fn read(dst: Register, src: Location) -> (r: Instruction)
        ensures
            r@ == spec_read(dst, src),
    {
        match src {
            Location::Reg(r) => Self::mov(dst, r),
            Location::MemoryL(src) => Instruction::Ld { dst, src },
        }
    }

    /// One instruction that puts a register's value into a location: a move
    /// if the destination is a register, else a store.
    pub fn write(dst: Location, src: Register) -> (r: Instruction)
        ensures
            r@ == spec_write(dst, src),
    {
        match dst {
            Location::Reg(r) => Self::mov(r, src),
            Location::MemoryL(dst) => Instruction::Sd { dst, src },
        }
    }
}

/// The single instruction materializing a location's value into a register.
pub open spec fn spec_read(dst: Register, src: Location) -> InstrV {
    match src {
        Location::Reg(r) => InstrV::ArithI { op: ArithOp::Add, dst: dst, lhs: r, rhs: 0 },
        Location::MemoryL(m) => InstrV::Ld { dst: dst, src: m },
    }
}

/// The single instruction writing a register's value into a location.
pub open spec fn spec_write(dst: Location, src: Register) -> InstrV {
    match dst {
        Location::Reg(r) => InstrV::ArithI { op: ArithOp::Add, dst: r, lhs: src, rhs: 0 },
        Location::MemoryL(m) => InstrV::Sd { dst: m, src: src },
    }
}

fn push_mem_used(out: &mut Vec<Register>, m: &Memory)
    ensures
        final(out)@ == old(out)@ + mem_used_seq(*m),
{
    match m.used_registers() {
        Some(r) => {
            out.push(r);
        },
        None => {
            proof {
                assert(final(out)@ =~= old(out)@ + mem_used_seq(*m));
            }
        },
    }
    proof {
        assert(final(out)@ =~= old(out)@ + mem_used_seq(*m));
    }
}

/// A basic block: a label and its straight-line instruction sequence.
#[derive(Debug, PartialEq, Eq)]
pub struct BasicBlock {
    pub id: Id,
    pub instructions: Vec<Instruction>,
}

/// Spec-level mirror of [`BasicBlock`].
pub struct BasicBlockV {
    pub id: Seq<char>,
    pub instructions: Seq<InstrV>,
}

impl View for BasicBlock {
    type V = BasicBlockV;

    open spec fn view(&self) -> BasicBlockV {
        BasicBlockV { id: self.id@, instructions: self.instructions@.map(|i, x: Instruction| x@) }
    }
}

/// A backend program: the entry symbol, one basic block per IR block, the
/// frame size, the global-symbol table, and the callee-saved registers the
/// body uses (which drives prologue/epilogue save/restore code).
#[derive(Debug, PartialEq, Eq)]
pub struct Program {
    pub id: Id,
    pub basic_blocks: Vec<BasicBlock>,
    pub stack_space: i32,
    pub globals: Vec<Id>,
    pub used_registers: Vec<Register>,
}

/// Spec-level mirror of [`Program`].
pub struct ProgramV {
    pub id: Seq<char>,
    pub basic_blocks: Seq<BasicBlockV>,
    pub stack_space: int,
    pub globals: Seq<Seq<char>>,
    pub used_registers: Seq<Register>,
}

impl View for Program {
    type V = ProgramV;

    open spec fn view(&self) -> ProgramV {
        ProgramV {
            id: self.id@,
            basic_blocks: self.basic_blocks@.map(|i, b: BasicBlock| b@),
            stack_space: self.stack_space as int,
            globals: self.globals@.map(|i, g: Id| g@),
            used_registers: self.used_registers@,
        }
    }
}

} // verus!
