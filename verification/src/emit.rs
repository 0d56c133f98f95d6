//! The assembler/printer: serializes a backend [`Program`] to RV64G assembly
//! text.
//!
//! The printer wraps the generated body in an ABI prologue and relies on the
//! epilogue sequence that block generation placed before each return.  Local
//! labels are mangled into a composite of the owning scope and the local
//! name, so identically named blocks of different scopes never collide in the
//! flat output namespace.  Output is one label or instruction per line;
//! identical programs always render to identical text.

use vstd::prelude::*;

use crate::ident::Id;
use crate::ident::id_wf;
use crate::rv64::ArithOp;
use crate::rv64::BasicBlock;
use crate::rv64::BasicBlockV;
use crate::rv64::Condition;
use crate::rv64::InstrV;
use crate::rv64::Instruction;
use crate::rv64::JumpTarget;
use crate::rv64::JumpTargetV;
use crate::rv64::Memory;
use crate::rv64::Program;
use crate::rv64::ProgramV;
use crate::rv64::Register;
use crate::rv64::code_globals_ok;
use crate::rv64::spec_is_callee_saved;
use crate::text::append_dec;
use crate::text::append_int;
use crate::text::append_int32;
use crate::text::append_hex;
use crate::text::dec_str;
use crate::text::hex_str;
use crate::text::int_str;

verus! {

/// The printed name of a register.
pub open spec fn reg_name(r: Register) -> Seq<char> {
    match r {
        Register::Zero => "zero"@,
        Register::Ra => "ra"@,
        Register::Sp => "sp"@,
        Register::Gp => "gp"@,
        Register::Tp => "tp"@,
        Register::T0 => "t0"@,
        Register::T1 => "t1"@,
        Register::T2 => "t2"@,
        Register::Fp => "fp"@,
        Register::S1 => "s1"@,
        Register::A0 => "a0"@,
        Register::A1 => "a1"@,
        Register::A2 => "a2"@,
        Register::A3 => "a3"@,
        Register::A4 => "a4"@,
        Register::A5 => "a5"@,
        Register::A6 => "a6"@,
        Register::A7 => "a7"@,
        Register::S2 => "s2"@,
        Register::S3 => "s3"@,
        Register::S4 => "s4"@,
        Register::S5 => "s5"@,
        Register::S6 => "s6"@,
        Register::S7 => "s7"@,
        Register::S8 => "s8"@,
        Register::S9 => "s9"@,
        Register::S10 => "s10"@,
        Register::S11 => "s11"@,
        Register::T3 => "t3"@,
        Register::T4 => "t4"@,
        Register::T5 => "t5"@,
        Register::T6 => "t6"@,
    }
}

/// The mnemonic stem of an arithmetic operation.
pub open spec fn arith_name(op: ArithOp) -> Seq<char> {
    match op {
        ArithOp::Add => "add"@,
        ArithOp::Sub => "sub"@,
        ArithOp::Mul => "mul"@,
        ArithOp::Div => "div"@,
        ArithOp::Slt => "slt"@,
        ArithOp::And => "and"@,
        ArithOp::Or => "or"@,
        ArithOp::Xor => "xor"@,
        ArithOp::Srl => "srl"@,
        ArithOp::Sra => "sra"@,
        ArithOp::Sll => "sll"@,
    }
}

/// The condition code of a branch or compare pseudo-instruction.
pub open spec fn cond_name(c: Condition) -> Seq<char> {
    match c {
        Condition::Equal => "eq"@,
        Condition::NotEqual => "ne"@,
        Condition::Less => "lt"@,
        Condition::LessEq => "le"@,
        Condition::Greater => "gt"@,
        Condition::GreaterEq => "ge"@,
    }
}

/// Does the operation have a hardware register-immediate form in RV64G?
///
/// The others (`sub`, `mul`, `div`) are lowered at emission into an immediate
/// load into the scratch register `t6` followed by the register-register
/// form; generated code never uses `t6` otherwise, so the scratch value is
/// never live across this lowering boundary.
pub open spec fn has_imm_form(op: ArithOp) -> bool {
    match op {
        ArithOp::Add | ArithOp::Slt | ArithOp::And | ArithOp::Or | ArithOp::Xor | ArithOp::Srl
            | ArithOp::Sra | ArithOp::Sll => true,
        ArithOp::Sub | ArithOp::Mul | ArithOp::Div => false,
    }
}

/// The debug-escaped form of one comment character: quotes and backslashes
/// are escaped, the common control characters get their letter escapes, and
/// any other control character becomes a `\u{...}` escape.  An escaped
/// character therefore never holds a raw newline.
pub open spec fn esc_char(c: char) -> Seq<char> {
    if c == '"' {
        seq!['\\', '"']
    } else if c == '\\' {
        seq!['\\', '\\']
    } else if c == '\n' {
        seq!['\\', 'n']
    } else if c == '\r' {
        seq!['\\', 'r']
    } else if c == '\t' {
        seq!['\\', 't']
    } else if (c as u32) < 0x20 || (c as u32) == 0x7f {
        "\\u{"@ + hex_str((c as u32) as nat) + seq!['}']
    } else {
        seq![c]
    }
}

/// The debug-escaped form of a comment text from position `i` on.
pub open spec fn escape_from(s: Seq<char>, i: int) -> Seq<char>
    decreases s.len() - i,
{
    if i < 0 || i >= s.len() {
        Seq::empty()
    } else {
        esc_char(s[i]) + escape_from(s, i + 1)
    }
}

/// The debug-escaped form of a comment text.
pub open spec fn escape_str(s: Seq<char>) -> Seq<char> {
    escape_from(s, 0)
}

/// Hexadecimal numerals hold no newline.
proof fn lemma_hex_str_no_newline(n: nat)
    ensures
        forall|j: int| 0 <= j < hex_str(n).len() ==> hex_str(n)[j] != '\n',
    decreases n,
{
    assert(forall|d: nat| crate::text::hex_digit_char(d) != '\n');
    if n < 16 {
        assert(hex_str(n) =~= seq![crate::text::hex_digit_char(n)]);
        assert(hex_str(n)[0] != '\n');
    } else {
        lemma_hex_str_no_newline(n / 16);
        assert forall|j: int| 0 <= j < hex_str(n).len() implies hex_str(n)[j] != '\n' by {
            assert(hex_str(n) == hex_str(n / 16).push(crate::text::hex_digit_char(n % 16)));
            if j < hex_str(n / 16).len() {
                assert(hex_str(n)[j] == hex_str(n / 16)[j]);
            } else {
                assert(hex_str(n)[j] == crate::text::hex_digit_char(n % 16));
            }
        }
    }
}

/// An escaped character holds no newline.
proof fn lemma_esc_char_no_newline(c: char)
    ensures
        forall|j: int| 0 <= j < esc_char(c).len() ==> esc_char(c)[j] != '\n',
{
    reveal_strlit("\\u{");
    if !(c == '"' || c == '\\' || c == '\n' || c == '\r' || c == '\t') && ((c as u32) < 0x20 || (
    c as u32) == 0x7f) {
        lemma_hex_str_no_newline((c as u32) as nat);
    }
}

/// Comments stay on one line: the debug-escaped form of any comment text
/// holds no newline, so a comment always renders as a single `#`-prefixed
/// line whatever its text holds.
pub proof fn lemma_escape_no_newline(s: Seq<char>, i: int)
    ensures
        forall|j: int| 0 <= j < escape_from(s, i).len() ==> escape_from(s, i)[j] != '\n',
    decreases s.len() - i,
{
    if 0 <= i < s.len() {
        lemma_esc_char_no_newline(s[i]);
        lemma_escape_no_newline(s, i + 1);
        assert forall|j: int| 0 <= j < escape_from(s, i).len() implies escape_from(s, i)[j]
            != '\n' by {
            assert(escape_from(s, i) == esc_char(s[i]) + escape_from(s, i + 1));
            if j < esc_char(s[i]).len() {
                assert(escape_from(s, i)[j] == esc_char(s[i])[j]);
            } else {
                assert(escape_from(s, i)[j] == escape_from(s, i + 1)[j - esc_char(s[i]).len()]);
            }
        }
    }
}

/// The printed form of a memory operand: `offset(register)`, or
/// `offset(global#index)` for a global-table reference whose address
/// materialization is deferred to a later stage.
pub open spec fn mem_str(m: Memory) -> Seq<char> {
    match m {
        Memory::Mem(r, off) => int_str(off as int) + "("@ + reg_name(r) + ")"@,
        Memory::Global { index, offset } => int_str(offset as int) + "(global#"@ + dec_str(
            index as nat,
        ) + ")"@,
    }
}

/// The globally unique composite name of a local label: the owning scope and
/// the local name, joined by separators that cannot occur in identifiers.
pub open spec fn mangle(scope: Seq<char>, local: Seq<char>) -> Seq<char> {
    ".L"@ + scope + "."@ + local
}

/// The printed form of a jump target: mangled for local labels, verbatim for
/// global symbols.
pub open spec fn target_str(scope: Seq<char>, t: JumpTargetV) -> Seq<char> {
    match t {
        JumpTargetV::Local(l) => mangle(scope, l),
        JumpTargetV::Global(g) => g,
    }
}

/// The printed line (or lines) of one instruction, each ending in a newline.
pub open spec fn instr_str(scope: Seq<char>, i: InstrV) -> Seq<char> {
    match i {
        InstrV::La { dst, src } => "la "@ + reg_name(dst) + ", "@ + mem_str(src) + "\n"@,
        InstrV::Ld { dst, src } => "ld "@ + reg_name(dst) + ", "@ + mem_str(src) + "\n"@,
        InstrV::Sd { dst, src } => "sd "@ + reg_name(src) + ", "@ + mem_str(dst) + "\n"@,
        InstrV::Li { dst, imm } => "li "@ + reg_name(dst) + ", "@ + int_str(imm as int) + "\n"@,
        InstrV::Arith { op, dst, lhs, rhs } => arith_name(op) + " "@ + reg_name(dst) + ", "@
            + reg_name(lhs) + ", "@ + reg_name(rhs) + "\n"@,
        InstrV::ArithI { op, dst, lhs, rhs } => if has_imm_form(op) {
            arith_name(op) + "i "@ + reg_name(dst) + ", "@ + reg_name(lhs) + ", "@ + int_str(
                rhs as int,
            ) + "\n"@
        } else {
            "li t6, "@ + int_str(rhs as int) + "\n"@ + arith_name(op) + " "@ + reg_name(dst) + ", "@
                + reg_name(lhs) + ", t6\n"@
        },
        InstrV::Jal { dst, target } => "jal "@ + reg_name(dst) + ", "@ + target_str(scope, target)
            + "\n"@,
        InstrV::Jalr { dst, target } => "jalr "@ + reg_name(dst) + ", "@ + reg_name(target) + "\n"@,
        InstrV::Branch { cond, lhs, rhs, target } => "b"@ + cond_name(cond) + " "@ + reg_name(lhs)
            + ", "@ + reg_name(rhs) + ", "@ + target_str(scope, target) + "\n"@,
        InstrV::SCmpZ { dst, lhs, cond } => "s"@ + cond_name(cond) + "z "@ + reg_name(dst) + ", "@
            + reg_name(lhs) + "\n"@,
        InstrV::Comment(s) => "# \""@ + escape_str(s) + "\"\n"@,
    }
}

/// The printed lines of the instructions of `sq` from position `i` on.
pub open spec fn instrs_from(scope: Seq<char>, sq: Seq<InstrV>, i: int) -> Seq<char>
    decreases sq.len() - i,
{
    if i < 0 || i >= sq.len() {
        Seq::empty()
    } else {
        instr_str(scope, sq[i]) + instrs_from(scope, sq, i + 1)
    }
}

/// The printed form of one basic block: its mangled label, then its
/// instructions.
pub open spec fn block_str(scope: Seq<char>, b: BasicBlockV) -> Seq<char> {
    mangle(scope, b.id) + ":\n"@ + instrs_from(scope, b.instructions, 0)
}

/// The printed blocks of `bs` from position `i` on.
pub open spec fn blocks_from(scope: Seq<char>, bs: Seq<BasicBlockV>, i: int) -> Seq<char>
    decreases bs.len() - i,
{
    if i < 0 || i >= bs.len() {
        Seq::empty()
    } else {
        block_str(scope, bs[i]) + blocks_from(scope, bs, i + 1)
    }
}

/// The instructions of the ABI prologue: save the caller's frame pointer,
/// establish the new frame pointer from the stack pointer, reserve the frame,
/// then save every callee-saved register the body uses.
pub open spec fn prologue_instrs(space: int, used: Seq<Register>) -> Seq<InstrV> {
    seq![
        InstrV::Sd { dst: Memory::Mem(Register::Sp, (-8) as i32), src: Register::Fp },
        InstrV::ArithI { op: ArithOp::Add, dst: Register::Fp, lhs: Register::Sp, rhs: 0 },
        InstrV::ArithI { op: ArithOp::Add, dst: Register::Sp, lhs: Register::Sp, rhs: (-space) as i32 },
    ] + save_seq(used)
}

/// The save sequence of the prologue: the `j`-th used callee-saved register
/// goes to the `j`-th slot at the bottom of the frame.
pub open spec fn save_seq(used: Seq<Register>) -> Seq<InstrV> {
    Seq::new(
        used.len(),
        |j: int| InstrV::Sd { dst: Memory::Mem(Register::Sp, (8 * j) as i32), src: used[j] },
    )
}

/// The restore sequence of the epilogue: the saved registers, reloaded from
/// their slots in reverse order of saving.
pub open spec fn restore_seq(used: Seq<Register>) -> Seq<InstrV> {
    Seq::new(
        used.len(),
        |j: int|
            InstrV::Ld {
                dst: used[used.len() - 1 - j],
                src: Memory::Mem(Register::Sp, (8 * (used.len() - 1 - j)) as i32),
            },
    )
}

/// The instructions of the ABI epilogue: restore the saved callee-saved
/// registers in reverse order, restore the stack pointer and the caller's
/// frame pointer, and return through the return-address register.
pub open spec fn epilogue_instrs(used: Seq<Register>) -> Seq<InstrV> {
    restore_seq(used) + seq![
        InstrV::ArithI { op: ArithOp::Add, dst: Register::Sp, lhs: Register::Fp, rhs: 0 },
        InstrV::Ld { dst: Register::Fp, src: Memory::Mem(Register::Sp, (-8) as i32) },
        InstrV::Jalr { dst: Register::Zero, target: Register::Ra },
    ]
}

impl ProgramV {
    /// Well-formedness of a backend program: the frame size is a
    /// non-negative multiple of 16, the entry symbol and every block label
    /// are shaped like identifiers (which keeps mangled names unambiguous),
    /// every global memory operand's index resolves inside the global table,
    /// and the save list holds at most the distinct general-purpose
    /// callee-saved registers.
    pub open spec fn wf(self) -> bool {
        &&& 0 <= self.stack_space <= i32::MAX
        &&& self.stack_space % 16 == 0
        &&& id_wf(self.id)
        &&& forall|j: int| 0 <= j < self.basic_blocks.len() ==> id_wf((#[trigger] self.basic_blocks[j]).id)
        &&& forall|j: int|
            0 <= j < self.basic_blocks.len() ==> code_globals_ok(
                (#[trigger] self.basic_blocks[j]).instructions,
                self.globals.len() as int,
            )
        &&& self.used_registers.len() <= 11
        &&& forall|j: int|
            0 <= j < self.used_registers.len() ==> spec_is_callee_saved(
                #[trigger] self.used_registers[j],
            )
        &&& forall|j: int, k: int|
            0 <= j < k < self.used_registers.len() ==> self.used_registers[j]
                != self.used_registers[k]
    }
}

/// The full printed program: the entry label, the prologue, then every basic
/// block in the stable order the generator fixed.
pub open spec fn render_program(p: ProgramV) -> Seq<char> {
    p.id + ":\n"@ + instrs_from(p.id, prologue_instrs(p.stack_space, p.used_registers), 0)
        + blocks_from(p.id, p.basic_blocks, 0)
}

/// Append the printed name of a register.
pub fn append_reg(s: &mut String, r: Register)
    ensures
        final(s)@ == old(s)@ + reg_name(r),
{
    match r {
        Register::Zero => s.append("zero"),
        Register::Ra => s.append("ra"),
        Register::Sp => s.append("sp"),
        Register::Gp => s.append("gp"),
        Register::Tp => s.append("tp"),
        Register::T0 => s.append("t0"),
        Register::T1 => s.append("t1"),
        Register::T2 => s.append("t2"),
        Register::Fp => s.append("fp"),
        Register::S1 => s.append("s1"),
        Register::A0 => s.append("a0"),
        Register::A1 => s.append("a1"),
        Register::A2 => s.append("a2"),
        Register::A3 => s.append("a3"),
        Register::A4 => s.append("a4"),
        Register::A5 => s.append("a5"),
        Register::A6 => s.append("a6"),
        Register::A7 => s.append("a7"),
        Register::S2 => s.append("s2"),
        Register::S3 => s.append("s3"),
        Register::S4 => s.append("s4"),
        Register::S5 => s.append("s5"),
        Register::S6 => s.append("s6"),
        Register::S7 => s.append("s7"),
        Register::S8 => s.append("s8"),
        Register::S9 => s.append("s9"),
        Register::S10 => s.append("s10"),
        Register::S11 => s.append("s11"),
        Register::T3 => s.append("t3"),
        Register::T4 => s.append("t4"),
        Register::T5 => s.append("t5"),
        Register::T6 => s.append("t6"),
    }
}

/// Append the mnemonic stem of an arithmetic operation.
pub fn append_arith_name(s: &mut String, op: ArithOp)
    ensures
        final(s)@ == old(s)@ + arith_name(op),
{
    match op {
        ArithOp::Add => s.append("add"),
        ArithOp::Sub => s.append("sub"),
        ArithOp::Mul => s.append("mul"),
        ArithOp::Div => s.append("div"),
        ArithOp::Slt => s.append("slt"),
        ArithOp::And => s.append("and"),
        ArithOp::Or => s.append("or"),
        ArithOp::Xor => s.append("xor"),
        ArithOp::Srl => s.append("srl"),
        ArithOp::Sra => s.append("sra"),
        ArithOp::Sll => s.append("sll"),
    }
}

/// Append the condition code of a branch or compare pseudo-instruction.
pub fn append_cond_name(s: &mut String, c: Condition)
    ensures
        final(s)@ == old(s)@ + cond_name(c),
{
    match c {
        Condition::Equal => s.append("eq"),
        Condition::NotEqual => s.append("ne"),
        Condition::Less => s.append("lt"),
        Condition::LessEq => s.append("le"),
        Condition::Greater => s.append("gt"),
        Condition::GreaterEq => s.append("ge"),
    }
}

/// Append the printed form of a memory operand.
pub fn append_mem(s: &mut String, m: &Memory)
    ensures
        final(s)@ == old(s)@ + mem_str(*m),
{
    match m {
        Memory::Mem(r, off) => {
            append_int32(s, *off);
            s.append("(");
            append_reg(s, *r);
            s.append(")");
            proof {
                assert(final(s)@ =~= old(s)@ + mem_str(*m));
            }
        },
        Memory::Global { index, offset } => {
            append_int32(s, *offset);
            s.append("(global#");
            append_dec(s, *index as u64);
            s.append(")");
            proof {
                assert(final(s)@ =~= old(s)@ + mem_str(*m));
            }
        },
    }
}

/// Append the mangled composite name of a local label.
pub fn append_mangled(s: &mut String, scope: &Id, local: &Id)
    ensures
        final(s)@ == old(s)@ + mangle(scope@, local@),
{
    s.append(".L");
    s.append(scope.as_str());
    s.append(".");
    s.append(local.as_str());
    proof {
        assert(final(s)@ =~= old(s)@ + mangle(scope@, local@));
    }
}

/// Append the printed form of a jump target.
pub fn append_target(s: &mut String, scope: &Id, t: &JumpTarget)
    ensures
        final(s)@ == old(s)@ + target_str(scope@, t@),
{
    match t {
        JumpTarget::Local(l) => append_mangled(s, scope, l),
        JumpTarget::Global(g) => s.append(g.as_str()),
    }
}

/// Append the line of a load-address, load or store instruction.
#[verifier::rlimit(50)]
fn append_mem_op(s: &mut String, stem: &str, reg: Register, m: &Memory)
    ensures
        final(s)@ == old(s)@ + (stem@ + reg_name(reg) + ", "@ + mem_str(*m) + "\n"@),
{
    s.append(stem);
    append_reg(s, reg);
    s.append(", ");
    append_mem(s, m);
    s.append("\n");
    proof {
        assert(final(s)@ =~= old(s)@ + (stem@ + reg_name(reg) + ", "@ + mem_str(*m) + "\n"@));
    }
}

/// Append the line of a load-immediate instruction.
fn append_li(s: &mut String, dst: Register, imm: i64)
    ensures
        final(s)@ == old(s)@ + ("li "@ + reg_name(dst) + ", "@ + int_str(imm as int) + "\n"@),
{
    s.append("li ");
    append_reg(s, dst);
    s.append(", ");
    append_int(s, imm);
    s.append("\n");
    proof {
        assert(final(s)@ =~= old(s)@ + ("li "@ + reg_name(dst) + ", "@ + int_str(imm as int)
            + "\n"@));
    }
}

/// Append the line of a register-register arithmetic instruction.
#[verifier::rlimit(50)]
fn append_arith(s: &mut String, op: ArithOp, dst: Register, lhs: Register, rhs: Register)
    ensures
        final(s)@ == old(s)@ + (arith_name(op) + " "@ + reg_name(dst) + ", "@ + reg_name(lhs)
            + ", "@ + reg_name(rhs) + "\n"@),
{
    append_arith_name(s, op);
    s.append(" ");
    append_reg(s, dst);
    s.append(", ");
    append_reg(s, lhs);
    s.append(", ");
    append_reg(s, rhs);
    s.append("\n");
    proof {
        assert(final(s)@ =~= old(s)@ + (arith_name(op) + " "@ + reg_name(dst) + ", "@ + reg_name(
            lhs,
        ) + ", "@ + reg_name(rhs) + "\n"@));
    }
}

/// Append the line (or lowered lines) of a register-immediate arithmetic
/// instruction.
#[verifier::rlimit(50)]
fn append_arith_imm(s: &mut String, op: ArithOp, dst: Register, lhs: Register, rhs: i32)
    ensures
        final(s)@ == old(s)@ + (if has_imm_form(op) {
            arith_name(op) + "i "@ + reg_name(dst) + ", "@ + reg_name(lhs) + ", "@ + int_str(
                rhs as int,
            ) + "\n"@
        } else {
            "li t6, "@ + int_str(rhs as int) + "\n"@ + arith_name(op) + " "@ + reg_name(dst)
                + ", "@ + reg_name(lhs) + ", t6\n"@
        }),
{
    let imm_form = match op {
        ArithOp::Add | ArithOp::Slt | ArithOp::And | ArithOp::Or | ArithOp::Xor | ArithOp::Srl
            | ArithOp::Sra | ArithOp::Sll => true,
        ArithOp::Sub | ArithOp::Mul | ArithOp::Div => false,
    };
    if imm_form {
        append_arith_name(s, op);
        s.append("i ");
        append_reg(s, dst);
        s.append(", ");
        append_reg(s, lhs);
        s.append(", ");
        append_int32(s, rhs);
        s.append("\n");
        proof {
            assert(final(s)@ =~= old(s)@ + (arith_name(op) + "i "@ + reg_name(dst) + ", "@
                + reg_name(lhs) + ", "@ + int_str(rhs as int) + "\n"@));
        }
    } else {
        s.append("li t6, ");
        append_int32(s, rhs);
        s.append("\n");
        append_arith_name(s, op);
        s.append(" ");
        append_reg(s, dst);
        s.append(", ");
        append_reg(s, lhs);
        s.append(", t6\n");
        proof {
            assert(final(s)@ =~= old(s)@ + ("li t6, "@ + int_str(rhs as int) + "\n"@ + arith_name(
                op,
            ) + " "@ + reg_name(dst) + ", "@ + reg_name(lhs) + ", t6\n"@));
        }
    }
}

/// Append the line of a jump-and-link instruction.
#[verifier::rlimit(50)]
fn append_jal(s: &mut String, scope: &Id, dst: Register, target: &JumpTarget)
    ensures
        final(s)@ == old(s)@ + ("jal "@ + reg_name(dst) + ", "@ + target_str(scope@, target@)
            + "\n"@),
{
    s.append("jal ");
    append_reg(s, dst);
    s.append(", ");
    append_target(s, scope, target);
    s.append("\n");
    proof {
        assert(final(s)@ =~= old(s)@ + ("jal "@ + reg_name(dst) + ", "@ + target_str(
            scope@,
            target@,
        ) + "\n"@));
    }
}

/// Append the line of an indirect jump-and-link instruction.
fn append_jalr(s: &mut String, dst: Register, target: Register)
    ensures
        final(s)@ == old(s)@ + ("jalr "@ + reg_name(dst) + ", "@ + reg_name(target) + "\n"@),
{
    s.append("jalr ");
    append_reg(s, dst);
    s.append(", ");
    append_reg(s, target);
    s.append("\n");
    proof {
        assert(final(s)@ =~= old(s)@ + ("jalr "@ + reg_name(dst) + ", "@ + reg_name(target)
            + "\n"@));
    }
}

/// Append the line of a conditional branch.
#[verifier::rlimit(50)]
fn append_branch(s: &mut String, scope: &Id, cond: Condition, lhs: Register, rhs: Register, target: &JumpTarget)
    ensures
        final(s)@ == old(s)@ + ("b"@ + cond_name(cond) + " "@ + reg_name(lhs) + ", "@ + reg_name(
            rhs,
        ) + ", "@ + target_str(scope@, target@) + "\n"@),
{
    s.append("b");
    append_cond_name(s, cond);
    s.append(" ");
    append_reg(s, lhs);
    s.append(", ");
    append_reg(s, rhs);
    s.append(", ");
    append_target(s, scope, target);
    s.append("\n");
    proof {
        assert(final(s)@ =~= old(s)@ + ("b"@ + cond_name(cond) + " "@ + reg_name(lhs) + ", "@
            + reg_name(rhs) + ", "@ + target_str(scope@, target@) + "\n"@));
    }
}

/// Append the line of a compare-against-zero pseudo-instruction.
#[verifier::rlimit(50)]
fn append_scmpz(s: &mut String, dst: Register, lhs: Register, cond: Condition)
    ensures
        final(s)@ == old(s)@ + ("s"@ + cond_name(cond) + "z "@ + reg_name(dst) + ", "@ + reg_name(
            lhs,
        ) + "\n"@),
{
    s.append("s");
    append_cond_name(s, cond);
    s.append("z ");
    append_reg(s, dst);
    s.append(", ");
    append_reg(s, lhs);
    s.append("\n");
    proof {
        assert(final(s)@ =~= old(s)@ + ("s"@ + cond_name(cond) + "z "@ + reg_name(dst) + ", "@
            + reg_name(lhs) + "\n"@));
    }
}

/// Append a comment line.
/// Append the debug-escaped form of the text from character `i` on.
fn append_escaped_from(out: &mut String, t: &str, i: usize)
    requires
        i <= t@.len(),
    ensures
        final(out)@ == old(out)@ + escape_from(t@, i as int),
    decreases t@.len() - i,
{
    let n = t.unicode_len();
    if i == n {
        proof {
            assert(final(out)@ =~= old(out)@ + escape_from(t@, i as int));
        }
        return ;
    }
    let c = t.get_char(i);
    if c == '"' {
        out.append("\\\"");
        proof {
            reveal_strlit("\\\"");
            assert("\\\""@ =~= esc_char(c));
        }
    } else if c == '\\' {
        out.append("\\\\");
        proof {
            reveal_strlit("\\\\");
            assert("\\\\"@ =~= esc_char(c));
        }
    } else if c == '\n' {
        out.append("\\n");
        proof {
            reveal_strlit("\\n");
            assert("\\n"@ =~= esc_char(c));
        }
    } else if c == '\r' {
        out.append("\\r");
        proof {
            reveal_strlit("\\r");
            assert("\\r"@ =~= esc_char(c));
        }
    } else if c == '\t' {
        out.append("\\t");
        proof {
            reveal_strlit("\\t");
            assert("\\t"@ =~= esc_char(c));
        }
    } else {
        let u = c as u32;
        if u < 0x20 || u == 0x7f {
            let ghost before = out@;
            out.append("\\u{");
            append_hex(out, u);
            out.append("}");
            proof {
                reveal_strlit("}");
                assert("}"@ =~= seq!['}']);
                assert(out@ =~= before + esc_char(c));
            }
        } else {
            let piece = t.substring_char(i, i + 1);
            out.append(piece);
            proof {
                assert(piece@ =~= seq![t@[i as int]]);
                assert(esc_char(c) == seq![c]);
            }
        }
    }
    let ghost mid = out@;
    proof {
        assert(mid == old(out)@ + esc_char(t@[i as int]));
    }
    append_escaped_from(out, t, i + 1);
    proof {
        assert(final(out)@ =~= old(out)@ + escape_from(t@, i as int));
    }
}

/// Append a comment line: the text in debug-quoted, escaped form, so that a
/// comment always stays on one `#`-prefixed line.
fn append_comment(s: &mut String, text: &String)
    ensures
        final(s)@ == old(s)@ + ("# \""@ + escape_str(text@) + "\"\n"@),
{
    s.append("# \"");
    append_escaped_from(s, text.as_str(), 0);
    s.append("\"\n");
    proof {
        assert(final(s)@ =~= old(s)@ + ("# \""@ + escape_str(text@) + "\"\n"@));
    }
}

/// Append the printed line (or lines) of one instruction.
pub fn append_instr(s: &mut String, scope: &Id, i: &Instruction)
    ensures
        final(s)@ == old(s)@ + instr_str(scope@, i@),
{
    match i {
        Instruction::La { dst, src } => append_mem_op(s, "la ", *dst, src),
        Instruction::Ld { dst, src } => append_mem_op(s, "ld ", *dst, src),
        Instruction::Sd { dst, src } => append_mem_op(s, "sd ", *src, dst),
        Instruction::Li { dst, imm } => append_li(s, *dst, *imm),
        Instruction::Arith { op, dst, lhs, rhs } => append_arith(s, *op, *dst, *lhs, *rhs),
        Instruction::ArithI { op, dst, lhs, rhs } => append_arith_imm(s, *op, *dst, *lhs, *rhs),
        Instruction::Jal { dst, target } => append_jal(s, scope, *dst, target),
        Instruction::Jalr { dst, target } => append_jalr(s, *dst, *target),
        Instruction::Branch { cond, lhs, rhs, target } => append_branch(
            s,
            scope,
            *cond,
            *lhs,
            *rhs,
            target,
        ),
        Instruction::SCmpZ { dst, lhs, cond } => append_scmpz(s, *dst, *lhs, *cond),
        Instruction::Comment(text) => append_comment(s, text),
    }
}


/// Append the printed lines of the instructions of `v` from position `i` on.
pub fn append_instrs(s: &mut String, scope: &Id, v: &Vec<Instruction>, i: usize)
    requires
        i <= v.len(),
    ensures
        final(s)@ == old(s)@ + instrs_from(scope@, v@.map(|k, x: Instruction| x@), i as int),
    decreases v.len() - i,
{
    let ghost sq = v@.map(|k, x: Instruction| x@);
    if i == v.len() {
        proof {
            assert(final(s)@ =~= old(s)@ + instrs_from(scope@, sq, i as int));
        }
    } else {
        append_instr(s, scope, &v[i]);
        append_instrs(s, scope, v, i + 1);
        proof {
            assert(sq[i as int] == v@[i as int]@);
            assert(final(s)@ =~= old(s)@ + instrs_from(scope@, sq, i as int));
        }
    }
}

/// Append the printed form of one basic block.
pub fn append_block(s: &mut String, scope: &Id, b: &BasicBlock)
    ensures
        final(s)@ == old(s)@ + block_str(scope@, b@),
{
    append_mangled(s, scope, &b.id);
    s.append(":\n");
    append_instrs(s, scope, &b.instructions, 0);
    proof {
        assert(final(s)@ =~= old(s)@ + block_str(scope@, b@));
    }
}

/// Append the printed blocks of `v` from position `i` on.
pub fn append_blocks(s: &mut String, scope: &Id, v: &Vec<BasicBlock>, i: usize)
    requires
        i <= v.len(),
    ensures
        final(s)@ == old(s)@ + blocks_from(scope@, v@.map(|k, b: BasicBlock| b@), i as int),
    decreases v.len() - i,
{
    let ghost sq = v@.map(|k, b: BasicBlock| b@);
    if i == v.len() {
        proof {
            assert(final(s)@ =~= old(s)@ + blocks_from(scope@, sq, i as int));
        }
    } else {
        append_block(s, scope, &v[i]);
        append_blocks(s, scope, v, i + 1);
        proof {
            assert(sq[i as int] == v@[i as int]@);
            assert(final(s)@ =~= old(s)@ + blocks_from(scope@, sq, i as int));
        }
    }
}

/// Build the ABI prologue for a frame of `space` bytes that uses the given
/// callee-saved registers.
pub fn prologue(space: i32, used: &Vec<Register>) -> (r: Vec<Instruction>)
    requires
        space >= 0,
        used@.len() <= 11,
    ensures
        r@.map(|k, x: Instruction| x@) == prologue_instrs(space as int, used@),
{
    let mut out: Vec<Instruction> = Vec::new();
    out.push(Instruction::Sd { dst: Memory::Mem(Register::Sp, -8), src: Register::Fp });
    out.push(Instruction::ArithI { op: ArithOp::Add, dst: Register::Fp, lhs: Register::Sp, rhs: 0 });
    out.push(
        Instruction::ArithI { op: ArithOp::Add, dst: Register::Sp, lhs: Register::Sp, rhs: -space },
    );
    let mut j: usize = 0;
    while j < used.len()
        invariant
            j <= used.len(),
            used@.len() <= 11,
            out@.len() == 3 + j,
            out@.map(|k, x: Instruction| x@) =~= prologue_instrs(space as int, used@).subrange(
                0,
                3 + j as int,
            ),
        decreases used.len() - j,
    {
        let off: i32 = (8 * j) as i32;
        out.push(Instruction::Sd { dst: Memory::Mem(Register::Sp, off), src: used[j] });
        proof {
            assert(out@.map(|k, x: Instruction| x@) =~= prologue_instrs(space as int, used@)
                .subrange(0, 3 + j as int + 1));
        }
        j = j + 1;
    }
    proof {
        assert(out@.map(|k, x: Instruction| x@) =~= prologue_instrs(space as int, used@));
    }
    out
}

/// Build the ABI epilogue for a body that uses the given callee-saved
/// registers.
pub fn epilogue(used: &Vec<Register>) -> (r: Vec<Instruction>)
    requires
        used@.len() <= 11,
    ensures
        r@.map(|k, x: Instruction| x@) == epilogue_instrs(used@),
{
    let mut out: Vec<Instruction> = Vec::new();
    let mut j: usize = 0;
    while j < used.len()
        invariant
            j <= used.len(),
            used@.len() <= 11,
            out@.len() == j,
            out@.map(|k, x: Instruction| x@) =~= restore_seq(used@).subrange(0, j as int),
        decreases used.len() - j,
    {
        let k = used.len() - 1 - j;
        let off: i32 = (8 * k) as i32;
        out.push(Instruction::Ld { dst: used[k], src: Memory::Mem(Register::Sp, off) });
        proof {
            assert(out@.map(|q, x: Instruction| x@) =~= restore_seq(used@).subrange(
                0,
                j as int + 1,
            ));
        }
        j = j + 1;
    }
    proof {
        assert(restore_seq(used@).subrange(0, used@.len() as int) =~= restore_seq(used@));
        assert(out@.map(|k, x: Instruction| x@) =~= restore_seq(used@));
    }
    out.push(
        Instruction::ArithI { op: ArithOp::Add, dst: Register::Sp, lhs: Register::Fp, rhs: 0 },
    );
    out.push(Instruction::Ld { dst: Register::Fp, src: Memory::Mem(Register::Sp, -8) });
    out.push(Instruction::Jalr { dst: Register::Zero, target: Register::Ra });
    proof {
        assert(out@.map(|k, x: Instruction| x@) =~= epilogue_instrs(used@));
    }
    out
}

impl Program {
    /// Check the printer's input assumptions at run time: an aligned
    /// non-negative frame size, identifier-shaped entry and block labels,
    /// global operands that resolve inside the global table, and a save
    /// list of distinct general-purpose callee-saved registers.
    pub fn wf_check(&self) -> (r: bool)
        ensures
            r == self@.wf(),
    {
        if self.stack_space < 0 || self.stack_space % 16 != 0 {
            return false;
        }
        if !self.id.is_wf() {
            return false;
        }
        let ng = self.globals.len();
        let mut b: usize = 0;
        while b < self.basic_blocks.len()
            invariant
                b <= self.basic_blocks@.len(),
                ng == self.globals@.len(),
                forall|j: int| 0 <= j < b ==> id_wf((#[trigger] self@.basic_blocks[j]).id),
                forall|j: int|
                    0 <= j < b ==> code_globals_ok(
                        (#[trigger] self@.basic_blocks[j]).instructions,
                        self@.globals.len() as int,
                    ),
            decreases self.basic_blocks@.len() - b,
        {
            if !self.basic_blocks[b].id.is_wf() {
                proof {
                    assert(self@.basic_blocks[b as int].id == self.basic_blocks@[b as int].id@);
                }
                return false;
            }
            let code = &self.basic_blocks[b].instructions;
            let mut q: usize = 0;
            while q < code.len()
                invariant
                    q <= code@.len(),
                    ng == self.globals@.len(),
                    code@ == self.basic_blocks@[b as int].instructions@,
                    b < self.basic_blocks@.len(),
                    forall|j: int|
                        0 <= j < q ==> crate::rv64::instr_globals_ok(
                            (#[trigger] code@[j])@,
                            self.globals@.len() as int,
                        ),
                decreases code@.len() - q,
            {
                if !code[q].globals_ok(ng) {
                    proof {
                        assert(self@.basic_blocks[b as int].instructions[q as int] == code@[q as int]@);
                    }
                    return false;
                }
                q = q + 1;
            }
            proof {
                assert(self@.basic_blocks[b as int].id == self.basic_blocks@[b as int].id@);
                assert(code_globals_ok(
                    self@.basic_blocks[b as int].instructions,
                    self@.globals.len() as int,
                )) by {
                    assert(forall|j: int|
                        0 <= j < code@.len() ==> self@.basic_blocks[b as int].instructions[j] == (
                        #[trigger] code@[j])@);
                }
            }
            b = b + 1;
        }
        if self.used_registers.len() > 11 {
            return false;
        }
        let n = self.used_registers.len();
        let mut j: usize = 0;
        while j < n
            invariant
                j <= n,
                n == self.used_registers@.len(),
                forall|q: int|
                    0 <= q < j ==> spec_is_callee_saved(#[trigger] self.used_registers@[q]),
                forall|q: int, k: int|
                    0 <= q < k < j ==> self.used_registers@[q] != self.used_registers@[k],
            decreases n - j,
        {
            if !self.used_registers[j].is_callee_saved() {
                return false;
            }
            let mut k: usize = 0;
            while k < j
                invariant
                    k <= j < n,
                    n == self.used_registers@.len(),
                    forall|q: int|
                        0 <= q < k ==> self.used_registers@[q] != self.used_registers@[j as int],
                decreases j - k,
            {
                if self.used_registers[k] == self.used_registers[j] {
                    return false;
                }
                k = k + 1;
            }
            j = j + 1;
        }
        true
    }

    /// Serialize this program to RV64G assembly text: the entry label, the
    /// ABI prologue, then every basic block under its mangled label, one
    /// label or instruction per line.
    pub fn asm_code(&self) -> (r: String)
        requires
            self@.wf(),
        ensures
            r@ == render_program(self@),
    {
        let mut s = String::new();
        s.append(self.id.as_str());
        s.append(":\n");
        let pro = prologue(self.stack_space, &self.used_registers);
        append_instrs(&mut s, &self.id, &pro, 0);
        append_blocks(&mut s, &self.id, &self.basic_blocks, 0);
        proof {
            assert(s@ =~= render_program(self@));
        }
        s
    }
}

} // verus!
