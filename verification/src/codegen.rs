//! The code generator: walks the IR, assigns each identifier a fixed stack
//! slot, and emits one basic block of abstract instructions per IR block.
//!
//! Frame layout: the first reference to a new identifier grows the frame by
//! one word and records the identifier's offset from the frame pointer; every
//! later reference reuses the recorded offset.  There is no dead-slot
//! reclamation: each identifier that ever appears enlarges the frame
//! monotonically, a deliberate simplicity trade-off.

use vstd::prelude::*;

use crate::ast::BOp;
use crate::emit::epilogue;
use crate::emit::epilogue_instrs;
use crate::emit::restore_seq;
use crate::ident::Id;
use crate::rv64::ArithOp;
use crate::rv64::Condition;
use crate::rv64::Error;
use crate::rv64::ErrorV;
use crate::rv64::InstrV;
use crate::rv64::Instruction;
use crate::rv64::JumpTarget;
use crate::rv64::JumpTargetV;
use crate::rv64::Location;
use crate::rv64::Memory;
use crate::rv64::Register;
use crate::rv64::code_globals_ok;
use crate::rv64::spec_is_callee_saved;
use crate::rv64::spec_used_registers;
use crate::tir;

verus! {

/// Word and pointer size of the machine, in bytes.
pub const WORD_SIZE: i32 = 8;

/// The runtime's garbage-collector initializer symbol.
pub const GC_INIT_FN: &'static str = "_cflat_init_gc";

/// The runtime's allocation symbol.
pub const ALLOC_FN: &'static str = "_cflat_alloc";

/// The runtime symbol that reads one value from the input.
pub const READ_FN: &'static str = "_cflat_read";

/// The runtime symbol that prints one value.
pub const PRINT_FN: &'static str = "_cflat_print";

/// The frame-layout table: each identifier paired with its byte offset from
/// the frame pointer.
pub type FrameTable = Vec<(Id, i32)>;

/// The mathematical value of a frame table.
pub open spec fn table_view(t: Seq<(Id, i32)>) -> Seq<(Seq<char>, int)> {
    t.map(|j, e: (Id, i32)| (e.0@, e.1 as int))
}

/// The offset recorded for `id` in the table, searching from position `i`.
pub open spec fn table_lookup_from(t: Seq<(Seq<char>, int)>, id: Seq<char>, i: int) -> Option<int>
    decreases t.len() - i,
{
    if i < 0 || i >= t.len() {
        None
    } else if t[i].0 == id {
        Some(t[i].1)
    } else {
        table_lookup_from(t, id, i + 1)
    }
}

/// The offset recorded for `id`, if any.
pub open spec fn table_lookup(t: Seq<(Seq<char>, int)>, id: Seq<char>) -> Option<int> {
    table_lookup_from(t, id, 0)
}

/// Is `id` among the declared identifiers?
pub open spec fn declared(decl: Seq<Seq<char>>, id: Seq<char>) -> bool {
    exists|j: int| 0 <= j < decl.len() && decl[j] == id
}

/// The frame-pointer offset of the `k`-th stack slot: one word per slot,
/// below the saved caller frame pointer.
pub open spec fn slot_offset(k: int) -> int {
    -16 - 8 * k
}

/// Well-formedness of a frame table against the declaration list: every
/// entry is declared, identifiers are distinct, and the `k`-th entry sits in
/// the `k`-th slot.
pub open spec fn table_wf(decl: Seq<Seq<char>>, t: Seq<(Seq<char>, int)>) -> bool {
    &&& forall|j: int| 0 <= j < t.len() ==> declared(decl, (#[trigger] t[j]).0)
    &&& forall|j: int, k: int| 0 <= j < k < t.len() ==> t[j].0 != t[k].0
    &&& forall|j: int| 0 <= j < t.len() ==> (#[trigger] t[j]).1 == slot_offset(j)
}

/// Acquire a slot for `id`: reuse the recorded offset, or grow the frame by
/// one word for the first reference to a declared identifier, or reject a
/// reference to an undeclared identifier.
pub open spec fn spec_acquire(
    decl: Seq<Seq<char>>,
    t: Seq<(Seq<char>, int)>,
    id: Seq<char>,
) -> Result<(Seq<(Seq<char>, int)>, int), ErrorV> {
    match table_lookup(t, id) {
        Some(off) => Ok((t, off)),
        None => if declared(decl, id) {
            Ok((t.push((id, slot_offset(t.len() as int))), slot_offset(t.len() as int)))
        } else {
            Err(ErrorV::MalformedIr(id))
        },
    }
}

/// A failed lookup means the identifier is nowhere in the table.
pub proof fn lemma_lookup_none(t: Seq<(Seq<char>, int)>, id: Seq<char>, i: int)
    requires
        0 <= i <= t.len(),
        table_lookup_from(t, id, i) is None,
    ensures
        forall|j: int| i <= j < t.len() ==> (#[trigger] t[j]).0 != id,
    decreases t.len() - i,
{
    if i < t.len() {
        lemma_lookup_none(t, id, i + 1);
    }
}

/// A table that is well-formed against `decl` cannot hold more entries than
/// there are declarations.
pub proof fn lemma_table_len(decl: Seq<Seq<char>>, t: Seq<(Seq<char>, int)>)
    requires
        table_wf(decl, t),
    ensures
        t.len() <= decl.len(),
{
    broadcast use vstd::seq_lib::seq_to_set_is_finite;
    broadcast use vstd::set::group_set_axioms;

    let ids = t.map(|j, e: (Seq<char>, int)| e.0);
    assert(ids.no_duplicates()) by {
        assert(forall|j: int, k: int| 0 <= j < k < t.len() ==> t[j].0 != t[k].0);
    }
    ids.unique_seq_to_set();
    assert(ids.to_set().subset_of(decl.to_set())) by {
        assert forall|x: Seq<char>| ids.to_set().contains(x) implies decl.to_set().contains(
            x,
        ) by {
            let j = choose|j: int| 0 <= j < ids.len() && ids[j] == x;
            assert(declared(decl, t[j].0));
            let k = choose|k: int| 0 <= k < decl.len() && decl[k] == x;
            assert(decl.to_set().contains(decl[k]));
        }
    }
    vstd::set_lib::lemma_len_subset(ids.to_set(), decl.to_set());
    decl.lemma_cardinality_of_set();
}

/// Acquiring a slot preserves table well-formedness and never disturbs the
/// offsets already handed out.
pub proof fn lemma_acquire_wf(decl: Seq<Seq<char>>, t: Seq<(Seq<char>, int)>, id: Seq<char>)
    requires
        table_wf(decl, t),
    ensures
        spec_acquire(decl, t, id) matches Ok(r) ==> {
            &&& table_wf(decl, r.0)
            &&& t.len() <= r.0.len()
            &&& r.0.subrange(0, t.len() as int) == t
        },
{
    match spec_acquire(decl, t, id) {
        Ok((t2, off)) => {
            match table_lookup(t, id) {
                Some(_) => {
                    assert(t2.subrange(0, t.len() as int) =~= t);
                },
                None => {
                    lemma_lookup_none(t, id, 0);
                    assert(t2.subrange(0, t.len() as int) =~= t);
                },
            }
        },
        Err(_) => {},
    }
}

/// Find the offset recorded for `id`, searching from position `i`.
fn table_find_from(t: &FrameTable, id: &Id, i: usize) -> (r: Option<i32>)
    requires
        i <= t.len(),
    ensures
        match r {
            Some(off) => table_lookup_from(table_view(t@), id@, i as int) == Some(off as int),
            None => table_lookup_from(table_view(t@), id@, i as int) is None,
        },
    decreases t.len() - i,
{
    if i == t.len() {
        None
    } else {
        let e = &t[i];
        if e.0.eq_id(id) {
            Some(e.1)
        } else {
            table_find_from(t, id, i + 1)
        }
    }
}

/// Is `id` among the declared identifiers?
fn contains_id(decl: &Vec<Id>, id: &Id) -> (r: bool)
    ensures
        r == declared(decl@.map(|j, x: Id| x@), id@),
{
    let ghost dv = decl@.map(|j, x: Id| x@);
    let mut i: usize = 0;
    while i < decl.len()
        invariant
            i <= decl.len(),
            dv == decl@.map(|j, x: Id| x@),
            forall|j: int| 0 <= j < i ==> dv[j] != id@,
        decreases decl.len() - i,
    {
        if decl[i].eq_id(id) {
            proof {
                assert(dv[i as int] == id@);
            }
            return true;
        }
        i = i + 1;
    }
    false
}

/// The mathematical value of a declaration list.
pub open spec fn ids_view(s: Seq<Id>) -> Seq<Seq<char>> {
    s.map(|j, x: Id| x@)
}

/// The mathematical value of an instruction list.
pub open spec fn code_view(s: Seq<Instruction>) -> Seq<InstrV> {
    s.map(|j, x: Instruction| x@)
}

/// Acquire the stack slot of `id`, growing the frame on a first reference
/// and rejecting an undeclared identifier.
fn acquire(decl: &Vec<Id>, t: &mut FrameTable, id: &Id) -> (r: Result<i32, Error>)
    requires
        table_wf(decl@.map(|j, x: Id| x@), table_view(old(t)@)),
        8 * decl@.len() + 16 <= i32::MAX,
    ensures
        table_wf(decl@.map(|j, x: Id| x@), table_view(final(t)@)),
        match r {
            Ok(off) => spec_acquire(
                decl@.map(|j, x: Id| x@),
                table_view(old(t)@),
                id@,
            ) == Ok::<_, ErrorV>((table_view(final(t)@), off as int)),
            Err(e) => {
                &&& spec_acquire(decl@.map(|j, x: Id| x@), table_view(old(t)@), id@) == Err::<
                    (Seq<(Seq<char>, int)>, int),
                    _,
                >(e@)
                &&& final(t)@ == old(t)@
            },
        },
{
    let ghost dv = decl@.map(|j, x: Id| x@);
    proof {
        lemma_acquire_wf(dv, table_view(t@), id@);
    }
    match table_find_from(t, id, 0) {
        Some(off) => Ok(off),
        None => {
            if contains_id(decl, id) {
                proof {
                    lemma_table_len(dv, table_view(t@));
                }
                let n: usize = t.len();
                let off: i32 = -16 - 8 * (n as i32);
                t.push((id.clone(), off));
                proof {
                    assert(table_view(t@) =~= table_view(old(t)@).push((id@, off as int)));
                }
                Ok(off)
            } else {
                Err(Error::MalformedIr(id.clone()))
            }
        },
    }
}

/// The spec-level frame table.
pub type TableV = Seq<(Seq<char>, int)>;

/// The arithmetic instruction implementing a source binary operator; a
/// less-than comparison becomes set-if-less-than.
pub open spec fn spec_aop(op: BOp) -> ArithOp {
    match op {
        BOp::Mul => ArithOp::Mul,
        BOp::Div => ArithOp::Div,
        BOp::Add => ArithOp::Add,
        BOp::Sub => ArithOp::Sub,
        BOp::Lt => ArithOp::Slt,
    }
}

/// The arithmetic instruction implementing a source binary operator.
pub fn aop_of(op: BOp) -> (r: ArithOp)
    ensures
        r == spec_aop(op),
{
    match op {
        BOp::Mul => ArithOp::Mul,
        BOp::Div => ArithOp::Div,
        BOp::Add => ArithOp::Add,
        BOp::Sub => ArithOp::Sub,
        BOp::Lt => ArithOp::Slt,
    }
}

/// The code generated for one IR instruction, together with the frame table
/// it leaves behind.
///
/// A constant becomes an immediate load plus a store to the destination
/// slot; a copy becomes a load then a store; binary arithmetic becomes two
/// loads into scratch registers, one register-register instruction and a
/// store; read and print become calls into the runtime with the single
/// argument and the single return value both travelling through `a0`.
pub open spec fn spec_gen_insn(decl: Seq<Seq<char>>, t: TableV, ins: tir::InsnV) -> Result<
    (TableV, Seq<InstrV>),
    ErrorV,
> {
    match ins {
        tir::InsnV::Copy { dst, src } => match spec_acquire(decl, t, src) {
            Err(e) => Err(e),
            Ok((t1, so)) => match spec_acquire(decl, t1, dst) {
                Err(e) => Err(e),
                Ok((t2, doff)) => Ok(
                    (
                        t2,
                        seq![
                            InstrV::Ld {
                                dst: Register::T0,
                                src: Memory::Mem(Register::Fp, so as i32),
                            },
                            InstrV::Sd {
                                dst: Memory::Mem(Register::Fp, doff as i32),
                                src: Register::T0,
                            },
                        ],
                    ),
                ),
            },
        },
        tir::InsnV::Const { dst, src } => match spec_acquire(decl, t, dst) {
            Err(e) => Err(e),
            Ok((t1, doff)) => Ok(
                (
                    t1,
                    seq![
                        InstrV::Li { dst: Register::T0, imm: src },
                        InstrV::Sd {
                            dst: Memory::Mem(Register::Fp, doff as i32),
                            src: Register::T0,
                        },
                    ],
                ),
            ),
        },
        tir::InsnV::Arith { op, dst, lhs, rhs } => match spec_acquire(decl, t, lhs) {
            Err(e) => Err(e),
            Ok((t1, lo)) => match spec_acquire(decl, t1, rhs) {
                Err(e) => Err(e),
                Ok((t2, ro)) => match spec_acquire(decl, t2, dst) {
                    Err(e) => Err(e),
                    Ok((t3, doff)) => Ok(
                        (
                            t3,
                            seq![
                                InstrV::Ld {
                                    dst: Register::T0,
                                    src: Memory::Mem(Register::Fp, lo as i32),
                                },
                                InstrV::Ld {
                                    dst: Register::T1,
                                    src: Memory::Mem(Register::Fp, ro as i32),
                                },
                                InstrV::Arith {
                                    op: spec_aop(op),
                                    dst: Register::T0,
                                    lhs: Register::T0,
                                    rhs: Register::T1,
                                },
                                InstrV::Sd {
                                    dst: Memory::Mem(Register::Fp, doff as i32),
                                    src: Register::T0,
                                },
                            ],
                        ),
                    ),
                },
            },
        },
        tir::InsnV::Read(id) => match spec_acquire(decl, t, id) {
            Err(e) => Err(e),
            Ok((t1, off)) => Ok(
                (
                    t1,
                    seq![
                        InstrV::Jal {
                            dst: Register::Ra,
                            target: JumpTargetV::Global(READ_FN@),
                        },
                        InstrV::Sd {
                            dst: Memory::Mem(Register::Fp, off as i32),
                            src: Register::A0,
                        },
                    ],
                ),
            ),
        },
        tir::InsnV::Print(id) => match spec_acquire(decl, t, id) {
            Err(e) => Err(e),
            Ok((t1, off)) => Ok(
                (
                    t1,
                    seq![
                        InstrV::Ld {
                            dst: Register::A0,
                            src: Memory::Mem(Register::Fp, off as i32),
                        },
                        InstrV::Jal {
                            dst: Register::Ra,
                            target: JumpTargetV::Global(PRINT_FN@),
                        },
                    ],
                ),
            ),
        },
    }
}

/// The code generated for the instructions of a block from position `i` on.
pub open spec fn spec_gen_insns(
    decl: Seq<Seq<char>>,
    insns: Seq<tir::InsnV>,
    i: int,
    t: TableV,
) -> Result<(TableV, Seq<InstrV>), ErrorV>
    decreases insns.len() - i,
{
    if i < 0 || i >= insns.len() {
        Ok((t, Seq::empty()))
    } else {
        match spec_gen_insn(decl, t, insns[i]) {
            Err(e) => Err(e),
            Ok((t1, code)) => match spec_gen_insns(decl, insns, i + 1, t1) {
                Err(e) => Err(e),
                Ok((t2, rest)) => Ok((t2, code + rest)),
            },
        }
    }
}

/// The labels of the IR blocks.
pub open spec fn block_keys(bs: Seq<(Seq<char>, tir::BlockV)>) -> Seq<Seq<char>> {
    bs.map(|j, p: (Seq<char>, tir::BlockV)| p.0)
}

/// The code generated for one terminator.
///
/// An exit becomes the epilogue's restore sequence followed by a return; a
/// jump becomes one unconditional local jump; a branch loads the guard and
/// transfers control to `tt` exactly when the guard is non-zero, falling to
/// an unconditional jump to `ff` otherwise.  A jump to a label that is not a
/// block of the program is rejected.
pub open spec fn spec_gen_term(
    decl: Seq<Seq<char>>,
    keys: Seq<Seq<char>>,
    t: TableV,
    tm: tir::TermV,
) -> Result<(TableV, Seq<InstrV>), ErrorV> {
    match tm {
        tir::TermV::Exit => Ok((t, epilogue_instrs(Seq::empty()))),
        tir::TermV::Jump(l) => if keys.contains(l) {
            Ok((t, seq![InstrV::Jal { dst: Register::Zero, target: JumpTargetV::Local(l) }]))
        } else {
            Err(ErrorV::MalformedIr(l))
        },
        tir::TermV::Branch { guard, tt, ff } => match spec_acquire(decl, t, guard) {
            Err(e) => Err(e),
            Ok((t1, go)) => if !keys.contains(tt) {
                Err(ErrorV::MalformedIr(tt))
            } else if !keys.contains(ff) {
                Err(ErrorV::MalformedIr(ff))
            } else {
                Ok(
                    (
                        t1,
                        seq![
                            InstrV::Ld {
                                dst: Register::T0,
                                src: Memory::Mem(Register::Fp, go as i32),
                            },
                            InstrV::Branch {
                                cond: Condition::NotEqual,
                                lhs: Register::T0,
                                rhs: Register::Zero,
                                target: JumpTargetV::Local(tt),
                            },
                            InstrV::Jal { dst: Register::Zero, target: JumpTargetV::Local(ff) },
                        ],
                    ),
                )
            },
        },
    }
}

/// The code generated for the terminators of a block from position `i` on.
pub open spec fn spec_gen_terms(
    decl: Seq<Seq<char>>,
    keys: Seq<Seq<char>>,
    terms: Seq<tir::TermV>,
    i: int,
    t: TableV,
) -> Result<(TableV, Seq<InstrV>), ErrorV>
    decreases terms.len() - i,
{
    if i < 0 || i >= terms.len() {
        Ok((t, Seq::empty()))
    } else {
        match spec_gen_term(decl, keys, t, terms[i]) {
            Err(e) => Err(e),
            Ok((t1, code)) => match spec_gen_terms(decl, keys, terms, i + 1, t1) {
                Err(e) => Err(e),
                Ok((t2, rest)) => Ok((t2, code + rest)),
            },
        }
    }
}

/// The basic block generated for one IR block: its instructions, then its
/// terminators, under the block's own label.
pub open spec fn spec_gen_block(
    decl: Seq<Seq<char>>,
    keys: Seq<Seq<char>>,
    t: TableV,
    id: Seq<char>,
    b: tir::BlockV,
) -> Result<(TableV, crate::rv64::BasicBlockV), ErrorV> {
    match spec_gen_insns(decl, b.insn, 0, t) {
        Err(e) => Err(e),
        Ok((t1, code1)) => match spec_gen_terms(decl, keys, b.term, 0, t1) {
            Err(e) => Err(e),
            Ok((t2, code2)) => Ok(
                (t2, crate::rv64::BasicBlockV { id: id, instructions: code1 + code2 }),
            ),
        },
    }
}

/// The basic blocks generated for the IR blocks from position `i` on.
pub open spec fn spec_gen_blocks(
    decl: Seq<Seq<char>>,
    keys: Seq<Seq<char>>,
    bs: Seq<(Seq<char>, tir::BlockV)>,
    i: int,
    t: TableV,
) -> Result<(TableV, Seq<crate::rv64::BasicBlockV>), ErrorV>
    decreases bs.len() - i,
{
    if i < 0 || i >= bs.len() {
        Ok((t, Seq::empty()))
    } else {
        match spec_gen_block(decl, keys, t, bs[i].0, bs[i].1) {
            Err(e) => Err(e),
            Ok((t1, bb)) => match spec_gen_blocks(decl, keys, bs, i + 1, t1) {
                Err(e) => Err(e),
                Ok((t2, rest)) => Ok((t2, seq![bb] + rest)),
            },
        }
    }
}

/// Does a jump target stay inside the program: a local target must name one
/// of the program's blocks; a global target is outside by design.
pub open spec fn target_ok(t: JumpTargetV, keys: Seq<Seq<char>>) -> bool {
    match t {
        JumpTargetV::Local(l) => keys.contains(l),
        JumpTargetV::Global(_) => true,
    }
}

/// Do all local jump targets of an instruction name blocks of the program?
pub open spec fn instr_targets_ok(i: InstrV, keys: Seq<Seq<char>>) -> bool {
    match i {
        InstrV::Jal { dst, target } => target_ok(target, keys),
        InstrV::Branch { cond, lhs, rhs, target } => target_ok(target, keys),
        _ => true,
    }
}

/// Do all local jump targets of a code sequence name blocks of the program?
pub open spec fn local_targets_ok(code: Seq<InstrV>, keys: Seq<Seq<char>>) -> bool {
    forall|j: int| 0 <= j < code.len() ==> instr_targets_ok(#[trigger] code[j], keys)
}

/// Does a code sequence leave every general-purpose callee-saved register
/// untouched?
pub open spec fn callee_saved_free(code: Seq<InstrV>) -> bool {
    forall|j: int, q: int|
        0 <= j < code.len() && 0 <= q < spec_used_registers(#[trigger] code[j]).len()
            ==> !spec_is_callee_saved(#[trigger] spec_used_registers(code[j])[q])
}

/// A prefix of a prefix is a prefix.
proof fn lemma_prefix_trans(a: TableV, b: TableV, c: TableV)
    requires
        a.len() <= b.len() <= c.len(),
        b.subrange(0, a.len() as int) == a,
        c.subrange(0, b.len() as int) == b,
    ensures
        c.subrange(0, a.len() as int) == a,
{
    assert(c.subrange(0, a.len() as int) =~= a) by {
        assert(forall|j: int|
            0 <= j < b.len() ==> c[j] == #[trigger] c.subrange(0, b.len() as int)[j]);
        assert(forall|j: int|
            0 <= j < a.len() ==> b[j] == #[trigger] b.subrange(0, a.len() as int)[j]);
    }
}

/// Generating one instruction keeps the frame table well-formed, only grows
/// it, never reassigns a slot, and emits no local jump at all.
pub proof fn lemma_gen_insn_ok(
    decl: Seq<Seq<char>>,
    t: TableV,
    ins: tir::InsnV,
    keys: Seq<Seq<char>>,
)
    requires
        table_wf(decl, t),
    ensures
        spec_gen_insn(decl, t, ins) matches Ok(pr) ==> {
            &&& table_wf(decl, pr.0)
            &&& t.len() <= pr.0.len()
            &&& pr.0.subrange(0, t.len() as int) == t
            &&& local_targets_ok(pr.1, keys)
            &&& callee_saved_free(pr.1)
            &&& code_globals_ok(pr.1, 0)
        },
{
    match ins {
        tir::InsnV::Copy { dst, src } => {
            lemma_acquire_wf(decl, t, src);
            if let Ok(p1) = spec_acquire(decl, t, src) {
                lemma_acquire_wf(decl, p1.0, dst);
                if let Ok(p2) = spec_acquire(decl, p1.0, dst) {
                    lemma_prefix_trans(t, p1.0, p2.0);
                }
            }
        },
        tir::InsnV::Const { dst, src } => {
            lemma_acquire_wf(decl, t, dst);
        },
        tir::InsnV::Arith { op, dst, lhs, rhs } => {
            lemma_acquire_wf(decl, t, lhs);
            if let Ok(p1) = spec_acquire(decl, t, lhs) {
                lemma_acquire_wf(decl, p1.0, rhs);
                if let Ok(p2) = spec_acquire(decl, p1.0, rhs) {
                    lemma_prefix_trans(t, p1.0, p2.0);
                    lemma_acquire_wf(decl, p2.0, dst);
                    if let Ok(p3) = spec_acquire(decl, p2.0, dst) {
                        lemma_prefix_trans(t, p2.0, p3.0);
                    }
                }
            }
        },
        tir::InsnV::Read(id) => {
            lemma_acquire_wf(decl, t, id);
        },
        tir::InsnV::Print(id) => {
            lemma_acquire_wf(decl, t, id);
        },
    }
}

/// Generating a block's instruction list keeps the frame table well-formed,
/// only grows it, never reassigns a slot, and emits no local jump.
pub proof fn lemma_gen_insns_ok(
    decl: Seq<Seq<char>>,
    insns: Seq<tir::InsnV>,
    i: int,
    t: TableV,
    keys: Seq<Seq<char>>,
)
    requires
        table_wf(decl, t),
    ensures
        spec_gen_insns(decl, insns, i, t) matches Ok(pr) ==> {
            &&& table_wf(decl, pr.0)
            &&& t.len() <= pr.0.len()
            &&& pr.0.subrange(0, t.len() as int) == t
            &&& local_targets_ok(pr.1, keys)
            &&& callee_saved_free(pr.1)
            &&& code_globals_ok(pr.1, 0)
        },
    decreases insns.len() - i,
{
    if i < 0 || i >= insns.len() {
        assert(t.subrange(0, t.len() as int) =~= t);
    } else {
        lemma_gen_insn_ok(decl, t, insns[i], keys);
        if let Ok(p1) = spec_gen_insn(decl, t, insns[i]) {
            lemma_gen_insns_ok(decl, insns, i + 1, p1.0, keys);
            if let Ok(p2) = spec_gen_insns(decl, insns, i + 1, p1.0) {
                lemma_prefix_trans(t, p1.0, p2.0);
            }
        }
    }
}

/// Generating one terminator keeps the frame table well-formed, only grows
/// it, never reassigns a slot, and every local jump it emits names a block
/// of the program.
pub proof fn lemma_gen_term_ok(
    decl: Seq<Seq<char>>,
    keys: Seq<Seq<char>>,
    t: TableV,
    tm: tir::TermV,
)
    requires
        table_wf(decl, t),
    ensures
        spec_gen_term(decl, keys, t, tm) matches Ok(pr) ==> {
            &&& table_wf(decl, pr.0)
            &&& t.len() <= pr.0.len()
            &&& pr.0.subrange(0, t.len() as int) == t
            &&& local_targets_ok(pr.1, keys)
            &&& callee_saved_free(pr.1)
            &&& code_globals_ok(pr.1, 0)
        },
{
    match tm {
        tir::TermV::Exit => {
            assert(t.subrange(0, t.len() as int) =~= t);
            assert(restore_seq(Seq::empty()).len() == 0);
        },
        tir::TermV::Jump(l) => {
            assert(t.subrange(0, t.len() as int) =~= t);
        },
        tir::TermV::Branch { guard, tt, ff } => {
            lemma_acquire_wf(decl, t, guard);
        },
    }
}

/// Generating a block's terminator list keeps the frame table well-formed,
/// only grows it, never reassigns a slot, and every local jump it emits
/// names a block of the program.
pub proof fn lemma_gen_terms_ok(
    decl: Seq<Seq<char>>,
    keys: Seq<Seq<char>>,
    terms: Seq<tir::TermV>,
    i: int,
    t: TableV,
)
    requires
        table_wf(decl, t),
    ensures
        spec_gen_terms(decl, keys, terms, i, t) matches Ok(pr) ==> {
            &&& table_wf(decl, pr.0)
            &&& t.len() <= pr.0.len()
            &&& pr.0.subrange(0, t.len() as int) == t
            &&& local_targets_ok(pr.1, keys)
            &&& callee_saved_free(pr.1)
            &&& code_globals_ok(pr.1, 0)
        },
    decreases terms.len() - i,
{
    if i < 0 || i >= terms.len() {
        assert(t.subrange(0, t.len() as int) =~= t);
    } else {
        lemma_gen_term_ok(decl, keys, t, terms[i]);
        if let Ok(p1) = spec_gen_term(decl, keys, t, terms[i]) {
            lemma_gen_terms_ok(decl, keys, terms, i + 1, p1.0);
            if let Ok(p2) = spec_gen_terms(decl, keys, terms, i + 1, p1.0) {
                lemma_prefix_trans(t, p1.0, p2.0);
            }
        }
    }
}

/// Generating one basic block keeps the frame table well-formed, only grows
/// it, never reassigns a slot, keeps the block's label, and every local jump
/// in the block names a block of the program.
pub proof fn lemma_gen_block_ok(
    decl: Seq<Seq<char>>,
    keys: Seq<Seq<char>>,
    t: TableV,
    id: Seq<char>,
    b: tir::BlockV,
)
    requires
        table_wf(decl, t),
    ensures
        spec_gen_block(decl, keys, t, id, b) matches Ok(pr) ==> {
            &&& table_wf(decl, pr.0)
            &&& t.len() <= pr.0.len()
            &&& pr.0.subrange(0, t.len() as int) == t
            &&& pr.1.id == id
            &&& local_targets_ok(pr.1.instructions, keys)
            &&& callee_saved_free(pr.1.instructions)
            &&& code_globals_ok(pr.1.instructions, 0)
        },
{
    lemma_gen_insns_ok(decl, b.insn, 0, t, keys);
    if let Ok(p1) = spec_gen_insns(decl, b.insn, 0, t) {
        lemma_gen_terms_ok(decl, keys, b.term, 0, p1.0);
        if let Ok(p2) = spec_gen_terms(decl, keys, b.term, 0, p1.0) {
            lemma_prefix_trans(t, p1.0, p2.0);
        }
    }
}

/// Generating the remaining blocks keeps the frame table well-formed, only
/// grows it, never reassigns a slot, maps each IR block to one output block
/// under the same label, and every local jump emitted names a block of the
/// program.
pub proof fn lemma_gen_blocks_ok(
    decl: Seq<Seq<char>>,
    keys: Seq<Seq<char>>,
    bs: Seq<(Seq<char>, tir::BlockV)>,
    i: int,
    t: TableV,
)
    requires
        table_wf(decl, t),
        0 <= i <= bs.len(),
    ensures
        spec_gen_blocks(decl, keys, bs, i, t) matches Ok(pr) ==> {
            &&& table_wf(decl, pr.0)
            &&& t.len() <= pr.0.len()
            &&& pr.0.subrange(0, t.len() as int) == t
            &&& pr.1.len() == bs.len() - i
            &&& forall|j: int| 0 <= j < pr.1.len() ==> (#[trigger] pr.1[j]).id == bs[i + j].0
            &&& forall|j: int|
                0 <= j < pr.1.len() ==> local_targets_ok((#[trigger] pr.1[j]).instructions, keys)
            &&& forall|j: int|
                0 <= j < pr.1.len() ==> callee_saved_free((#[trigger] pr.1[j]).instructions)
            &&& forall|j: int|
                0 <= j < pr.1.len() ==> code_globals_ok((#[trigger] pr.1[j]).instructions, 0)
        },
    decreases bs.len() - i,
{
    if i >= bs.len() {
        assert(t.subrange(0, t.len() as int) =~= t);
    } else {
        lemma_gen_block_ok(decl, keys, t, bs[i].0, bs[i].1);
        if let Ok(p1) = spec_gen_block(decl, keys, t, bs[i].0, bs[i].1) {
            lemma_gen_blocks_ok(decl, keys, bs, i + 1, p1.0);
            if let Ok(p2) = spec_gen_blocks(decl, keys, bs, i + 1, p1.0) {
                lemma_prefix_trans(t, p1.0, p2.0);
            }
        }
    }
}

/// The frame size reserved for `n` one-word slots plus the saved frame
/// pointer, rounded up to the 16-byte stack alignment.
pub open spec fn spec_frame_size(n: int) -> int {
    16 * ((n + 2) / 2)
}

/// The program generated from an IR program: one basic block per IR block in
/// the IR's stable label order, an aligned frame, and no callee-saved
/// register use (generated code only touches scratch and argument
/// registers).
pub open spec fn spec_code_gen(p: tir::ProgV) -> Result<crate::rv64::ProgramV, ErrorV> {
    match spec_gen_blocks(p.decl, block_keys(p.block), p.block, 0, Seq::empty()) {
        Err(e) => Err(e),
        Ok((t, bbs)) => Ok(
            crate::rv64::ProgramV {
                id: "main"@,
                basic_blocks: bbs,
                stack_space: spec_frame_size(t.len() as int),
                globals: Seq::empty(),
                used_registers: Seq::empty(),
            },
        ),
    }
}

/// The instruction sequence of a call under the one-argument/one-return
/// convention: the single argument, if any, is brought into the first
/// argument register, the call is made saving the return address, and the
/// single return value, if kept, is written from the first argument register
/// to its destination.  More than one argument or return value is rejected.
pub open spec fn spec_call_sequence(
    callee: Seq<char>,
    args: Seq<Location>,
    rets: Seq<Location>,
) -> Result<Seq<InstrV>, ErrorV> {
    if args.len() > 1 || rets.len() > 1 {
        Err(ErrorV::UnsupportedArity)
    } else {
        Ok(
            (if args.len() == 1 {
                seq![crate::rv64::spec_read(Register::A0, args[0])]
            } else {
                Seq::empty()
            }) + seq![InstrV::Jal { dst: Register::Ra, target: JumpTargetV::Global(callee) }] + (
            if rets.len() == 1 {
                seq![crate::rv64::spec_write(rets[0], Register::A0)]
            } else {
                Seq::empty()
            }),
        )
    }
}

/// Build the instruction sequence of a call to `callee` under the
/// one-argument/one-return convention, rejecting a call with more than one
/// argument or more than one return destination.
pub fn call_sequence(callee: Id, args: &Vec<Location>, rets: &Vec<Location>) -> (r: Result<
    Vec<Instruction>,
    Error,
>)
    ensures
        match r {
            Ok(code) => spec_call_sequence(callee@, args@, rets@) == Ok::<_, ErrorV>(
                code_view(code@),
            ),
            Err(e) => spec_call_sequence(callee@, args@, rets@) == Err::<Seq<InstrV>, ErrorV>(e@)
                && e@ == ErrorV::UnsupportedArity,
        },
{
    if args.len() > 1 || rets.len() > 1 {
        return Err(Error::UnsupportedArity);
    }
    let mut code: Vec<Instruction> = Vec::new();
    if args.len() == 1 {
        code.push(Instruction::read(Register::A0, args[0]));
    }
    code.push(Instruction::call(callee));
    if rets.len() == 1 {
        code.push(Instruction::write(rets[0], Register::A0));
    }
    proof {
        assert(code_view(code@) =~= spec_call_sequence(callee@, args@, rets@)->Ok_0);
    }
    Ok(code)
}

/// Does the program define a block with this label?
fn block_exists(bs: &Vec<(Id, tir::Block)>, id: &Id) -> (r: bool)
    ensures
        r == block_keys(bs@.map(|j, p: (Id, tir::Block)| (p.0@, p.1@))).contains(id@),
{
    let ghost keys = block_keys(bs@.map(|j, p: (Id, tir::Block)| (p.0@, p.1@)));
    let mut i: usize = 0;
    while i < bs.len()
        invariant
            i <= bs.len(),
            keys == block_keys(bs@.map(|j, p: (Id, tir::Block)| (p.0@, p.1@))),
            forall|j: int| 0 <= j < i ==> keys[j] != id@,
        decreases bs.len() - i,
    {
        if bs[i].0.eq_id(id) {
            proof {
                assert(keys[i as int] == id@);
            }
            return true;
        }
        i = i + 1;
    }
    proof {
        assert(forall|j: int| 0 <= j < keys.len() ==> keys[j] != id@);
    }
    false
}

/// Generate the code of one IR instruction into `out`.
fn gen_insn(
    decl: &Vec<Id>,
    t: &mut FrameTable,
    ins: &tir::Instruction,
    out: &mut Vec<Instruction>,
) -> (r: Result<(), Error>)
    requires
        table_wf(ids_view(decl@), table_view(old(t)@)),
        8 * decl@.len() + 16 <= i32::MAX,
    ensures
        table_wf(ids_view(decl@), table_view(final(t)@)),
        match r {
            Ok(u) => spec_gen_insn(ids_view(decl@), table_view(old(t)@), ins@) matches Ok(pr)
                && pr.0 == table_view(final(t)@) && code_view(final(out)@) == code_view(old(out)@)
                + pr.1,
            Err(e) => spec_gen_insn(ids_view(decl@), table_view(old(t)@), ins@) == Err::<
                (TableV, Seq<InstrV>),
                ErrorV,
            >(e@),
        },
{
    match ins {
        tir::Instruction::Copy { dst, src } => {
            let so = match acquire(decl, t, src) {
                Ok(o) => o,
                Err(e) => {
                    return Err(e);
                },
            };
            let doff = match acquire(decl, t, dst) {
                Ok(o) => o,
                Err(e) => {
                    return Err(e);
                },
            };
            out.push(Instruction::Ld { dst: Register::T0, src: Memory::Mem(Register::Fp, so) });
            out.push(Instruction::Sd { dst: Memory::Mem(Register::Fp, doff), src: Register::T0 });
            proof {
                let pr = spec_gen_insn(ids_view(decl@), table_view(old(t)@), ins@)->Ok_0;
                assert(code_view(out@) =~= code_view(old(out)@) + pr.1);
            }
            Ok(())
        },
        tir::Instruction::Const { dst, src } => {
            let doff = match acquire(decl, t, dst) {
                Ok(o) => o,
                Err(e) => {
                    return Err(e);
                },
            };
            out.push(Instruction::Li { dst: Register::T0, imm: *src });
            out.push(Instruction::Sd { dst: Memory::Mem(Register::Fp, doff), src: Register::T0 });
            proof {
                let pr = spec_gen_insn(ids_view(decl@), table_view(old(t)@), ins@)->Ok_0;
                assert(code_view(out@) =~= code_view(old(out)@) + pr.1);
            }
            Ok(())
        },
        tir::Instruction::Arith { op, dst, lhs, rhs } => {
            let lo = match acquire(decl, t, lhs) {
                Ok(o) => o,
                Err(e) => {
                    return Err(e);
                },
            };
            let ro = match acquire(decl, t, rhs) {
                Ok(o) => o,
                Err(e) => {
                    return Err(e);
                },
            };
            let doff = match acquire(decl, t, dst) {
                Ok(o) => o,
                Err(e) => {
                    return Err(e);
                },
            };
            out.push(Instruction::Ld { dst: Register::T0, src: Memory::Mem(Register::Fp, lo) });
            out.push(Instruction::Ld { dst: Register::T1, src: Memory::Mem(Register::Fp, ro) });
            out.push(
                Instruction::Arith {
                    op: aop_of(*op),
                    dst: Register::T0,
                    lhs: Register::T0,
                    rhs: Register::T1,
                },
            );
            out.push(Instruction::Sd { dst: Memory::Mem(Register::Fp, doff), src: Register::T0 });
            proof {
                let pr = spec_gen_insn(ids_view(decl@), table_view(old(t)@), ins@)->Ok_0;
                assert(code_view(out@) =~= code_view(old(out)@) + pr.1);
            }
            Ok(())
        },
        tir::Instruction::Read(id) => {
            let off = match acquire(decl, t, id) {
                Ok(o) => o,
                Err(e) => {
                    return Err(e);
                },
            };
            out.push(Instruction::call(Id::from_strslice(READ_FN)));
            out.push(Instruction::Sd { dst: Memory::Mem(Register::Fp, off), src: Register::A0 });
            proof {
                let pr = spec_gen_insn(ids_view(decl@), table_view(old(t)@), ins@)->Ok_0;
                assert(code_view(out@) =~= code_view(old(out)@) + pr.1);
            }
            Ok(())
        },
        tir::Instruction::Print(id) => {
            let off = match acquire(decl, t, id) {
                Ok(o) => o,
                Err(e) => {
                    return Err(e);
                },
            };
            out.push(Instruction::Ld { dst: Register::A0, src: Memory::Mem(Register::Fp, off) });
            out.push(Instruction::call(Id::from_strslice(PRINT_FN)));
            proof {
                let pr = spec_gen_insn(ids_view(decl@), table_view(old(t)@), ins@)->Ok_0;
                assert(code_view(out@) =~= code_view(old(out)@) + pr.1);
            }
            Ok(())
        },
    }
}

/// Generate the code of the instructions of a block from position `i` on.
fn gen_insns(
    decl: &Vec<Id>,
    insns: &Vec<tir::Instruction>,
    i: usize,
    t: &mut FrameTable,
    out: &mut Vec<Instruction>,
) -> (r: Result<(), Error>)
    requires
        i <= insns.len(),
        table_wf(ids_view(decl@), table_view(old(t)@)),
        8 * decl@.len() + 16 <= i32::MAX,
    ensures
        table_wf(ids_view(decl@), table_view(final(t)@)),
        match r {
            Ok(u) => spec_gen_insns(
                ids_view(decl@),
                insns@.map(|k, x: tir::Instruction| x@),
                i as int,
                table_view(old(t)@),
            ) matches Ok(pr) && pr.0 == table_view(final(t)@) && code_view(final(out)@)
                == code_view(old(out)@) + pr.1,
            Err(e) => spec_gen_insns(
                ids_view(decl@),
                insns@.map(|k, x: tir::Instruction| x@),
                i as int,
                table_view(old(t)@),
            ) == Err::<(TableV, Seq<InstrV>), ErrorV>(e@),
        },
    decreases insns.len() - i,
{
    if i == insns.len() {
        proof {
            assert(code_view(out@) =~= code_view(old(out)@) + Seq::<InstrV>::empty());
        }
        Ok(())
    } else {
        let ghost iv = insns@.map(|k, x: tir::Instruction| x@);
        proof {
            assert(iv[i as int] == insns@[i as int]@);
        }
        match gen_insn(decl, t, &insns[i], out) {
            Err(e) => {
                return Err(e);
            },
            Ok(()) => {},
        }
        match gen_insns(decl, insns, i + 1, t, out) {
            Err(e) => {
                return Err(e);
            },
            Ok(()) => {},
        }
        proof {
            let pr = spec_gen_insns(
                ids_view(decl@),
                iv,
                i as int,
                table_view(old(t)@),
            )->Ok_0;
            assert(code_view(out@) =~= code_view(old(out)@) + pr.1);
        }
        Ok(())
    }
}

/// Generate the code of one terminator into `out`.
fn gen_term(
    decl: &Vec<Id>,
    bs: &Vec<(Id, tir::Block)>,
    t: &mut FrameTable,
    tm: &tir::Terminator,
    out: &mut Vec<Instruction>,
) -> (r: Result<(), Error>)
    requires
        table_wf(ids_view(decl@), table_view(old(t)@)),
        8 * decl@.len() + 16 <= i32::MAX,
    ensures
        table_wf(ids_view(decl@), table_view(final(t)@)),
        match r {
            Ok(u) => spec_gen_term(
                ids_view(decl@),
                block_keys(bs@.map(|j, p: (Id, tir::Block)| (p.0@, p.1@))),
                table_view(old(t)@),
                tm@,
            ) matches Ok(pr) && pr.0 == table_view(final(t)@) && code_view(final(out)@)
                == code_view(old(out)@) + pr.1,
            Err(e) => spec_gen_term(
                ids_view(decl@),
                block_keys(bs@.map(|j, p: (Id, tir::Block)| (p.0@, p.1@))),
                table_view(old(t)@),
                tm@,
            ) == Err::<(TableV, Seq<InstrV>), ErrorV>(e@),
        },
{
    match tm {
        tir::Terminator::Exit => {
            let no_saves: Vec<Register> = Vec::new();
            let mut ep = epilogue(&no_saves);
            proof {
                assert(code_view(ep@) == epilogue_instrs(Seq::empty()));
            }
            out.append(&mut ep);
            proof {
                assert(code_view(out@) =~= code_view(old(out)@) + epilogue_instrs(Seq::empty()));
            }
            Ok(())
        },
        tir::Terminator::Jump(l) => {
            if block_exists(bs, l) {
                out.push(Instruction::jump(JumpTarget::Local(l.clone())));
                proof {
                    let pr = spec_gen_term(
                        ids_view(decl@),
                        block_keys(bs@.map(|j, p: (Id, tir::Block)| (p.0@, p.1@))),
                        table_view(old(t)@),
                        tm@,
                    )->Ok_0;
                    assert(code_view(out@) =~= code_view(old(out)@) + pr.1);
                }
                Ok(())
            } else {
                Err(Error::MalformedIr(l.clone()))
            }
        },
        tir::Terminator::Branch { guard, tt, ff } => {
            let go = match acquire(decl, t, guard) {
                Ok(o) => o,
                Err(e) => {
                    return Err(e);
                },
            };
            if !block_exists(bs, tt) {
                return Err(Error::MalformedIr(tt.clone()));
            }
            if !block_exists(bs, ff) {
                return Err(Error::MalformedIr(ff.clone()));
            }
            out.push(Instruction::Ld { dst: Register::T0, src: Memory::Mem(Register::Fp, go) });
            out.push(
                Instruction::Branch {
                    cond: Condition::NotEqual,
                    lhs: Register::T0,
                    rhs: Register::Zero,
                    target: JumpTarget::Local(tt.clone()),
                },
            );
            out.push(Instruction::jump(JumpTarget::Local(ff.clone())));
            proof {
                let pr = spec_gen_term(
                    ids_view(decl@),
                    block_keys(bs@.map(|j, p: (Id, tir::Block)| (p.0@, p.1@))),
                    table_view(old(t)@),
                    tm@,
                )->Ok_0;
                assert(code_view(out@) =~= code_view(old(out)@) + pr.1);
            }
            Ok(())
        },
    }
}

/// Generate the code of the terminators of a block from position `i` on.
fn gen_terms(
    decl: &Vec<Id>,
    bs: &Vec<(Id, tir::Block)>,
    terms: &Vec<tir::Terminator>,
    i: usize,
    t: &mut FrameTable,
    out: &mut Vec<Instruction>,
) -> (r: Result<(), Error>)
    requires
        i <= terms.len(),
        table_wf(ids_view(decl@), table_view(old(t)@)),
        8 * decl@.len() + 16 <= i32::MAX,
    ensures
        table_wf(ids_view(decl@), table_view(final(t)@)),
        match r {
            Ok(u) => spec_gen_terms(
                ids_view(decl@),
                block_keys(bs@.map(|j, p: (Id, tir::Block)| (p.0@, p.1@))),
                terms@.map(|k, x: tir::Terminator| x@),
                i as int,
                table_view(old(t)@),
            ) matches Ok(pr) && pr.0 == table_view(final(t)@) && code_view(final(out)@)
                == code_view(old(out)@) + pr.1,
            Err(e) => spec_gen_terms(
                ids_view(decl@),
                block_keys(bs@.map(|j, p: (Id, tir::Block)| (p.0@, p.1@))),
                terms@.map(|k, x: tir::Terminator| x@),
                i as int,
                table_view(old(t)@),
            ) == Err::<(TableV, Seq<InstrV>), ErrorV>(e@),
        },
    decreases terms.len() - i,
{
    if i == terms.len() {
        proof {
            assert(code_view(out@) =~= code_view(old(out)@) + Seq::<InstrV>::empty());
        }
        Ok(())
    } else {
        let ghost tv = terms@.map(|k, x: tir::Terminator| x@);
        proof {
            assert(tv[i as int] == terms@[i as int]@);
        }
        match gen_term(decl, bs, t, &terms[i], out) {
            Err(e) => {
                return Err(e);
            },
            Ok(()) => {},
        }
        match gen_terms(decl, bs, terms, i + 1, t, out) {
            Err(e) => {
                return Err(e);
            },
            Ok(()) => {},
        }
        proof {
            let pr = spec_gen_terms(
                ids_view(decl@),
                block_keys(bs@.map(|j, p: (Id, tir::Block)| (p.0@, p.1@))),
                tv,
                i as int,
                table_view(old(t)@),
            )->Ok_0;
            assert(code_view(out@) =~= code_view(old(out)@) + pr.1);
        }
        Ok(())
    }
}

/// Generate the basic blocks for the IR blocks from position `i` on.
fn gen_blocks(
    decl: &Vec<Id>,
    bs: &Vec<(Id, tir::Block)>,
    i: usize,
    t: &mut FrameTable,
    out: &mut Vec<crate::rv64::BasicBlock>,
) -> (r: Result<(), Error>)
    requires
        i <= bs.len(),
        table_wf(ids_view(decl@), table_view(old(t)@)),
        8 * decl@.len() + 16 <= i32::MAX,
    ensures
        table_wf(ids_view(decl@), table_view(final(t)@)),
        match r {
            Ok(u) => spec_gen_blocks(
                ids_view(decl@),
                block_keys(bs@.map(|j, p: (Id, tir::Block)| (p.0@, p.1@))),
                bs@.map(|j, p: (Id, tir::Block)| (p.0@, p.1@)),
                i as int,
                table_view(old(t)@),
            ) matches Ok(pr) && pr.0 == table_view(final(t)@) && final(out)@.map(
                |k, b: crate::rv64::BasicBlock| b@,
            ) == old(out)@.map(|k, b: crate::rv64::BasicBlock| b@) + pr.1,
            Err(e) => spec_gen_blocks(
                ids_view(decl@),
                block_keys(bs@.map(|j, p: (Id, tir::Block)| (p.0@, p.1@))),
                bs@.map(|j, p: (Id, tir::Block)| (p.0@, p.1@)),
                i as int,
                table_view(old(t)@),
            ) == Err::<(TableV, Seq<crate::rv64::BasicBlockV>), ErrorV>(e@),
        },
    decreases bs.len() - i,
{
    let ghost bv = bs@.map(|j, p: (Id, tir::Block)| (p.0@, p.1@));
    if i == bs.len() {
        proof {
            assert(out@.map(|k, b: crate::rv64::BasicBlock| b@) =~= old(out)@.map(
                |k, b: crate::rv64::BasicBlock| b@,
            ) + Seq::<crate::rv64::BasicBlockV>::empty());
        }
        Ok(())
    } else {
        proof {
            assert(bv[i as int] == (bs@[i as int].0@, bs@[i as int].1@));
        }
        let mut code: Vec<Instruction> = Vec::new();
        match gen_insns(decl, &bs[i].1.insn, 0, t, &mut code) {
            Err(e) => {
                return Err(e);
            },
            Ok(()) => {},
        }
        match gen_terms(decl, bs, &bs[i].1.term, 0, t, &mut code) {
            Err(e) => {
                return Err(e);
            },
            Ok(()) => {},
        }
        let bb = crate::rv64::BasicBlock { id: bs[i].0.clone(), instructions: code };
        proof {
            let pr = spec_gen_block(
                ids_view(decl@),
                block_keys(bv),
                table_view(old(t)@),
                bv[i as int].0,
                bv[i as int].1,
            )->Ok_0;
            assert(bb@.instructions =~= pr.1.instructions);
            assert(bb@ == pr.1);
        }
        out.push(bb);
        match gen_blocks(decl, bs, i + 1, t, out) {
            Err(e) => {
                return Err(e);
            },
            Ok(()) => {},
        }
        proof {
            let pr = spec_gen_blocks(
                ids_view(decl@),
                block_keys(bv),
                bv,
                i as int,
                table_view(old(t)@),
            )->Ok_0;
            assert(out@.map(|k, b: crate::rv64::BasicBlock| b@) =~= old(out)@.map(
                |k, b: crate::rv64::BasicBlock| b@,
            ) + pr.1);
        }
        Ok(())
    }
}

/// Transform an IR program into a backend program: one basic block per IR
/// block in the IR's stable label order, every identifier in one fixed stack
/// slot, a 16-byte-aligned frame, and an abort on the first reference to an
/// undeclared identifier or to an unknown jump target.
pub fn code_gen(p: &tir::Program) -> (r: Result<crate::rv64::Program, Error>)
    requires
        p@.wf(),
    ensures
        match r {
            Ok(prog) => spec_code_gen(p@) matches Ok(pv) && prog@ == pv && prog@.wf(),
            Err(e) => spec_code_gen(p@) == Err::<crate::rv64::ProgramV, ErrorV>(e@),
        },
{
    let mut table: FrameTable = Vec::new();
    let mut bbs: Vec<crate::rv64::BasicBlock> = Vec::new();
    proof {
        assert(table_view(table@) =~= Seq::<(Seq<char>, int)>::empty());
    }
    match gen_blocks(&p.decl, &p.block, 0, &mut table, &mut bbs) {
        Err(e) => {
            return Err(e);
        },
        Ok(()) => {},
    }
    proof {
        lemma_table_len(ids_view(p.decl@), table_view(table@));
    }
    let n: usize = table.len();
    let ni: i32 = n as i32;
    let q: i32 = (ni + 2) / 2;
    proof {
        assert(2 * (q as int) <= ni as int + 2 && 16 * (q as int) == spec_frame_size(n as int))
            by (nonlinear_arith)
            requires
                q as int == (ni as int + 2) / 2,
                ni as int == n as int,
                0 <= ni,
        ;
    }
    let space: i32 = 16 * q;
    let prog = crate::rv64::Program {
        id: Id::from_strslice("main"),
        basic_blocks: bbs,
        stack_space: space,
        globals: Vec::new(),
        used_registers: Vec::new(),
    };
    proof {
        let pv = spec_code_gen(p@)->Ok_0;
        assert(prog@.basic_blocks =~= pv.basic_blocks);
        assert(prog@.globals =~= pv.globals);
        assert(prog@.used_registers =~= pv.used_registers);
        assert(prog@ == pv);
        let dv = ids_view(p.decl@);
        let bsv = p@.block;
        lemma_gen_blocks_ok(dv, block_keys(bsv), bsv, 0, Seq::empty());
        let pr = spec_gen_blocks(dv, block_keys(bsv), bsv, 0, Seq::empty())->Ok_0;
        assert(pv.basic_blocks == pr.1);
        assert(crate::ident::id_wf("main"@)) by {
            reveal_strlit("main");
            assert(("main"@).len() == 4);
            assert(("main"@)[0] == 'm' && ("main"@)[1] == 'a' && ("main"@)[2] == 'i' && (
            "main"@)[3] == 'n');
            assert(('m' as u32) == 109 && ('a' as u32) == 97 && ('i' as u32) == 105 && (
            'n' as u32) == 110);
            assert(crate::ident::is_id_char('m') && crate::ident::is_id_char('a')
                && crate::ident::is_id_char('i') && crate::ident::is_id_char('n'));
        }
        assert(space as int % 16 == 0) by (nonlinear_arith)
            requires
                space as int == 16 * (q as int),
        ;
        assert(forall|j: int|
            0 <= j < pv.basic_blocks.len() ==> crate::ident::id_wf(
                (#[trigger] pv.basic_blocks[j]).id,
            )) by {
            assert(forall|j: int|
                0 <= j < bsv.len() ==> crate::ident::id_wf((#[trigger] bsv[j]).0));
        }
        assert(prog@.wf()) by {
            assert(0 <= space);
        }
    }
    Ok(prog)
}

} // verus!
