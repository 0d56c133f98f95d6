//! The backend's guarantees, stated and proved over the generation and
//! printing specifications.

use vstd::prelude::*;

use crate::codegen::TableV;
use crate::codegen::block_keys;
use crate::codegen::slot_offset;
use crate::codegen::spec_code_gen;
use crate::codegen::spec_gen_blocks;
use crate::codegen::spec_gen_term;
use crate::codegen::callee_saved_free;
use crate::codegen::instr_targets_ok;
use crate::codegen::lemma_gen_blocks_ok;
use crate::codegen::local_targets_ok;
use crate::codegen::table_wf;
use crate::emit::mangle;
use crate::emit::render_program;
use crate::emit::restore_seq;
use crate::emit::save_seq;
use crate::ident::id_wf;
use crate::ident::is_id_char;
use crate::rv64::Condition;
use crate::rv64::InstrV;
use crate::rv64::JumpTargetV;
use crate::rv64::Register;
use crate::rv64::spec_is_callee_saved;
use crate::tir;

verus! {

/// The frame layout the generator assigns to a program (meaningful when
/// generation succeeds).
pub open spec fn spec_layout(p: tir::ProgV) -> TableV {
    spec_gen_blocks(p.decl, block_keys(p.block), p.block, 0, Seq::empty())->Ok_0.0
}

/// Determinism: generation and rendering are functions of the IR value
/// alone, so the same IR program always yields byte-identical assembly text.
/// (The executable entry points are pinned to these functions by their
/// contracts.)
pub proof fn lemma_deterministic(p1: tir::ProgV, p2: tir::ProgV)
    requires
        p1 == p2,
    ensures
        spec_code_gen(p1) == spec_code_gen(p2),
        spec_code_gen(p1) matches Ok(g) ==> render_program(g) == render_program(
            spec_code_gen(p2)->Ok_0,
        ),
{
}

/// Single-slot property: the frame layout gives every identifier it holds
/// exactly one slot — identifiers are distinct, and so are their offsets.
/// The generation lemmas beside the generator add stability: a growing
/// table never disturbs the offsets already assigned.
pub proof fn lemma_single_slot(p: tir::ProgV)
    requires
        spec_code_gen(p) is Ok,
    ensures
        table_wf(p.decl, spec_layout(p)),
        forall|j: int, k: int|
            0 <= j < k < spec_layout(p).len() ==> spec_layout(p)[j].0 != spec_layout(p)[k].0,
        forall|j: int, k: int|
            0 <= j < k < spec_layout(p).len() ==> spec_layout(p)[j].1 != spec_layout(p)[k].1,
{
    let keys = block_keys(p.block);
    lemma_gen_blocks_ok(p.decl, keys, p.block, 0, Seq::empty());
    let t = spec_layout(p);
    assert(forall|j: int, k: int| 0 <= j < k < t.len() ==> t[j].1 != t[k].1) by {
        assert(forall|j: int| 0 <= j < t.len() ==> (#[trigger] t[j]).1 == slot_offset(j));
    }
}

/// Frame-size invariant: the reserved stack space of a generated program is
/// always a multiple of 16.
pub proof fn lemma_frame_aligned(p: tir::ProgV)
    requires
        spec_code_gen(p) is Ok,
    ensures
        spec_code_gen(p)->Ok_0.stack_space % 16 == 0,
{
    let n = spec_layout(p).len() as int;
    assert(16 * ((n + 2) / 2) % 16 == 0) by (nonlinear_arith);
}

/// Save/restore symmetry: the prologue's save sequence and the epilogue's
/// restore sequence cover the same registers and the same slots, the
/// restores in exactly the reverse order of the saves; the frame and stack
/// pointers are handled by dedicated prologue/epilogue logic and never
/// appear in either sequence.
pub proof fn lemma_save_restore_symmetry(used: Seq<Register>)
    requires
        forall|j: int| 0 <= j < used.len() ==> spec_is_callee_saved(#[trigger] used[j]),
    ensures
        save_seq(used).len() == restore_seq(used).len(),
        forall|j: int|
            0 <= j < used.len() ==> #[trigger] restore_seq(used)[j] == (InstrV::Ld {
                dst: used[used.len() - 1 - j],
                src: (save_seq(used)[used.len() - 1 - j])->Sd_dst,
            }),
        forall|j: int|
            0 <= j < used.len() ==> (#[trigger] save_seq(used)[j])->Sd_src == used[j]
                && used[j] != Register::Fp && used[j] != Register::Sp,
{
}

/// The meaning of a branch condition on two integer operand values.
pub open spec fn cond_holds(c: Condition, lhs: int, rhs: int) -> bool {
    match c {
        Condition::Equal => lhs == rhs,
        Condition::NotEqual => lhs != rhs,
        Condition::Less => lhs < rhs,
        Condition::LessEq => lhs <= rhs,
        Condition::Greater => lhs > rhs,
        Condition::GreaterEq => lhs >= rhs,
    }
}

/// Branch lowering: a branch generates a guard load, a conditional jump to
/// the true target and an unconditional jump to the false target — and the
/// conditional jump is taken exactly when the guard's value is non-zero, so
/// control transfers to `tt` iff the guard is non-zero and to `ff` iff it is
/// zero.
pub proof fn lemma_branch_guard(
    decl: Seq<Seq<char>>,
    keys: Seq<Seq<char>>,
    t: TableV,
    guard: Seq<char>,
    tt: Seq<char>,
    ff: Seq<char>,
    v: int,
)
    requires
        spec_gen_term(decl, keys, t, tir::TermV::Branch { guard, tt, ff }) is Ok,
    ensures
        ({
            let code = spec_gen_term(decl, keys, t, tir::TermV::Branch { guard, tt, ff })->Ok_0.1;
            &&& code.len() == 3
            &&& code[0] is Ld
            &&& code[1] == (InstrV::Branch {
                cond: Condition::NotEqual,
                lhs: Register::T0,
                rhs: Register::Zero,
                target: JumpTargetV::Local(tt),
            })
            &&& code[2] == (InstrV::Jal { dst: Register::Zero, target: JumpTargetV::Local(ff) })
            &&& (cond_holds(Condition::NotEqual, v, 0) <==> v != 0)
        }),
{
}

/// No dangling jumps: generation succeeds only when every local jump target
/// names an IR block, and the printer emits one label per block under the
/// same name — so every mangled local label referenced in the output is
/// defined in the same output.
pub proof fn lemma_no_dangling_jumps(p: tir::ProgV)
    requires
        spec_code_gen(p) is Ok,
    ensures
        spec_code_gen(p)->Ok_0.basic_blocks.len() == p.block.len(),
        forall|j: int|
            0 <= j < p.block.len() ==> (#[trigger] spec_code_gen(p)->Ok_0.basic_blocks[j]).id
                == p.block[j].0,
        forall|j: int|
            0 <= j < p.block.len() ==> local_targets_ok(
                (#[trigger] spec_code_gen(p)->Ok_0.basic_blocks[j]).instructions,
                block_keys(p.block),
            ),
{
    lemma_gen_blocks_ok(p.decl, block_keys(p.block), p.block, 0, Seq::empty());
}

/// Honesty of the save list: generated code only touches the zero,
/// return-address, stack and frame pointers, scratch registers and the
/// first argument register, never a general-purpose callee-saved register —
/// so the callee-saved save-set of a generated program (the union of
/// `used_registers` over its instructions, intersected with the
/// callee-saved class) is empty, exactly as the generator declares.
pub proof fn lemma_save_set_empty(p: tir::ProgV)
    requires
        spec_code_gen(p) is Ok,
    ensures
        spec_code_gen(p)->Ok_0.used_registers == Seq::<Register>::empty(),
        forall|j: int|
            0 <= j < spec_code_gen(p)->Ok_0.basic_blocks.len() ==> callee_saved_free(
                (#[trigger] spec_code_gen(p)->Ok_0.basic_blocks[j]).instructions,
            ),
{
    lemma_gen_blocks_ok(p.decl, block_keys(p.block), p.block, 0, Seq::empty());
}

/// Does `needle` occur contiguously inside `hay`?
pub open spec fn text_contains(hay: Seq<char>, needle: Seq<char>) -> bool {
    exists|o: int|
        0 <= o && o + needle.len() <= hay.len() && #[trigger] hay.subrange(
            o,
            o + needle.len() as int,
        ) == needle
}

/// What occurs in `b` occurs in `a + b`.
proof fn lemma_contains_shift(a: Seq<char>, b: Seq<char>, n: Seq<char>)
    requires
        text_contains(b, n),
    ensures
        text_contains(a + b, n),
{
    let o = choose|o: int|
        0 <= o && o + n.len() <= b.len() && #[trigger] b.subrange(o, o + n.len() as int) == n;
    assert((a + b).subrange(a.len() + o, a.len() + o + n.len() as int) =~= n) by {
        assert(forall|q: int|
            0 <= q < n.len() ==> #[trigger] (a + b)[a.len() + o + q] == b.subrange(
                o,
                o + n.len() as int,
            )[q]);
    }
}

/// A sequence contains its prefixes.
proof fn lemma_contains_prefix(a: Seq<char>, n: Seq<char>)
    requires
        n.len() <= a.len(),
        a.subrange(0, n.len() as int) == n,
    ensures
        text_contains(a, n),
{
    assert(0 <= 0 && 0 + n.len() <= a.len() && a.subrange(0, 0 + n.len() as int) == n);
}

/// The label line of one block: its mangled name and a colon.
pub open spec fn label_line(scope: Seq<char>, id: Seq<char>) -> Seq<char> {
    mangle(scope, id) + ":\n"@
}

/// The printed blocks from position `i` on hold the label line of every one
/// of those blocks.
proof fn lemma_block_label_rendered(
    scope: Seq<char>,
    bs: Seq<crate::rv64::BasicBlockV>,
    i: int,
    j: int,
)
    requires
        0 <= i <= j < bs.len(),
    ensures
        text_contains(crate::emit::blocks_from(scope, bs, i), label_line(scope, bs[j].id)),
    decreases j - i,
{
    let n = label_line(scope, bs[j].id);
    if i == j {
        let whole = crate::emit::blocks_from(scope, bs, i);
        assert(whole == crate::emit::block_str(scope, bs[i]) + crate::emit::blocks_from(
            scope,
            bs,
            i + 1,
        ));
        assert(whole.subrange(0, n.len() as int) =~= n) by {
            assert(crate::emit::block_str(scope, bs[i]) == n + crate::emit::instrs_from(
                scope,
                bs[i].instructions,
                0,
            ));
            assert(forall|q: int|
                0 <= q < n.len() ==> whole[q] == (crate::emit::block_str(scope, bs[i]))[q]);
        }
        lemma_contains_prefix(whole, n);
    } else {
        lemma_block_label_rendered(scope, bs, i + 1, j);
        lemma_contains_shift(
            crate::emit::block_str(scope, bs[i]),
            crate::emit::blocks_from(scope, bs, i + 1),
            n,
        );
    }
}

/// Does the rendered program define the mangled label of every local target
/// this instruction names?
pub open spec fn local_target_rendered(g: crate::rv64::ProgramV, i: InstrV) -> bool {
    match i {
        InstrV::Jal { dst, target: JumpTargetV::Local(l) } => text_contains(
            render_program(g),
            label_line(g.id, l),
        ),
        InstrV::Branch { cond, lhs, rhs, target: JumpTargetV::Local(l) } => text_contains(
            render_program(g),
            label_line(g.id, l),
        ),
        _ => true,
    }
}

/// No dangling jumps, at the level of the printed text: in the rendering of
/// a generated program, every mangled local label referenced by an
/// instruction is defined by a label line in the same output.
pub proof fn lemma_referenced_labels_defined(p: tir::ProgV)
    requires
        spec_code_gen(p) is Ok,
    ensures
        forall|j: int, q: int|
            0 <= j < spec_code_gen(p)->Ok_0.basic_blocks.len() && 0 <= q < (
            #[trigger] spec_code_gen(p)->Ok_0.basic_blocks[j]).instructions.len()
                ==> local_target_rendered(
                spec_code_gen(p)->Ok_0,
                #[trigger] spec_code_gen(p)->Ok_0.basic_blocks[j].instructions[q],
            ),
{
    let g = spec_code_gen(p)->Ok_0;
    let keys = block_keys(p.block);
    lemma_no_dangling_jumps(p);
    assert forall|j: int, q: int|
        0 <= j < g.basic_blocks.len() && 0 <= q < (#[trigger] g.basic_blocks[j]).instructions.len()
            implies local_target_rendered(g, #[trigger] g.basic_blocks[j].instructions[q]) by {
        let ins = g.basic_blocks[j].instructions[q];
        assert(instr_targets_ok(ins, keys));
        match ins {
            InstrV::Jal { dst, target: JumpTargetV::Local(l) } => {
                lemma_local_label_rendered(p, l);
            },
            InstrV::Branch { cond, lhs, rhs, target: JumpTargetV::Local(l) } => {
                lemma_local_label_rendered(p, l);
            },
            _ => {},
        }
    }
}

/// The label line of any block label of the program occurs in the rendered
/// text.
proof fn lemma_local_label_rendered(p: tir::ProgV, l: Seq<char>)
    requires
        spec_code_gen(p) is Ok,
        block_keys(p.block).contains(l),
    ensures
        text_contains(render_program(spec_code_gen(p)->Ok_0), label_line(spec_code_gen(p)->Ok_0.id, l)),
{
    let g = spec_code_gen(p)->Ok_0;
    lemma_no_dangling_jumps(p);
    let k = choose|k: int| 0 <= k < block_keys(p.block).len() && block_keys(p.block)[k] == l;
    assert(g.basic_blocks[k].id == l);
    lemma_block_label_rendered(g.id, g.basic_blocks, 0, k);
    let head = g.id + ":\n"@ + crate::emit::instrs_from(
        g.id,
        crate::emit::prologue_instrs(g.stack_space, g.used_registers),
        0,
    );
    assert(render_program(g) =~= head + crate::emit::blocks_from(g.id, g.basic_blocks, 0));
    lemma_contains_shift(head, crate::emit::blocks_from(g.id, g.basic_blocks, 0), label_line(g.id, l));
    assert(text_contains(render_program(g), label_line(g.id, l))) by {
        let full = head + crate::emit::blocks_from(g.id, g.basic_blocks, 0);
        let n = label_line(g.id, l);
        let o = choose|o: int|
            0 <= o && o + n.len() <= full.len() && #[trigger] full.subrange(
                o,
                o + n.len() as int,
            ) == n;
        assert(render_program(g).subrange(o, o + n.len() as int) =~= n);
    }
}

/// Label scoping: mangling is injective on well-formed scope and label
/// names, so identically named blocks of two different scopes always render
/// to two different label strings.
pub proof fn lemma_mangle_injective(s1: Seq<char>, l1: Seq<char>, s2: Seq<char>, l2: Seq<char>)
    requires
        id_wf(s1),
        id_wf(l1),
        id_wf(s2),
        id_wf(l2),
        mangle(s1, l1) == mangle(s2, l2),
    ensures
        s1 == s2,
        l1 == l2,
{
    reveal_strlit(".L");
    reveal_strlit(".");
    let m1 = mangle(s1, l1);
    let m2 = mangle(s2, l2);
    assert(m1.len() == 3 + s1.len() + l1.len());
    assert(m2.len() == 3 + s2.len() + l2.len());
    assert(forall|j: int| 0 <= j < s1.len() ==> m1[2 + j] == s1[j]);
    assert(forall|j: int| 0 <= j < s2.len() ==> m2[2 + j] == s2[j]);
    assert(m1[2 + s1.len() as int] == '.');
    assert(m2[2 + s2.len() as int] == '.');
    assert(forall|c: char| is_id_char(c) ==> c != '.') by {
        assert(('.' as u32) == 46);
    }
    if s1.len() < s2.len() {
        assert(m2[2 + s1.len() as int] == s2[s1.len() as int]);
        assert(is_id_char(s2[s1.len() as int]));
        assert(false);
    }
    if s2.len() < s1.len() {
        assert(m1[2 + s2.len() as int] == s1[s2.len() as int]);
        assert(is_id_char(s1[s2.len() as int]));
        assert(false);
    }
    assert(s1 =~= s2);
    assert(forall|j: int| 0 <= j < l1.len() ==> m1[3 + s1.len() + j] == l1[j]);
    assert(forall|j: int| 0 <= j < l2.len() ==> m2[3 + s2.len() + j] == l2[j]);
    assert(l1 =~= l2);
}

} // verus!
