//! The tiny IR the backend consumes: a set of declared identifiers and a
//! mapping from block identifier to a block of instructions and terminators.
//!
//! The block mapping is kept as an association list sorted strictly by label,
//! which is what gives the printer its stable emission order.

use vstd::prelude::*;

use crate::ast::BOp;
use crate::ident::Id;
use crate::ident::chars_lt;
use crate::ident::id_wf;
use crate::ident::lemma_chars_lt_connected;
use crate::ident::lemma_chars_lt_trans;

verus! {

/// An IR instruction.
#[derive(Debug)]
pub enum Instruction {
    Copy { dst: Id, src: Id },
    Const { dst: Id, src: i64 },
    Arith { op: BOp, dst: Id, lhs: Id, rhs: Id },
    /// Read a value from the input into the identifier's slot.
    Read(Id),
    /// Print the identifier's value.
    Print(Id),
}

/// Spec-level mirror of [`Instruction`].
pub enum InsnV {
    Copy { dst: Seq<char>, src: Seq<char> },
    Const { dst: Seq<char>, src: i64 },
    Arith { op: BOp, dst: Seq<char>, lhs: Seq<char>, rhs: Seq<char> },
    Read(Seq<char>),
    Print(Seq<char>),
}

impl View for Instruction {
    type V = InsnV;

    open spec fn view(&self) -> InsnV {
        match self {
            Instruction::Copy { dst, src } => InsnV::Copy { dst: dst@, src: src@ },
            Instruction::Const { dst, src } => InsnV::Const { dst: dst@, src: *src },
            Instruction::Arith { op, dst, lhs, rhs } => InsnV::Arith {
                op: *op,
                dst: dst@,
                lhs: lhs@,
                rhs: rhs@,
            },
            Instruction::Read(id) => InsnV::Read(id@),
            Instruction::Print(id) => InsnV::Print(id@),
        }
    }
}

/// A block terminator.
#[derive(Debug)]
pub enum Terminator {
    Exit,
    Jump(Id),
    /// Transfer control to `tt` if the guard's value is non-zero, else to
    /// `ff`.
    Branch { guard: Id, tt: Id, ff: Id },
}

/// Spec-level mirror of [`Terminator`].
pub enum TermV {
    Exit,
    Jump(Seq<char>),
    Branch { guard: Seq<char>, tt: Seq<char>, ff: Seq<char> },
}

impl View for Terminator {
    type V = TermV;

    open spec fn view(&self) -> TermV {
        match self {
            Terminator::Exit => TermV::Exit,
            Terminator::Jump(id) => TermV::Jump(id@),
            Terminator::Branch { guard, tt, ff } => TermV::Branch {
                guard: guard@,
                tt: tt@,
                ff: ff@,
            },
        }
    }
}

/// An IR basic block: an instruction list and a terminator list.
#[derive(Debug)]
pub struct Block {
    pub insn: Vec<Instruction>,
    pub term: Vec<Terminator>,
}

/// Spec-level mirror of [`Block`].
pub struct BlockV {
    pub insn: Seq<InsnV>,
    pub term: Seq<TermV>,
}

impl View for Block {
    type V = BlockV;

    open spec fn view(&self) -> BlockV {
        BlockV {
            insn: self.insn@.map(|j, x: Instruction| x@),
            term: self.term@.map(|j, x: Terminator| x@),
        }
    }
}

/// An IR program: declared identifiers, and blocks keyed by label.
#[derive(Debug)]
pub struct Program {
    /// The declared identifiers (a set: order is irrelevant, only membership
    /// is consulted).
    pub decl: Vec<Id>,
    /// The blocks, sorted strictly by label.
    pub block: Vec<(Id, Block)>,
}

/// Spec-level mirror of [`Program`].
pub struct ProgV {
    pub decl: Seq<Seq<char>>,
    pub block: Seq<(Seq<char>, BlockV)>,
}

impl View for Program {
    type V = ProgV;

    open spec fn view(&self) -> ProgV {
        ProgV {
            decl: self.decl@.map(|j, x: Id| x@),
            block: self.block@.map(|j, p: (Id, Block)| (p.0@, p.1@)),
        }
    }
}

impl ProgV {
    /// Well-formedness of an IR program, as the backend assumes it: every
    /// identifier is shaped like an identifier, the block list is strictly
    /// sorted by label (the association-list form of a mapping), and the
    /// declaration count is small enough that every stack-slot offset fits a
    /// 32-bit word.
    pub open spec fn wf(self) -> bool {
        &&& forall|j: int| 0 <= j < self.decl.len() ==> id_wf(#[trigger] self.decl[j])
        &&& forall|j: int| 0 <= j < self.block.len() ==> id_wf(#[trigger] self.block[j].0)
        &&& forall|j: int, k: int|
            0 <= j < k < self.block.len() ==> chars_lt(self.block[j].0, self.block[k].0)
        &&& 8 * self.decl.len() + 16 <= i32::MAX
    }
}

/// The block list with `(id, b)` put at its place in label order; a block
/// already stored under the same label is replaced.
pub open spec fn sorted_insert(
    bs: Seq<(Seq<char>, BlockV)>,
    id: Seq<char>,
    b: BlockV,
) -> Seq<(Seq<char>, BlockV)>
    decreases bs.len(),
{
    if bs.len() == 0 {
        seq![(id, b)]
    } else if chars_lt(bs[0].0, id) {
        seq![bs[0]] + sorted_insert(bs.skip(1), id, b)
    } else if bs[0].0 == id {
        seq![(id, b)] + bs.skip(1)
    } else {
        seq![(id, b)] + bs
    }
}

/// In a label list whose first `i` labels come before `id`, the sorted
/// insertion happens at position `i`.
proof fn lemma_sorted_insert_at(bs: Seq<(Seq<char>, BlockV)>, id: Seq<char>, b: BlockV, i: int)
    requires
        0 <= i <= bs.len(),
        forall|j: int| 0 <= j < i ==> chars_lt((#[trigger] bs[j]).0, id),
        i < bs.len() ==> !chars_lt(bs[i].0, id),
    ensures
        i < bs.len() && bs[i].0 == id ==> sorted_insert(bs, id, b) == bs.subrange(0, i) + seq![
            (id, b),
        ] + bs.skip(i + 1),
        !(i < bs.len() && bs[i].0 == id) ==> sorted_insert(bs, id, b) == bs.subrange(0, i) + seq![
            (id, b),
        ] + bs.skip(i),
    decreases i,
{
    if i == 0 {
        if bs.len() == 0 {
            assert(sorted_insert(bs, id, b) =~= bs.subrange(0, 0) + seq![(id, b)] + bs.skip(0));
        } else if bs[0].0 == id {
            assert(sorted_insert(bs, id, b) =~= bs.subrange(0, 0) + seq![(id, b)] + bs.skip(1));
        } else {
            assert(sorted_insert(bs, id, b) =~= bs.subrange(0, 0) + seq![(id, b)] + bs.skip(0));
        }
    } else {
        assert(chars_lt(bs[0].0, id));
        let rest = bs.skip(1);
        assert(forall|j: int| 0 <= j < i - 1 ==> (#[trigger] rest[j]).0 == bs[j + 1].0);
        lemma_sorted_insert_at(rest, id, b, i - 1);
        if i < bs.len() && bs[i].0 == id {
            assert(rest[i - 1].0 == id);
            assert(sorted_insert(bs, id, b) =~= bs.subrange(0, i) + seq![(id, b)] + bs.skip(i + 1))
                by {
                assert(sorted_insert(rest, id, b) == rest.subrange(0, i - 1) + seq![(id, b)]
                    + rest.skip(i));
            }
        } else {
            assert(sorted_insert(bs, id, b) =~= bs.subrange(0, i) + seq![(id, b)] + bs.skip(i)) by {
                assert(sorted_insert(rest, id, b) == rest.subrange(0, i - 1) + seq![(id, b)]
                    + rest.skip(i - 1));
            }
        }
    }
}

/// A chain of adjacent comparisons orders every pair.
proof fn lemma_adjacent_chain(bs: Seq<(Seq<char>, BlockV)>, j: int, k: int)
    requires
        forall|q: int| 0 <= q < bs.len() - 1 ==> chars_lt((#[trigger] bs[q]).0, bs[q + 1].0),
        0 <= j < k < bs.len(),
    ensures
        chars_lt(bs[j].0, bs[k].0),
    decreases k - j,
{
    if j + 1 < k {
        lemma_adjacent_chain(bs, j, k - 1);
        lemma_chars_lt_trans(bs[j].0, bs[k - 1].0, bs[k].0);
    }
}

/// Sorted insertion keeps the list sorted, and every label of the result is
/// the inserted one or one of the old ones.
proof fn lemma_sorted_insert_sorted(bs: Seq<(Seq<char>, BlockV)>, id: Seq<char>, b: BlockV)
    requires
        forall|j: int, k: int|
            0 <= j < k < bs.len() ==> chars_lt((#[trigger] bs[j]).0, (#[trigger] bs[k]).0),
    ensures
        forall|j: int, k: int|
            0 <= j < k < sorted_insert(bs, id, b).len() ==> chars_lt(
                (#[trigger] sorted_insert(bs, id, b)[j]).0,
                (#[trigger] sorted_insert(bs, id, b)[k]).0,
            ),
        forall|q: int|
            0 <= q < sorted_insert(bs, id, b).len() ==> (#[trigger] sorted_insert(bs, id, b)[q]).0
                == id || (exists|p: int| 0 <= p < bs.len() && bs[p].0 == sorted_insert(bs, id, b)[q].0),
    decreases bs.len(),
{
    let r = sorted_insert(bs, id, b);
    if bs.len() == 0 {
    } else if chars_lt(bs[0].0, id) {
        let rest = bs.skip(1);
        assert(forall|j: int, k: int|
            0 <= j < k < rest.len() ==> chars_lt((#[trigger] rest[j]).0, (#[trigger] rest[k]).0));
        lemma_sorted_insert_sorted(rest, id, b);
        let rr = sorted_insert(rest, id, b);
        assert(r =~= seq![bs[0]] + rr);
        assert forall|q: int| 0 <= q < rr.len() implies chars_lt(bs[0].0, (#[trigger] rr[q]).0) by {
            if rr[q].0 != id {
                let p = choose|p: int| 0 <= p < rest.len() && rest[p].0 == rr[q].0;
                assert(rest[p] == bs[p + 1]);
            }
        }
        assert forall|q: int| 0 <= q < r.len() implies r[q].0 == id || (exists|p: int|
            0 <= p < bs.len() && (#[trigger] bs[p]).0 == r[q].0) by {
            if q == 0 {
                assert(bs[0].0 == r[0].0);
            } else if rr[q - 1].0 != id {
                let p = choose|p: int| 0 <= p < rest.len() && rest[p].0 == rr[q - 1].0;
                assert(bs[p + 1].0 == r[q].0);
            }
        }
    } else if bs[0].0 == id {
        assert(r =~= seq![(id, b)] + bs.skip(1));
        assert forall|q: int| 1 <= q < r.len() implies chars_lt(id, (#[trigger] r[q]).0) by {
            assert(r[q] == bs[q]);
            assert(chars_lt(bs[0].0, bs[q].0));
        }
        assert(forall|q: int| 1 <= q < r.len() ==> (#[trigger] r[q]) == bs[q]);
    } else {
        if !chars_lt(id, bs[0].0) {
            lemma_chars_lt_connected(bs[0].0, id);
        }
        assert(r =~= seq![(id, b)] + bs);
        assert forall|q: int| 1 <= q < r.len() implies chars_lt(id, (#[trigger] r[q]).0) by {
            assert(r[q] == bs[q - 1]);
            if q - 1 > 0 {
                lemma_chars_lt_trans(id, bs[0].0, bs[q - 1].0);
            }
        }
        assert(forall|q: int| 1 <= q < r.len() ==> (#[trigger] r[q]) == bs[q - 1]);
    }
}

impl Program {
    /// Check the backend's input assumptions at run time: every identifier
    /// shaped like an identifier, the block list strictly sorted by label,
    /// and a declaration count whose slots fit the frame offsets.
    pub fn wf_check(&self) -> (r: bool)
        ensures
            r == self@.wf(),
    {
        let mut i: usize = 0;
        while i < self.decl.len()
            invariant
                i <= self.decl@.len(),
                forall|j: int| 0 <= j < i ==> id_wf((#[trigger] self@.decl[j])),
            decreases self.decl@.len() - i,
        {
            if !self.decl[i].is_wf() {
                proof {
                    assert(self@.decl[i as int] == self.decl@[i as int]@);
                }
                return false;
            }
            proof {
                assert(self@.decl[i as int] == self.decl@[i as int]@);
            }
            i = i + 1;
        }
        let mut i: usize = 0;
        while i < self.block.len()
            invariant
                i <= self.block@.len(),
                forall|j: int| 0 <= j < self.decl@.len() ==> id_wf((#[trigger] self@.decl[j])),
                forall|j: int| 0 <= j < i ==> id_wf((#[trigger] self@.block[j]).0),
            decreases self.block@.len() - i,
        {
            if !self.block[i].0.is_wf() {
                proof {
                    assert(self@.block[i as int].0 == self.block@[i as int].0@);
                }
                return false;
            }
            proof {
                assert(self@.block[i as int].0 == self.block@[i as int].0@);
            }
            i = i + 1;
        }
        if self.block.len() > 0 {
            let mut i: usize = 0;
            while i < self.block.len() - 1
                invariant
                    self.block@.len() > 0,
                    i <= self.block@.len() - 1,
                    forall|j: int| 0 <= j < self.decl@.len() ==> id_wf((#[trigger] self@.decl[j])),
                    forall|j: int| 0 <= j < self.block@.len() ==> id_wf((#[trigger] self@.block[j]).0),
                    forall|q: int|
                        0 <= q < i ==> chars_lt((#[trigger] self@.block[q]).0, self@.block[q + 1].0),
                decreases self.block@.len() - i,
            {
                if !self.block[i].0.lt_id(&self.block[i + 1].0) {
                    proof {
                        assert(self@.block[i as int].0 == self.block@[i as int].0@);
                        assert(self@.block[i as int + 1].0 == self.block@[i as int + 1].0@);
                    }
                    return false;
                }
                proof {
                    assert(self@.block[i as int].0 == self.block@[i as int].0@);
                    assert(self@.block[i as int + 1].0 == self.block@[i as int + 1].0@);
                }
                i = i + 1;
            }
        }
        proof {
            assert forall|j: int, k: int|
                0 <= j < k < self@.block.len() implies chars_lt(
                (#[trigger] self@.block[j]).0,
                (#[trigger] self@.block[k]).0,
            ) by {
                lemma_adjacent_chain(self@.block, j, k);
            }
        }
        if self.decl.len() > (((i32::MAX as usize) - 16) / 8) {
            return false;
        }
        true
    }

    /// Store `b` under the label `id`, keeping the block list strictly
    /// sorted; a block already stored under the same label is replaced.
    pub fn insert_block(&mut self, id: Id, b: Block)
        requires
            forall|j: int, k: int|
                0 <= j < k < old(self)@.block.len() ==> chars_lt(
                    old(self)@.block[j].0,
                    old(self)@.block[k].0,
                ),
        ensures
            final(self).decl == old(self).decl,
            final(self)@.block == sorted_insert(old(self)@.block, id@, b@),
            forall|j: int, k: int|
                0 <= j < k < final(self)@.block.len() ==> chars_lt(
                    final(self)@.block[j].0,
                    final(self)@.block[k].0,
                ),
    {
        let ghost bv = self@.block;
        let mut i: usize = 0;
        while i < self.block.len() && self.block[i].0.lt_id(&id)
            invariant
                i <= self.block@.len(),
                self@.block == bv,
                self.block@.len() == bv.len(),
                forall|j: int| 0 <= j < i ==> chars_lt((#[trigger] bv[j]).0, id@),
            decreases self.block@.len() - i,
        {
            i = i + 1;
        }
        proof {
            lemma_sorted_insert_at(bv, id@, b@, i as int);
            lemma_sorted_insert_sorted(bv, id@, b@);
        }
        if i < self.block.len() && self.block[i].0.eq_id(&id) {
            self.block[i] = (id, b);
            proof {
                assert(self@.block =~= bv.subrange(0, i as int) + seq![(id@, b@)] + bv.skip(
                    i as int + 1,
                ));
            }
        } else {
            self.block.insert(i, (id, b));
            proof {
                assert(self@.block =~= bv.subrange(0, i as int) + seq![(id@, b@)] + bv.skip(
                    i as int,
                ));
            }
        }
    }
}

} // verus!
