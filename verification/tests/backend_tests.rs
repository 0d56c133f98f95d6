use smol::Id;
use smol::codegen::call_sequence;
use smol::codegen::code_gen;
use smol::emit::append_mangled;
use smol::emit::epilogue;
use smol::emit::prologue;
use smol::rv64::ArithOp;
use smol::rv64::Error;
use smol::rv64::Instruction;
use smol::rv64::JumpTarget;
use smol::rv64::Location;
use smol::rv64::Memory;
use smol::rv64::Program;
use smol::rv64::Register;
use smol::text::append_int;
use smol::tir;

fn pid(s: &str) -> Id {
    Id::from_strslice(s)
}

fn one_block(insn: Vec<tir::Instruction>, term: Vec<tir::Terminator>) -> Vec<(Id, tir::Block)> {
    vec![(pid("entry"), tir::Block { insn, term })]
}

// Scenario: `{Const(x, 5); Print(x)}` terminated by `Exit` generates, in
// order: an immediate load of 5 into a scratch register, a store to x's
// slot, a load of x's slot into the first argument register, a call to the
// print runtime symbol, then the epilogue and the return.
#[test]
fn print_constant_sequence() {
    let p = tir::Program {
        decl: vec![pid("x")],
        block: one_block(
            vec![
                tir::Instruction::Const { dst: pid("x"), src: 5 },
                tir::Instruction::Print(pid("x")),
            ],
            vec![tir::Terminator::Exit],
        ),
    };
    let prog = code_gen(&p).unwrap();
    assert_eq!(prog.basic_blocks.len(), 1);
    assert_eq!(
        prog.basic_blocks[0].instructions,
        vec![
            Instruction::Li { dst: Register::T0, imm: 5 },
            Instruction::Sd { dst: Memory::Mem(Register::Fp, -16), src: Register::T0 },
            Instruction::Ld { dst: Register::A0, src: Memory::Mem(Register::Fp, -16) },
            Instruction::Jal { dst: Register::Ra, target: JumpTarget::Global(pid("_cflat_print")) },
            Instruction::ArithI { op: ArithOp::Add, dst: Register::Sp, lhs: Register::Fp, rhs: 0 },
            Instruction::Ld { dst: Register::Fp, src: Memory::Mem(Register::Sp, -8) },
            Instruction::Jalr { dst: Register::Zero, target: Register::Ra },
        ]
    );
    assert_eq!(prog.stack_space, 16);
    assert_eq!(
        prog.asm_code(),
        "main:\n\
         sd fp, -8(sp)\n\
         addi fp, sp, 0\n\
         addi sp, sp, -16\n\
         .Lmain.entry:\n\
         li t0, 5\n\
         sd t0, -16(fp)\n\
         ld a0, -16(fp)\n\
         jal ra, _cflat_print\n\
         addi sp, fp, 0\n\
         ld fp, -8(sp)\n\
         jalr zero, ra\n"
    );
}

// Scenario: `Branch{guard: b, tt: t1, ff: t2}` lowers to a load of the
// guard, a branch-if-non-zero to t1, and an unconditional jump to t2: the
// branch is taken (control reaches t1) iff the guard is non-zero, else
// control flows to t2.
#[test]
fn branch_guard_sequence() {
    let blk = |term: Vec<tir::Terminator>| tir::Block { insn: vec![], term };
    let p = tir::Program {
        decl: vec![pid("b")],
        block: vec![
            (
                pid("entry"),
                blk(vec![tir::Terminator::Branch { guard: pid("b"), tt: pid("t1"), ff: pid("t2") }]),
            ),
            (pid("t1"), blk(vec![tir::Terminator::Exit])),
            (pid("t2"), blk(vec![tir::Terminator::Exit])),
        ],
    };
    let prog = code_gen(&p).unwrap();
    assert_eq!(
        prog.basic_blocks[0].instructions,
        vec![
            Instruction::Ld { dst: Register::T0, src: Memory::Mem(Register::Fp, -16) },
            Instruction::Branch {
                cond: smol::rv64::Condition::NotEqual,
                lhs: Register::T0,
                rhs: Register::Zero,
                target: JumpTarget::Local(pid("t1")),
            },
            Instruction::Jal { dst: Register::Zero, target: JumpTarget::Local(pid("t2")) },
        ]
    );
    let text = prog.asm_code();
    // every referenced mangled label is defined in the same output
    assert!(text.contains("bne t0, zero, .Lmain.t1\n"));
    assert!(text.contains("jal zero, .Lmain.t2\n"));
    assert!(text.contains(".Lmain.t1:\n"));
    assert!(text.contains(".Lmain.t2:\n"));
}

// Determinism: generating from the same IR program twice yields
// byte-identical assembly text.
#[test]
fn deterministic_output() {
    let make = || tir::Program {
        decl: vec![pid("x"), pid("y")],
        block: one_block(
            vec![
                tir::Instruction::Read(pid("x")),
                tir::Instruction::Arith {
                    op: smol::ast::BOp::Add,
                    dst: pid("y"),
                    lhs: pid("x"),
                    rhs: pid("x"),
                },
                tir::Instruction::Print(pid("y")),
            ],
            vec![tir::Terminator::Exit],
        ),
    };
    let a = code_gen(&make()).unwrap().asm_code();
    let b = code_gen(&make()).unwrap().asm_code();
    assert_eq!(a, b);
}

// Single-slot property: an identifier referenced in several blocks keeps one
// stable offset, and distinct identifiers get distinct offsets.
#[test]
fn one_slot_per_identifier() {
    let p = tir::Program {
        decl: vec![pid("a"), pid("b")],
        block: vec![
            (
                pid("b1"),
                tir::Block {
                    insn: vec![tir::Instruction::Copy { dst: pid("b"), src: pid("a") }],
                    term: vec![tir::Terminator::Jump(pid("b2"))],
                },
            ),
            (
                pid("b2"),
                tir::Block {
                    insn: vec![tir::Instruction::Print(pid("a"))],
                    term: vec![tir::Terminator::Exit],
                },
            ),
        ],
    };
    let prog = code_gen(&p).unwrap();
    // block b1: a is the first reference (slot -16), b the second (-24)
    assert_eq!(
        prog.basic_blocks[0].instructions[0],
        Instruction::Ld { dst: Register::T0, src: Memory::Mem(Register::Fp, -16) }
    );
    assert_eq!(
        prog.basic_blocks[0].instructions[1],
        Instruction::Sd { dst: Memory::Mem(Register::Fp, -24), src: Register::T0 }
    );
    // block b2 reuses a's slot
    assert_eq!(
        prog.basic_blocks[1].instructions[0],
        Instruction::Ld { dst: Register::A0, src: Memory::Mem(Register::Fp, -16) }
    );
    assert_eq!(prog.stack_space, 32);
}

// Frame-size invariant: the reserved stack space is always a multiple of 16.
#[test]
fn frame_size_is_aligned() {
    for n in 0..6usize {
        let decl: Vec<Id> = (0..n).map(|k| pid(&format!("v{k}"))).collect();
        let insn: Vec<tir::Instruction> =
            (0..n).map(|k| tir::Instruction::Const { dst: pid(&format!("v{k}")), src: 1 }).collect();
        let p = tir::Program { decl, block: one_block(insn, vec![tir::Terminator::Exit]) };
        let prog = code_gen(&p).unwrap();
        assert_eq!(prog.stack_space % 16, 0);
        assert!(prog.stack_space >= 8 * (n as i32) + 8);
    }
}

// Save/restore symmetry: the epilogue restores exactly the prologue's saved
// registers, from the same slots, in reverse order; fp and sp are handled by
// the dedicated sequences around them.
#[test]
fn save_restore_symmetry() {
    let used = vec![Register::S1, Register::S2, Register::S3];
    let pro = prologue(48, &used);
    let epi = epilogue(&used);
    assert_eq!(
        pro,
        vec![
            Instruction::Sd { dst: Memory::Mem(Register::Sp, -8), src: Register::Fp },
            Instruction::ArithI { op: ArithOp::Add, dst: Register::Fp, lhs: Register::Sp, rhs: 0 },
            Instruction::ArithI { op: ArithOp::Add, dst: Register::Sp, lhs: Register::Sp, rhs: -48 },
            Instruction::Sd { dst: Memory::Mem(Register::Sp, 0), src: Register::S1 },
            Instruction::Sd { dst: Memory::Mem(Register::Sp, 8), src: Register::S2 },
            Instruction::Sd { dst: Memory::Mem(Register::Sp, 16), src: Register::S3 },
        ]
    );
    assert_eq!(
        epi,
        vec![
            Instruction::Ld { dst: Register::S3, src: Memory::Mem(Register::Sp, 16) },
            Instruction::Ld { dst: Register::S2, src: Memory::Mem(Register::Sp, 8) },
            Instruction::Ld { dst: Register::S1, src: Memory::Mem(Register::Sp, 0) },
            Instruction::ArithI { op: ArithOp::Add, dst: Register::Sp, lhs: Register::Fp, rhs: 0 },
            Instruction::Ld { dst: Register::Fp, src: Memory::Mem(Register::Sp, -8) },
            Instruction::Jalr { dst: Register::Zero, target: Register::Ra },
        ]
    );
}

// Scenario: two distinct scopes each declaring a local block literally named
// `loop` render to two different mangled label strings.
#[test]
fn scoped_labels_never_collide() {
    let make = |scope: &str| Program {
        id: pid(scope),
        basic_blocks: vec![smol::rv64::BasicBlock { id: pid("loop"), instructions: vec![] }],
        stack_space: 16,
        globals: vec![],
        used_registers: vec![],
    };
    let f = make("f").asm_code();
    let g = make("g").asm_code();
    assert!(f.contains(".Lf.loop:\n"));
    assert!(g.contains(".Lg.loop:\n"));
    let mut mf = String::new();
    append_mangled(&mut mf, &pid("f"), &pid("loop"));
    let mut mg = String::new();
    append_mangled(&mut mg, &pid("g"), &pid("loop"));
    assert_eq!(mf, ".Lf.loop");
    assert_eq!(mg, ".Lg.loop");
    assert_ne!(mf, mg);
}

// An undeclared identifier aborts generation with the offending name.
#[test]
fn undeclared_identifier_is_rejected() {
    let p = tir::Program {
        decl: vec![],
        block: one_block(
            vec![tir::Instruction::Const { dst: pid("y"), src: 1 }],
            vec![tir::Terminator::Exit],
        ),
    };
    assert_eq!(code_gen(&p), Err(Error::MalformedIr(pid("y"))));
}

// A terminator naming a non-existent block aborts generation.
#[test]
fn unknown_jump_target_is_rejected() {
    let p = tir::Program {
        decl: vec![],
        block: one_block(vec![], vec![tir::Terminator::Jump(pid("nowhere"))]),
    };
    assert_eq!(code_gen(&p), Err(Error::MalformedIr(pid("nowhere"))));
}

// A non-zero offset from a register location is an invalid operand.
#[test]
fn register_offset_is_rejected() {
    let reg = Location::Reg(Register::T0);
    assert_eq!(reg.checked_offset(8), Err(Error::InvalidOperand));
    assert_eq!(reg.checked_offset(0), Ok(reg));
    let mem = Location::MemoryL(Memory::Mem(Register::Fp, -16));
    assert_eq!(mem.checked_offset(8), Ok(Location::MemoryL(Memory::Mem(Register::Fp, -8))));
}

// A call with more than one argument or return value is rejected.
#[test]
fn call_arity_is_limited() {
    let two_args = vec![Location::Reg(Register::T0), Location::Reg(Register::T1)];
    assert_eq!(call_sequence(pid("_cflat_alloc"), &two_args, &vec![]), Err(Error::UnsupportedArity));
    let code = call_sequence(
        pid("_cflat_alloc"),
        &vec![Location::MemoryL(Memory::Mem(Register::Fp, -16))],
        &vec![Location::MemoryL(Memory::Mem(Register::Fp, -24))],
    )
    .unwrap();
    assert_eq!(
        code,
        vec![
            Instruction::Ld { dst: Register::A0, src: Memory::Mem(Register::Fp, -16) },
            Instruction::Jal { dst: Register::Ra, target: JumpTarget::Global(pid("_cflat_alloc")) },
            Instruction::Sd { dst: Memory::Mem(Register::Fp, -24), src: Register::A0 },
        ]
    );
}

// The instruction factories build the canonical forms.
#[test]
fn instruction_factories() {
    assert_eq!(
        Instruction::jump(JumpTarget::Local(pid("x"))),
        Instruction::Jal { dst: Register::Zero, target: JumpTarget::Local(pid("x")) }
    );
    assert_eq!(
        Instruction::call(pid("_cflat_init_gc")),
        Instruction::Jal { dst: Register::Ra, target: JumpTarget::Global(pid("_cflat_init_gc")) }
    );
    assert_eq!(
        Instruction::mov(Register::A0, Register::T1),
        Instruction::ArithI { op: ArithOp::Add, dst: Register::A0, lhs: Register::T1, rhs: 0 }
    );
    assert_eq!(
        Instruction::read(Register::A0, Location::Reg(Register::T2)),
        Instruction::mov(Register::A0, Register::T2)
    );
    assert_eq!(
        Instruction::read(Register::A0, Location::MemoryL(Memory::Mem(Register::Fp, -16))),
        Instruction::Ld { dst: Register::A0, src: Memory::Mem(Register::Fp, -16) }
    );
    assert_eq!(
        Instruction::write(Location::Reg(Register::T2), Register::A0),
        Instruction::mov(Register::T2, Register::A0)
    );
    assert_eq!(
        Instruction::write(Location::MemoryL(Memory::Mem(Register::Fp, -8)), Register::A0),
        Instruction::Sd { dst: Memory::Mem(Register::Fp, -8), src: Register::A0 }
    );
}

// Register footprints, including base registers of memory operands.
#[test]
fn used_register_footprints() {
    let m = Memory::Mem(Register::T2, 4);
    assert_eq!(m.used_registers(), Some(Register::T2));
    assert_eq!(Memory::Global { index: 0, offset: 0 }.used_registers(), None);
    assert_eq!(Location::Reg(Register::A3).used_registers(), Some(Register::A3));
    assert_eq!(
        Instruction::Sd { dst: m, src: Register::A0 }.used_registers(),
        vec![Register::T2, Register::A0]
    );
    assert_eq!(
        Instruction::Arith {
            op: ArithOp::Mul,
            dst: Register::T0,
            lhs: Register::T1,
            rhs: Register::T2
        }
        .used_registers(),
        vec![Register::T0, Register::T1, Register::T2]
    );
    assert_eq!(
        Instruction::Jalr { dst: Register::Ra, target: Register::T1 }.used_registers(),
        vec![Register::T1, Register::Ra]
    );
    assert_eq!(Instruction::Comment(String::from("hi")).used_registers(), vec![]);
}

// Offsetting memory locations shifts the byte offset and keeps the kind.
#[test]
fn location_offsets() {
    assert_eq!(Memory::Mem(Register::T0, 4).offset(4), Memory::Mem(Register::T0, 8));
    assert_eq!(
        Memory::Global { index: 1, offset: 0 }.offset(8),
        Memory::Global { index: 1, offset: 8 }
    );
    let loc = Location::MemoryL(Memory::Mem(Register::Fp, -16));
    assert_eq!(loc.offset(8), Location::MemoryL(Memory::Mem(Register::Fp, -8)));
    assert_eq!(Location::Reg(Register::T0).offset(0), Location::Reg(Register::T0));
    assert_eq!(loc.get_memory(), Some(&Memory::Mem(Register::Fp, -16)));
    assert_eq!(Location::Reg(Register::T0).get_memory(), None);
}

// Register-immediate forms without a hardware immediate variant are lowered
// through the scratch register at emission.
#[test]
fn arith_imm_lowering() {
    let p = Program {
        id: pid("main"),
        basic_blocks: vec![smol::rv64::BasicBlock {
            id: pid("entry"),
            instructions: vec![
                Instruction::ArithI {
                    op: ArithOp::Add,
                    dst: Register::T0,
                    lhs: Register::T0,
                    rhs: 7,
                },
                Instruction::ArithI {
                    op: ArithOp::Mul,
                    dst: Register::T0,
                    lhs: Register::T0,
                    rhs: 3,
                },
            ],
        }],
        stack_space: 16,
        globals: vec![],
        used_registers: vec![],
    };
    let text = p.asm_code();
    assert!(text.contains("addi t0, t0, 7\n"));
    assert!(text.contains("li t6, 3\nmul t0, t0, t6\n"));
}

// Exact decimal rendering, including the extremes of the immediate range.
#[test]
fn decimal_rendering() {
    let cases: Vec<(i64, &str)> = vec![
        (0, "0"),
        (7, "7"),
        (-1, "-1"),
        (1234567890, "1234567890"),
        (i64::MAX, "9223372036854775807"),
        (i64::MIN, "-9223372036854775808"),
    ];
    for (v, expected) in cases {
        let mut s = String::new();
        append_int(&mut s, v);
        assert_eq!(s, expected);
    }
}

// Identifier ordering is strict lexicographic order by code point.
#[test]
fn identifier_ordering() {
    assert!(pid("a").lt_id(&pid("b")));
    assert!(pid("a").lt_id(&pid("ab")));
    assert!(!pid("ab").lt_id(&pid("a")));
    assert!(!pid("a").lt_id(&pid("a")));
    assert!(pid("B").lt_id(&pid("a")));
    assert!(pid("a").eq_id(&pid("a")));
    assert!(!pid("a").eq_id(&pid("b")));
}

// Callee-saved classification: s1-s11 only; fp and sp are handled by the
// dedicated prologue/epilogue logic.
#[test]
fn callee_saved_class() {
    assert!(Register::S1.is_callee_saved());
    assert!(Register::S11.is_callee_saved());
    assert!(!Register::Fp.is_callee_saved());
    assert!(!Register::Sp.is_callee_saved());
    assert!(!Register::T0.is_callee_saved());
    assert!(!Register::A0.is_callee_saved());
    assert!(!Register::Ra.is_callee_saved());
}

// The sorted block order of the input is the stable emission order.
#[test]
fn blocks_render_in_sorted_order() {
    let blk = tir::Block { insn: vec![], term: vec![tir::Terminator::Exit] };
    let p = tir::Program {
        decl: vec![],
        block: vec![
            (pid("alpha"), tir::Block { insn: vec![], term: vec![tir::Terminator::Exit] }),
            (pid("beta"), blk),
        ],
    };
    let text = code_gen(&p).unwrap().asm_code();
    let a = text.find(".Lmain.alpha:").unwrap();
    let b = text.find(".Lmain.beta:").unwrap();
    assert!(a < b);
}

// The runtime well-formedness check accepts exactly the backend's input
// assumptions.
#[test]
fn wf_check_matches_assumptions() {
    let ok = tir::Program {
        decl: vec![pid("x")],
        block: vec![
            (pid("a"), tir::Block { insn: vec![], term: vec![tir::Terminator::Exit] }),
            (pid("b"), tir::Block { insn: vec![], term: vec![tir::Terminator::Exit] }),
        ],
    };
    assert!(ok.wf_check());
    let unsorted = tir::Program {
        decl: vec![],
        block: vec![
            (pid("b"), tir::Block { insn: vec![], term: vec![tir::Terminator::Exit] }),
            (pid("a"), tir::Block { insn: vec![], term: vec![tir::Terminator::Exit] }),
        ],
    };
    assert!(!unsorted.wf_check());
    let duplicate = tir::Program {
        decl: vec![],
        block: vec![
            (pid("a"), tir::Block { insn: vec![], term: vec![tir::Terminator::Exit] }),
            (pid("a"), tir::Block { insn: vec![], term: vec![tir::Terminator::Exit] }),
        ],
    };
    assert!(!duplicate.wf_check());
    let bad_name = tir::Program {
        decl: vec![pid("1x")],
        block: vec![],
    };
    assert!(!bad_name.wf_check());
    let empty_name = tir::Program {
        decl: vec![pid("")],
        block: vec![],
    };
    assert!(!empty_name.wf_check());
}

// Sorted insertion keeps the block mapping sorted and replaces an existing
// label.
#[test]
fn insert_block_keeps_order() {
    let blk = || tir::Block { insn: vec![], term: vec![tir::Terminator::Exit] };
    let mut p = tir::Program { decl: vec![], block: vec![] };
    p.insert_block(pid("m"), blk());
    p.insert_block(pid("a"), blk());
    p.insert_block(pid("z"), blk());
    p.insert_block(pid("m"), tir::Block { insn: vec![], term: vec![] });
    let labels: Vec<&str> = p.block.iter().map(|(id, _)| id.as_str()).collect();
    assert_eq!(labels, vec!["a", "m", "z"]);
    assert_eq!(p.block.len(), 3);
    // the block under "m" was replaced by the terminator-less one
    assert_eq!(p.block[1].1.term.len(), 0);
    assert!(p.wf_check());
}

// The printer's runtime input check: a non-negative frame and a save list
// of distinct callee-saved registers.
#[test]
fn printer_input_check() {
    let make = |space: i32, used: Vec<Register>| Program {
        id: pid("main"),
        basic_blocks: vec![],
        stack_space: space,
        globals: vec![],
        used_registers: used,
    };
    assert!(make(16, vec![Register::S1, Register::S2]).wf_check());
    assert!(make(0, vec![]).wf_check());
    assert!(!make(16, vec![Register::S1, Register::S1]).wf_check());
    assert!(!make(16, vec![Register::T0]).wf_check());
    assert!(!make(-16, vec![]).wf_check());
}

// A comment renders as one '#'-prefixed line with its text in debug-quoted,
// escaped form: quotes, backslashes and control characters are escaped, so
// a comment can never spill onto an unprefixed second line.
#[test]
fn comment_renders_quoted_on_one_line() {
    let make = |text: &str| Program {
        id: pid("main"),
        basic_blocks: vec![smol::rv64::BasicBlock {
            id: pid("entry"),
            instructions: vec![Instruction::Comment(String::from(text))],
        }],
        stack_space: 16,
        globals: vec![],
        used_registers: vec![],
    };
    assert!(make("hi").wf_check());
    assert!(make("hi").asm_code().contains("# \"hi\"\n"));
    // a newline in the comment text is escaped, never emitted raw
    let tricky = make("evil\ntext").asm_code();
    assert!(tricky.contains("# \"evil\\ntext\"\n"));
    assert!(!tricky.contains("\ntext"));
    // quotes and backslashes are escaped
    assert!(make("q\"x\\y").asm_code().contains("# \"q\\\"x\\\\y\"\n"));
    // tab, carriage return, and other control characters
    assert!(make("a\tb\rc").asm_code().contains("# \"a\\tb\\rc\"\n"));
    assert!(make("\x1b[0m").asm_code().contains("# \"\\u{1b}[0m\"\n"));
}

// The printer's input assumptions also cover the frame alignment, the label
// shapes and the global table.
#[test]
fn printer_checks_frame_labels_and_globals() {
    let make = |space: i32, id: &str, block: &str, instructions: Vec<Instruction>, globals: Vec<Id>| Program {
        id: pid(id),
        basic_blocks: vec![smol::rv64::BasicBlock { id: pid(block), instructions }],
        stack_space: space,
        globals,
        used_registers: vec![],
    };
    // an unaligned frame is rejected
    assert!(!make(8, "main", "entry", vec![], vec![]).wf_check());
    // labels must be shaped like identifiers
    assert!(!make(16, "1main", "entry", vec![], vec![]).wf_check());
    assert!(!make(16, "main", "entry.x", vec![], vec![]).wf_check());
    // a global operand must resolve inside the global table
    let load_global = Instruction::La {
        dst: Register::T0,
        src: Memory::Global { index: 0, offset: 0 },
    };
    assert!(!make(16, "main", "entry", vec![load_global.clone()], vec![]).wf_check());
    assert!(make(16, "main", "entry", vec![load_global], vec![pid("heap_base")]).wf_check());
}
