use jam::assembler::Assembler;
use jam::Direction;
use jam::EmuReg;
use jam::EmuRegName;
use jam::GenericValue;
use jam::JITValue;
use jam::StackOffset;
use jam::Transfer;
use jam::Variable;
use jam::X64Reg;

fn code_of(f: impl FnOnce(&mut Assembler)) -> Vec<u8> {
    let mut a = Assembler::new();
    f(&mut a);
    a.into_code()
}

#[test]
fn new_assembler_is_empty() {
    assert_eq!(Assembler::new().into_code(), Vec::<u8>::new());
}

#[test]
fn immediates_are_little_endian() {
    let code = code_of(|a| {
        a.emit_u8(0xab);
        a.emit_u16(0x1234);
        a.emit_u32(0xdead_beef);
        a.emit_u64(0x0102_0304_0506_0708);
    });
    assert_eq!(
        code,
        vec![
            0xab, 0x34, 0x12, 0xef, 0xbe, 0xad, 0xde, 0x08, 0x07, 0x06, 0x05, 0x04, 0x03, 0x02,
            0x01
        ]
    );
}

#[test]
fn mov_immediates() {
    assert_eq!(code_of(|a| a.emit_movl_ir(0x1234_5678, X64Reg::RAX)), vec![0xb8, 0x78, 0x56, 0x34, 0x12]);
    assert_eq!(code_of(|a| a.emit_movl_ir(1, X64Reg::R9)), vec![0x41, 0xb9, 0x01, 0x00, 0x00, 0x00]);
    assert_eq!(
        code_of(|a| a.emit_movq_ir(0x1122_3344_5566_7788, X64Reg::RBX)),
        vec![0x48, 0xbb, 0x88, 0x77, 0x66, 0x55, 0x44, 0x33, 0x22, 0x11]
    );
}

#[test]
fn mov_between_registers() {
    assert_eq!(code_of(|a| a.emit_movl_rr(X64Reg::RAX, X64Reg::RCX)), vec![0x89, 0xc1]);
    assert_eq!(code_of(|a| a.emit_movl_rr(X64Reg::R8, X64Reg::RAX)), vec![0x44, 0x89, 0xc0]);
    assert_eq!(code_of(|a| a.emit_movl_rr(X64Reg::RDX, X64Reg::R15)), vec![0x41, 0x89, 0xd7]);
}

#[test]
fn mov_from_memory() {
    assert_eq!(code_of(|a| a.emit_movl_mr(X64Reg::RSP, X64Reg::RAX)), vec![0x8b, 0x04, 0x24]);
    assert_eq!(code_of(|a| a.emit_movl_mr(X64Reg::RBP, X64Reg::RCX)), vec![0x8b, 0x4d, 0x00]);
    assert_eq!(code_of(|a| a.emit_movl_mr(X64Reg::R13, X64Reg::RAX)), vec![0x41, 0x8b, 0x45, 0x00]);
    assert_eq!(code_of(|a| a.emit_movl_mr(X64Reg::RBX, X64Reg::RDX)), vec![0x8b, 0x13]);
    assert_eq!(code_of(|a| a.emit_movq_mr(X64Reg::RSP, X64Reg::RAX)), vec![0x48, 0x8b, 0x04, 0x24]);
    assert_eq!(code_of(|a| a.emit_movq_mr(X64Reg::R12, X64Reg::R8)), vec![0x4d, 0x8b, 0x04, 0x24]);
}

#[test]
fn mov_to_memory() {
    assert_eq!(code_of(|a| a.emit_movl_rm(X64Reg::RCX, X64Reg::RSP)), vec![0x89, 0x0c, 0x24]);
    assert_eq!(code_of(|a| a.emit_movl_rm(X64Reg::RCX, X64Reg::RAX)), vec![0x89, 0x08]);
    assert_eq!(code_of(|a| a.emit_movq_rm(X64Reg::RAX, X64Reg::RBP)), vec![0x48, 0x89, 0x45, 0x00]);
}

#[test]
fn mov_with_displacement() {
    assert_eq!(
        code_of(|a| a.emit_movl_mr_offset(X64Reg::RSP, X64Reg::RCX, StackOffset(8))),
        vec![0x8b, 0x4c, 0x24, 0x08]
    );
    assert_eq!(
        code_of(|a| a.emit_movl_mr_offset(X64Reg::RSP, X64Reg::RAX, StackOffset(0x100))),
        vec![0x8b, 0x84, 0x24, 0x00, 0x01, 0x00, 0x00]
    );
    assert_eq!(
        code_of(|a| a.emit_movl_mr_offset(X64Reg::RAX, X64Reg::RDX, StackOffset(-4))),
        vec![0x8b, 0x50, 0xfc]
    );
    assert_eq!(
        code_of(|a| a.emit_movl_mr_offset(X64Reg::RAX, X64Reg::RCX, StackOffset(0))),
        vec![0x8b, 0x08]
    );
    assert_eq!(
        code_of(|a| a.emit_movl_rm_offset(X64Reg::RCX, X64Reg::RSP, StackOffset(4))),
        vec![0x89, 0x4c, 0x24, 0x04]
    );
    assert_eq!(
        code_of(|a| a.emit_movl_rm_offset(X64Reg::R10, X64Reg::RSP, StackOffset(-0x81))),
        vec![0x44, 0x89, 0x94, 0x24, 0x7f, 0xff, 0xff, 0xff]
    );
    assert_eq!(
        code_of(|a| a.emit_movq_mr_offset(X64Reg::RSP, X64Reg::RAX, StackOffset(16))),
        vec![0x48, 0x8b, 0x44, 0x24, 0x10]
    );
    assert_eq!(
        code_of(|a| a.emit_movq_mr_offset(X64Reg::RSP, X64Reg::RAX, StackOffset(0))),
        vec![0x48, 0x8b, 0x04, 0x24]
    );
    assert_eq!(
        code_of(|a| a.emit_movq_rm_offset(X64Reg::R11, X64Reg::RSP, StackOffset(8))),
        vec![0x4c, 0x89, 0x5c, 0x24, 0x08]
    );
}

#[test]
fn add_and_stack_offsets() {
    let mut a = Assembler::new();
    assert_eq!(a.emit_addq_ir(-8, X64Reg::RSP), StackOffset(8));
    assert_eq!(a.emit_addq_ir(0x1000, X64Reg::RSP), StackOffset(-0x1000));
    assert_eq!(a.emit_addq_ir(0x1000, X64Reg::RAX), StackOffset(0));
    assert_eq!(a.emit_addl_ir(1, X64Reg::RAX), StackOffset(0));
    assert_eq!(a.emit_addl_ir(-1, X64Reg::R8), StackOffset(0));
    assert_eq!(
        a.into_code(),
        vec![
            0x48, 0x83, 0xc4, 0xf8, 0x48, 0x81, 0xc4, 0x00, 0x10, 0x00, 0x00, 0x48, 0x05, 0x00, 0x10,
            0x00, 0x00, 0x83, 0xc0, 0x01, 0x41, 0x83, 0xc0, 0xff
        ]
    );
    assert_eq!(code_of(|a| a.emit_addl_rr(X64Reg::RCX, X64Reg::RAX)), vec![0x01, 0xc8]);
    assert_eq!(code_of(|a| a.emit_addl_rr(X64Reg::R9, X64Reg::RBX)), vec![0x44, 0x01, 0xcb]);
}

#[test]
fn push_pop_and_their_offsets() {
    let mut a = Assembler::new();
    assert_eq!(a.emit_pushq_r(X64Reg::RBX), StackOffset(8));
    assert_eq!(a.emit_pushq_r(X64Reg::R12), StackOffset(8));
    assert_eq!(a.emit_popq_r(X64Reg::R15), StackOffset(-8));
    assert_eq!(a.emit_popq_r(X64Reg::RAX), StackOffset(-8));
    assert_eq!(a.emit_pushfq(), StackOffset(8));
    assert_eq!(a.emit_popfq(), StackOffset(-8));
    assert_eq!(a.into_code(), vec![0x53, 0x41, 0x54, 0x41, 0x5f, 0x58, 0x9c, 0x9d]);
}

#[test]
fn push_of_an_immediate() {
    let mut a = Assembler::new();
    assert_eq!(a.emit_pushq_i(0x2000), StackOffset(8));
    assert_eq!(
        a.into_code(),
        vec![0x50, 0x48, 0xb8, 0x00, 0x20, 0x00, 0x00, 0x00, 0x00, 0x00, 0x00, 0x48, 0x87, 0x04, 0x24]
    );
}

#[test]
fn exchanges() {
    assert_eq!(code_of(|a| a.emit_xchgq_rr(X64Reg::RAX, X64Reg::RCX)), vec![0x48, 0x91]);
    assert_eq!(code_of(|a| a.emit_xchgq_rr(X64Reg::R9, X64Reg::RAX)), vec![0x49, 0x91]);
    assert_eq!(code_of(|a| a.emit_xchgq_rr(X64Reg::RCX, X64Reg::RDX)), vec![0x48, 0x87, 0xd1]);
    assert_eq!(code_of(|a| a.emit_xchgq_rr(X64Reg::R8, X64Reg::R9)), vec![0x4d, 0x87, 0xc8]);
    assert_eq!(code_of(|a| a.emit_xchgq_rm(X64Reg::RAX, X64Reg::RSP)), vec![0x48, 0x87, 0x04, 0x24]);
}

#[test]
fn calls_and_returns() {
    let mut a = Assembler::new();
    assert_eq!(a.emit_callq_r(X64Reg::RAX), StackOffset(8));
    assert_eq!(a.emit_callq_r(X64Reg::R11), StackOffset(8));
    assert_eq!(a.emit_retq(), StackOffset(-8));
    assert_eq!(a.into_code(), vec![0xff, 0xd0, 0x41, 0xff, 0xd3, 0xc3]);
    assert_eq!(
        code_of(|a| {
            a.emit_callq_m_offset(X64Reg::RSP, StackOffset(0x18));
        }),
        vec![0xff, 0x54, 0x24, 0x18]
    );
    assert_eq!(
        code_of(|a| {
            a.emit_callq_m_offset(X64Reg::RSP, StackOffset(0));
        }),
        vec![0xff, 0x14, 0x24]
    );
}

#[test]
fn flags_comparisons_and_traps() {
    assert_eq!(code_of(|a| a.emit_clc()), vec![0xf8]);
    assert_eq!(code_of(|a| a.emit_stc()), vec![0xf9]);
    assert_eq!(code_of(|a| a.emit_cmpl_rr(X64Reg::RAX, X64Reg::RAX)), vec![0x39, 0xc0]);
    assert_eq!(code_of(|a| a.emit_cmpl_rr(X64Reg::R8, X64Reg::RCX)), vec![0x44, 0x39, 0xc1]);
    assert_eq!(code_of(|a| a.emit_illegal_insn()), vec![0x0f, 0x0b]);
}

#[test]
fn shifts_bit_tests_and_divisions() {
    assert_eq!(code_of(|a| a.emit_shll_ir(3, X64Reg::RAX)), vec![0xc1, 0xe0, 0x03]);
    assert_eq!(code_of(|a| a.emit_shrl_ir(4, X64Reg::RCX)), vec![0xc1, 0xe9, 0x04]);
    assert_eq!(code_of(|a| a.emit_sarl_ir(31, X64Reg::R10)), vec![0x41, 0xc1, 0xfa, 0x1f]);
    assert_eq!(code_of(|a| a.emit_btl_ir(5, X64Reg::RDX)), vec![0x0f, 0xba, 0xe2, 0x05]);
    assert_eq!(code_of(|a| a.emit_btl_ir(31, X64Reg::R8)), vec![0x41, 0x0f, 0xba, 0xe0, 0x1f]);
    assert_eq!(code_of(|a| a.emit_divl_r(X64Reg::RCX)), vec![0xf7, 0xf1]);
    assert_eq!(code_of(|a| a.emit_idivl_r(X64Reg::R9)), vec![0x41, 0xf7, 0xf9]);
}

#[test]
fn or_immediates() {
    assert_eq!(code_of(|a| a.emit_orl_ir(0xff, X64Reg::RAX)), vec![0x0d, 0xff, 0x00, 0x00, 0x00]);
    assert_eq!(code_of(|a| a.emit_orl_ir(1, X64Reg::RBX)), vec![0x81, 0xcb, 0x01, 0x00, 0x00, 0x00]);
    assert_eq!(
        code_of(|a| a.emit_orl_ir(2, X64Reg::R11)),
        vec![0x41, 0x81, 0xcb, 0x02, 0x00, 0x00, 0x00]
    );
}

#[test]
fn register_to_register_logic() {
    assert_eq!(code_of(|a| a.emit_xorl_rr(X64Reg::RAX, X64Reg::RAX)), vec![0x31, 0xc0]);
    assert_eq!(code_of(|a| a.emit_xorl_rr(X64Reg::RDI, X64Reg::RDI)), vec![0x31, 0xff]);
    assert_eq!(code_of(|a| a.emit_andl_rr(X64Reg::RCX, X64Reg::RDX)), vec![0x21, 0xca]);
    assert_eq!(code_of(|a| a.emit_orl_rr(X64Reg::RDX, X64Reg::RCX)), vec![0x09, 0xd1]);
    assert_eq!(code_of(|a| a.emit_subl_rr(X64Reg::RBX, X64Reg::RAX)), vec![0x29, 0xd8]);
    assert_eq!(code_of(|a| a.emit_testl_rr(X64Reg::RAX, X64Reg::RAX)), vec![0x85, 0xc0]);
    assert_eq!(code_of(|a| a.emit_xorl_rr(X64Reg::R8, X64Reg::R9)), vec![0x45, 0x31, 0xc1]);
}

#[test]
fn direct_jumps() {
    assert_eq!(code_of(|a| a.emit_jmp_rel8(-2)), vec![0xeb, 0xfe]);
    assert_eq!(code_of(|a| a.emit_jc_rel8(5)), vec![0x72, 0x05]);
    assert_eq!(code_of(|a| a.emit_jnc_rel8(5)), vec![0x73, 0x05]);
    assert_eq!(code_of(|a| a.emit_je_rel8(5)), vec![0x74, 0x05]);
    assert_eq!(code_of(|a| a.emit_jne_rel8(5)), vec![0x75, 0x05]);
    assert_eq!(
        code_of(|a| a.emit_jc_rel32(-6)),
        vec![0x0f, 0x82, 0xfa, 0xff, 0xff, 0xff]
    );
}

#[test]
fn labels_are_numbered_in_order() {
    let mut a = Assembler::new();
    let l0 = a.new_label();
    let l1 = a.new_long_label();
    let l2 = a.new_label();
    assert_eq!(l0.id, 0);
    assert_eq!(l0.size, StackOffset(1));
    assert_eq!(l1.id, 1);
    assert_eq!(l1.size, StackOffset(4));
    assert_eq!(l2.id, 2);
    assert_ne!(l0, l2);
}

#[test]
fn forward_short_jump_is_resolved() {
    let mut a = Assembler::new();
    let l = a.new_label();
    a.emit_jmp_label(l);
    a.emit_stc();
    a.emit_stc();
    a.emit_stc();
    a.define_label(l);
    a.resolve_label_addresses();
    assert_eq!(a.into_code(), vec![0xeb, 0x03, 0xf9, 0xf9, 0xf9]);
}

#[test]
fn backward_short_jump_is_resolved() {
    let mut a = Assembler::new();
    let l = a.new_defined_label();
    a.emit_stc();
    a.emit_jne_label(l);
    a.resolve_label_addresses();
    assert_eq!(a.into_code(), vec![0xf9, 0x75, 0xfd]);
}

#[test]
fn long_jump_is_resolved() {
    let mut a = Assembler::new();
    let l = a.new_long_label();
    a.emit_jc_long_label(l);
    for _ in 0..0x100 {
        a.emit_clc();
    }
    a.define_label(l);
    a.resolve_label_addresses();
    let code = a.into_code();
    assert_eq!(code.len(), 6 + 0x100);
    assert_eq!(&code[..6], &[0x0f, 0x82, 0x00, 0x01, 0x00, 0x00]);
    assert!(code[6..].iter().all(|&b| b == 0xf8));
}

#[test]
fn unresolved_labels_hold_placeholders() {
    let mut a = Assembler::new();
    let short = a.new_label();
    let long = a.new_long_label();
    a.emit_je_label(short);
    a.emit_call_label(long);
    assert_eq!(a.into_code(), vec![0x74, 0xff, 0xe8, 0xff, 0xff, 0xff, 0xff]);
}

#[test]
fn later_definition_wins() {
    let mut a = Assembler::new();
    let l = a.new_label();
    a.define_label(l);
    a.emit_js_label(l);
    a.emit_jns_label(l);
    a.define_label(l);
    a.emit_jnl_label(l);
    a.resolve_label_addresses();
    assert_eq!(a.into_code(), vec![0x78, 0x02, 0x79, 0x00, 0x7d, 0xfe]);
}

#[test]
fn transfers_become_moves_and_exchanges() {
    let r = JITValue::EmuReg(EmuReg { name: EmuRegName(3), position: StackOffset(12), size: StackOffset(4) });
    let v = JITValue::Variable(Variable { position: StackOffset(24), size: StackOffset(8) });
    let transfers = vec![
        Transfer { reg: X64Reg::RAX, other: GenericValue::JITValue(r), dir: Direction::ToReg },
        Transfer { reg: X64Reg::RCX, other: GenericValue::JITValue(r), dir: Direction::FromReg },
        Transfer { reg: X64Reg::RDX, other: GenericValue::JITValue(v), dir: Direction::ToReg },
        Transfer { reg: X64Reg::RDX, other: GenericValue::JITValue(v), dir: Direction::FromReg },
        Transfer { reg: X64Reg::RAX, other: GenericValue::X64Reg(X64Reg::RBX), dir: Direction::FromReg },
    ];
    let mut a = Assembler::new();
    a.emit_transfers(transfers, StackOffset(32));
    assert_eq!(
        a.into_code(),
        vec![
            0x8b, 0x44, 0x24, 0x14, 0x89, 0x4c, 0x24, 0x14, 0x48, 0x8b, 0x54, 0x24, 0x08, 0x48, 0x89,
            0x54, 0x24, 0x08, 0x48, 0x93
        ]
    );
}

#[test]
fn used_labels_must_be_defined() {
    let mut a = Assembler::new();
    assert!(a.all_labels_defined());
    let l = a.new_label();
    assert!(a.all_labels_defined());
    a.emit_jmp_label(l);
    assert!(!a.all_labels_defined());
    a.define_label(l);
    assert!(a.all_labels_defined());
}
