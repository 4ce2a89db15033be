use jam::recompiler::Recompiler;
use jam::EmuReg;
use jam::EmuRegName;
use jam::JITValue;
use jam::StackOffset;
use jam::Variable;

const CALLEE_PUSHES: [u8; 11] = [0x53, 0x54, 0x55, 0x41, 0x54, 0x41, 0x55, 0x41, 0x56, 0x41, 0x57];
const CALLEE_POPS: [u8; 11] = [0x41, 0x5f, 0x41, 0x5e, 0x41, 0x5d, 0x41, 0x5c, 0x5d, 0x5c, 0x5b];

/// Bytes of the prologue of `Recompiler::new(&[0, 1], &[0x1000])`.
const PROLOGUE_LEN: usize = 46;

/// The code emitted by `f` on a recompiler for emulator registers 0 and 1
/// and one pointer, followed by the exit.
fn body(f: impl FnOnce(&mut Recompiler)) -> Vec<u8> {
    let mut rc = Recompiler::new(&[0, 1], &[0x1000]);
    f(&mut rc);
    rc.prepare_for_exit();
    let code = rc.compile();
    code[PROLOGUE_LEN..].to_vec()
}

fn emu_reg(name: u32, position: i32) -> JITValue {
    JITValue::EmuReg(EmuReg { name: EmuRegName(name), position: StackOffset(position), size: StackOffset(4) })
}

#[test]
fn entry_and_exit_of_an_empty_function() {
    let mut rc = Recompiler::new(&[0, 1], &[0x1000, 0x2000]);
    rc.prepare_for_exit();
    let code = rc.compile();
    let mut expected = CALLEE_PUSHES.to_vec();
    expected.extend([0x50, 0x48, 0xb8, 0x00, 0x20, 0x00, 0x00, 0x00, 0x00, 0x00, 0x00, 0x48, 0x87, 0x04, 0x24]);
    expected.extend([0x50, 0x48, 0xb8, 0x00, 0x10, 0x00, 0x00, 0x00, 0x00, 0x00, 0x00, 0x48, 0x87, 0x04, 0x24]);
    expected.extend([0x48, 0x8b, 0x04, 0x24]);
    expected.extend([0x48, 0x83, 0xc4, 0xf8]);
    expected.extend([0x8b, 0x08, 0x89, 0x4c, 0x24, 0x04]);
    expected.extend([0x8b, 0x48, 0x04, 0x89, 0x0c, 0x24]);
    expected.extend([0x48, 0x83, 0xc4, 0x00]);
    expected.extend([0x48, 0x8b, 0x44, 0x24, 0x08]);
    expected.extend([0x8b, 0x4c, 0x24, 0x04, 0x89, 0x08]);
    expected.extend([0x8b, 0x0c, 0x24, 0x89, 0x48, 0x04]);
    expected.extend([0x48, 0x83, 0xc4, 0x08]);
    expected.extend([0x48, 0x83, 0xc4, 0x10]);
    expected.extend(CALLEE_POPS);
    expected.push(0xc3);
    assert_eq!(code, expected);
}

#[test]
fn prologue_length_of_the_test_layout() {
    let code = body(|_| {});
    let mut exit = vec![0x48, 0x83, 0xc4, 0x00];
    exit.extend([0x48, 0x8b, 0x44, 0x24, 0x08]);
    exit.extend([0x8b, 0x4c, 0x24, 0x04, 0x89, 0x08]);
    exit.extend([0x8b, 0x0c, 0x24, 0x89, 0x48, 0x04]);
    exit.extend([0x48, 0x83, 0xc4, 0x08]);
    exit.extend([0x48, 0x83, 0xc4, 0x08]);
    exit.extend(CALLEE_POPS);
    exit.push(0xc3);
    assert_eq!(code, exit);
}

#[test]
fn emulator_registers_are_found_by_name() {
    let rc = Recompiler::new(&[0, 1], &[0x1000]);
    assert_eq!(rc.reg(0), Some(emu_reg(0, 76)));
    assert_eq!(rc.reg(1), Some(emu_reg(1, 80)));
    assert_eq!(rc.reg(2), None);
}

#[test]
fn a_function_without_inputs() {
    let mut rc = Recompiler::new(&[], &[]);
    assert_eq!(rc.reg(0), None);
    rc.prepare_for_exit();
    let code = rc.compile();
    let mut expected = CALLEE_PUSHES.to_vec();
    expected.extend([0x48, 0x8b, 0x04, 0x24, 0x48, 0x83, 0xc4, 0x00]);
    expected.extend([0x48, 0x83, 0xc4, 0x00]);
    expected.extend([0x48, 0x8b, 0x04, 0x24]);
    expected.extend([0x48, 0x83, 0xc4, 0x00]);
    expected.extend([0x48, 0x83, 0xc4, 0x00]);
    expected.extend(CALLEE_POPS);
    expected.push(0xc3);
    assert_eq!(code, expected);
}

#[test]
fn set_immediate_then_exit_stores_the_register() {
    let code = body(|rc| {
        let r0 = rc.reg(0).unwrap();
        rc.seti_u32(r0, 5);
        rc.seti_u32(r0, 0);
    });
    let expected = [
        0x8b, 0x44, 0x24, 0x04, 0xb8, 0x05, 0x00, 0x00, 0x00, 0x31, 0xc0, 0x89, 0x44, 0x24, 0x04, 0x48,
        0x83, 0xc4, 0x00,
    ];
    assert_eq!(&code[..expected.len()], &expected);
}

#[test]
fn add_of_two_values_binds_both() {
    let code = body(|rc| {
        let r0 = rc.reg(0).unwrap();
        let r1 = rc.reg(1).unwrap();
        rc.addv_u32(r0, r1);
        rc.addi_u32(r0, 1);
        rc.seti_u32(r1, 0);
    });
    let expected = [
        0x8b, 0x44, 0x24, 0x04, 0x8b, 0x0c, 0x24, 0x01, 0xc8, 0x83, 0xc0, 0x01, 0x31, 0xc9,
    ];
    assert_eq!(&code[..expected.len()], &expected);
}

#[test]
fn set_from_a_value_in_memory() {
    let code = body(|rc| {
        let r0 = rc.reg(0).unwrap();
        let r1 = rc.reg(1).unwrap();
        rc.setv_u32(r0, r1);
    });
    let expected = [0x8b, 0x44, 0x24, 0x04, 0x8b, 0x04, 0x24];
    assert_eq!(&code[..expected.len()], &expected);
}

#[test]
fn new_variables_grow_the_frame() {
    let mut rc = Recompiler::new(&[0, 1], &[0x1000]);
    let v = rc.new_u32();
    assert_eq!(v, JITValue::Variable(Variable { position: StackOffset(84), size: StackOffset(4) }));
    let w = rc.new_u64();
    assert_eq!(w, JITValue::Variable(Variable { position: StackOffset(92), size: StackOffset(8) }));
    let b = rc.new_u8();
    assert_eq!(b, JITValue::Variable(Variable { position: StackOffset(93), size: StackOffset(1) }));
    let h = rc.new_u16();
    assert_eq!(h, JITValue::Variable(Variable { position: StackOffset(95), size: StackOffset(2) }));
    rc.prepare_for_exit();
    let code = rc.compile();
    let expected = [
        0x48, 0x83, 0xc4, 0xfc, 0x48, 0x83, 0xc4, 0xf8, 0x48, 0x83, 0xc4, 0xff, 0x48, 0x83, 0xc4, 0xfe,
        0x48, 0x83, 0xc4, 0x0f,
    ];
    assert_eq!(&code[PROLOGUE_LEN..PROLOGUE_LEN + expected.len()], &expected);
}

#[test]
fn pointers_are_loaded_and_dereferenced() {
    let code = body(|rc| {
        let r0 = rc.reg(0).unwrap();
        rc.load_ptr(r0, 0);
        rc.deref_u32(r0);
        rc.index_u32(r0, 2);
    });
    let expected = [
        0x8b, 0x44, 0x24, 0x04, 0x48, 0x8b, 0x44, 0x24, 0x08, 0x8b, 0x00, 0x8b, 0x40, 0x08,
    ];
    assert_eq!(&code[..expected.len()], &expected);
}

#[test]
fn jumps_to_labels_are_resolved() {
    let code = body(|rc| {
        let label = rc.new_label();
        rc.jump_if_zero(label);
        rc.set_carry();
        rc.define_label(label);
        let back = rc.new_long_label();
        rc.define_label(back);
        rc.jump_if_carry(back);
    });
    let expected = [0x74, 0x01, 0xf9, 0x0f, 0x82, 0xfa, 0xff, 0xff, 0xff];
    assert_eq!(&code[..expected.len()], &expected);
}

#[test]
fn flags_and_traps() {
    let code = body(|rc| {
        rc.set_carry();
        rc.clear_carry();
        rc.set_zero();
        rc.clear_signed();
        rc.illegal_insn();
    });
    let expected = [0xf9, 0xf8, 0x39, 0xc0, 0x39, 0xc0, 0x0f, 0x0b];
    assert_eq!(&code[..expected.len()], &expected);
}

#[test]
fn a_call_through_a_pointer_aligns_the_stack() {
    let code = body(|rc| rc.call_ptr(0));
    let expected = [
        0x48, 0x83, 0xc4, 0xf0, 0xff, 0x54, 0x24, 0x18, 0x48, 0x83, 0xc4, 0x10, 0x48, 0x83, 0xc4, 0x00,
    ];
    assert_eq!(&code[..expected.len()], &expected);
}

#[test]
fn a_call_saves_the_bound_caller_saved_registers() {
    let code = body(|rc| {
        let r0 = rc.reg(0).unwrap();
        rc.bind(r0);
        rc.call_ptr(0);
    });
    let expected = [
        0x8b, 0x44, 0x24, 0x04, 0x50, 0x48, 0x83, 0xc4, 0xf8, 0xff, 0x54, 0x24, 0x18, 0x48, 0x83, 0xc4,
        0x08, 0x58,
    ];
    assert_eq!(&code[..expected.len()], &expected);
}

#[test]
fn a_call_through_a_value() {
    let code = body(|rc| {
        let f = rc.new_u64();
        rc.call(f);
    });
    let expected = [
        0x48, 0x83, 0xc4, 0xf8, 0x48, 0x8b, 0x04, 0x24, 0x50, 0x48, 0x83, 0xc4, 0xf0, 0xff, 0xd0, 0x48,
        0x83, 0xc4, 0x10, 0x58,
    ];
    assert_eq!(&code[..expected.len()], &expected);
}

#[test]
fn arguments_are_loaded_or_exchanged() {
    let code = body(|rc| {
        let r0 = rc.reg(0).unwrap();
        rc.set_arg1(r0);
    });
    assert_eq!(&code[..4], &[0x8b, 0x7c, 0x24, 0x04]);
    let code = body(|rc| {
        let r0 = rc.reg(0).unwrap();
        rc.bind(r0);
        rc.set_arg1(r0);
        rc.zero_arg2();
    });
    assert_eq!(&code[..8], &[0x8b, 0x44, 0x24, 0x04, 0x48, 0x97, 0x31, 0xf6]);
}

#[test]
fn zeroing_an_argument_register_stores_its_value() {
    let code = body(|rc| {
        let r1 = rc.reg(1).unwrap();
        rc.set_arg1(r1);
        rc.zero_arg1();
    });
    assert_eq!(&code[..8], &[0x8b, 0x3c, 0x24, 0x89, 0x3c, 0x24, 0x31, 0xff]);
}

#[test]
fn a_subroutine_call_and_return() {
    let code = body(|rc| {
        let l = rc.new_label();
        rc.call_label(l);
        rc.define_label(l);
        rc.ret();
    });
    assert_eq!(&code[..4], &[0xe8, 0x00, 0xc3, 0x48]);
}

#[test]
fn many_registers_are_spilled_and_reloaded() {
    let inputs: Vec<u32> = (0..32).collect();
    let ptrs = [0x1000u64, 0x2000, 0x3000, 0x4000];
    let mut rc = Recompiler::new(&inputs, &ptrs);
    for i in 0..32 {
        let r = rc.reg(i).unwrap();
        rc.load_ptr(r, 1);
        rc.deref_u32(r);
    }
    let r8 = rc.reg(8).unwrap();
    let r1 = rc.reg(1).unwrap();
    rc.set_arg1(r1);
    rc.call_ptr(3);
    rc.load_ptr(r8, 2);
    rc.deref_u32(r8);
    let r2 = rc.reg(2).unwrap();
    let r3 = rc.reg(3).unwrap();
    rc.setv_u32(r2, r8);
    rc.seti_u32(r3, 0xf0f0_0f0f);
    rc.prepare_for_exit();
    let code = rc.compile();
    assert_eq!(&code[..11], &CALLEE_PUSHES);
    assert_eq!(&code[code.len() - 12..], &[0x41, 0x5f, 0x41, 0x5e, 0x41, 0x5d, 0x41, 0x5c, 0x5d, 0x5c, 0x5b, 0xc3]);
}

#[test]
fn loading_flags_emits_nothing() {
    let code = body(|rc| {
        rc.load_flags();
        rc.set_carry();
    });
    assert_eq!(&code[..1], &[0xf9]);
}

#[test]
fn a_return_without_a_call_takes_the_variables_below_zero() {
    let code = body(|rc| rc.ret());
    assert_eq!(&code[..5], &[0xc3, 0x48, 0x83, 0xc4, 0xf8]);
}

#[test]
fn a_function_can_be_finished_once_variables_are_dropped_and_labels_defined() {
    let mut rc = Recompiler::new(&[0, 1], &[0x1000]);
    assert!(rc.can_compile());
    rc.new_u32();
    assert!(!rc.can_compile());
    let l = rc.new_label();
    rc.jump(l);
    rc.prepare_for_exit();
    assert!(!rc.can_compile());
    rc.define_label(l);
    assert!(rc.can_compile());
}
