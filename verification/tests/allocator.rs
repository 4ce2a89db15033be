use jam::allocator::Allocator;
use jam::Direction;
use jam::EmuReg;
use jam::EmuRegName;
use jam::GenericValue;
use jam::Idx;
use jam::JITValue;
use jam::StackOffset;
use jam::Transfer;
use jam::Variable;
use jam::X64Reg;

fn emu(name: u32) -> JITValue {
    JITValue::EmuReg(EmuReg { name: EmuRegName(name), position: StackOffset(4 * (name as i32 + 1)), size: StackOffset(4) })
}

fn load(reg: X64Reg, v: JITValue) -> Transfer {
    Transfer { reg, other: GenericValue::JITValue(v), dir: Direction::ToReg }
}

fn store(reg: X64Reg, v: JITValue) -> Transfer {
    Transfer { reg, other: GenericValue::JITValue(v), dir: Direction::FromReg }
}

#[test]
fn a_new_allocator_has_an_empty_frame() {
    let a = Allocator::new();
    assert_eq!(a.stack(), StackOffset(0));
    assert_eq!(a.emulator_ptrs(), StackOffset(0));
    assert_eq!(a.native_ptrs(), StackOffset(8));
    assert_eq!(a.full_stack(), StackOffset(8));
    assert!(a.emulator_regs().is_empty());
    assert_eq!(a.prioritized_regs(), X64Reg::free_regs());
}

#[test]
fn binding_takes_registers_in_priority_order() {
    let mut a = Allocator::new();
    assert_eq!(a.bind_value(emu(0)).0, vec![load(X64Reg::RAX, emu(0))]);
    assert_eq!(a.bind_value(emu(1)).0, vec![load(X64Reg::RCX, emu(1))]);
    assert_eq!(a.value_to_reg(&emu(0)), Some(X64Reg::RAX));
    assert_eq!(a.value_to_reg(&emu(1)), Some(X64Reg::RCX));
    assert_eq!(a.value_to_reg(&emu(2)), None);
    assert!(a.contains_reg(&X64Reg::RAX));
    assert!(!a.contains_reg(&X64Reg::RBP));
    let prio = a.prioritized_regs();
    assert_eq!(prio.len(), 15);
    assert_eq!(prio[0], X64Reg::RBP);
    assert_eq!(&prio[13..], &[X64Reg::RAX, X64Reg::RCX]);
}

#[test]
fn binding_a_bound_value_does_nothing() {
    let mut a = Allocator::new();
    a.bind_value(emu(0));
    assert!(a.bind_value(emu(0)).0.is_empty());
    assert_eq!(a.value_to_reg(&emu(0)), Some(X64Reg::RAX));
}

#[test]
fn a_full_allocator_spills_the_first_register() {
    let mut a = Allocator::new();
    for i in 0..15 {
        a.bind_value(emu(i));
    }
    assert_eq!(a.value_to_reg(&emu(14)), Some(X64Reg::RDI));
    let t = a.bind_value(emu(15));
    assert_eq!(t.0, vec![store(X64Reg::RAX, emu(0)), load(X64Reg::RAX, emu(15))]);
    assert_eq!(a.value_to_reg(&emu(0)), None);
    assert_eq!(a.value_to_reg(&emu(15)), Some(X64Reg::RAX));
}

#[test]
fn binding_several_values_keeps_those_already_bound() {
    let mut a = Allocator::new();
    for i in 0..15 {
        a.bind_value(emu(i));
    }
    let t = a.bind_multivalue(&vec![emu(0), emu(20), emu(1), emu(21)]);
    assert_eq!(
        t.0,
        vec![
            store(X64Reg::RBP, emu(2)),
            load(X64Reg::RBP, emu(20)),
            store(X64Reg::RBX, emu(3)),
            load(X64Reg::RBX, emu(21)),
        ]
    );
    assert_eq!(a.value_to_reg(&emu(0)), Some(X64Reg::RAX));
    assert_eq!(a.value_to_reg(&emu(1)), Some(X64Reg::RCX));
    assert_eq!(a.value_to_reg(&emu(20)), Some(X64Reg::RBP));
    assert_eq!(a.value_to_reg(&emu(21)), Some(X64Reg::RBX));
}

#[test]
fn binding_to_a_given_register() {
    let mut a = Allocator::new();
    assert_eq!(a.bind_specific_reg(emu(0), X64Reg::RDI).0, vec![load(X64Reg::RDI, emu(0))]);
    assert_eq!(
        a.bind_specific_reg(emu(1), X64Reg::RDI).0,
        vec![store(X64Reg::RDI, emu(0)), load(X64Reg::RDI, emu(1))]
    );
    assert_eq!(a.value_to_reg(&emu(0)), None);
    assert_eq!(a.value_to_reg(&emu(1)), Some(X64Reg::RDI));
}

#[test]
fn unbinding_emulator_registers_stores_each_once() {
    let mut a = Allocator::new();
    let var = JITValue::Variable(Variable { position: StackOffset(16), size: StackOffset(4) });
    a.bind_value(emu(0));
    a.bind_value(var);
    a.bind_value(emu(1));
    let mut t = a.unbind_emu_regs().0;
    t.sort_by_key(|m| m.reg.number());
    assert_eq!(t, vec![store(X64Reg::RAX, emu(0)), store(X64Reg::RBP, emu(1))]);
    assert_eq!(a.value_to_reg(&emu(0)), None);
    assert_eq!(a.value_to_reg(&emu(1)), None);
    assert_eq!(a.value_to_reg(&var), Some(X64Reg::RCX));
    assert!(a.unbind_emu_regs().0.is_empty());
}

#[test]
fn swapping_two_registers() {
    let mut a = Allocator::new();
    a.bind_value(emu(0));
    a.bind_value(emu(1));
    let t = a.swap_specific_bindings(X64Reg::RAX, X64Reg::RDX);
    assert_eq!(t.0, vec![Transfer { reg: X64Reg::RAX, other: GenericValue::X64Reg(X64Reg::RDX), dir: Direction::FromReg }]);
    assert_eq!(a.value_to_reg(&emu(0)), Some(X64Reg::RDX));
    assert!(!a.contains_reg(&X64Reg::RAX));
    a.swap_specific_bindings(X64Reg::RAX, X64Reg::RDX);
    assert_eq!(a.value_to_reg(&emu(0)), Some(X64Reg::RAX));
    assert!(!a.contains_reg(&X64Reg::RDX));
    assert!(a.swap_specific_bindings(X64Reg::RCX, X64Reg::RCX).0.is_empty());
    assert_eq!(a.value_to_reg(&emu(1)), Some(X64Reg::RCX));
}

#[test]
fn swapping_a_binding_into_the_first_free_register() {
    let mut a = Allocator::new();
    a.bind_specific_reg(emu(0), X64Reg::RDI);
    let t = a.swap_binding(X64Reg::RDI);
    assert_eq!(t.0, vec![Transfer { reg: X64Reg::RDI, other: GenericValue::X64Reg(X64Reg::RAX), dir: Direction::FromReg }]);
    assert_eq!(a.value_to_reg(&emu(0)), Some(X64Reg::RAX));
    assert!(!a.contains_reg(&X64Reg::RDI));
    assert!(a.swap_binding(X64Reg::RSI).0.is_empty());
}

#[test]
fn unbinding_a_register_stores_its_value() {
    let mut a = Allocator::new();
    a.bind_value(emu(0));
    assert_eq!(a.unbind_x64_reg(X64Reg::RAX).0, vec![store(X64Reg::RAX, emu(0))]);
    assert!(!a.contains_reg(&X64Reg::RAX));
    assert!(a.unbind_x64_reg(X64Reg::RAX).0.is_empty());
}

#[test]
fn frame_parts_add_up() {
    let mut a = Allocator::new();
    *a.stack_mut() = StackOffset(16);
    *a.emulator_ptrs_mut() = StackOffset(24);
    *a.native_ptrs_mut() = StackOffset(64);
    a.emulator_regs_mut().push(EmuReg { name: EmuRegName(3), position: StackOffset(92), size: StackOffset(4) });
    assert_eq!(a.full_stack(), StackOffset(108));
    let r = a.emulator_regs()[0];
    assert_eq!(a.reg_position(&r), StackOffset(16));
    assert_eq!(a.value_position(&JITValue::EmuReg(r)), StackOffset(16));
    let v = JITValue::Variable(Variable { position: StackOffset(100), size: StackOffset(8) });
    assert_eq!(a.value_position(&v), StackOffset(8));
    assert_eq!(a.ptr_position(0), StackOffset(20));
    assert_eq!(a.ptr_position(2), StackOffset(36));
}

fn flags(i: usize) -> JITValue {
    JITValue::Flags(Idx(i))
}

fn write(name: u32, i: usize) -> JITValue {
    let e = match emu(name) {
        JITValue::EmuReg(e) => e,
        _ => unreachable!(),
    };
    JITValue::DelayedWrite(e, Idx(i))
}

fn emu_reg(name: u32) -> EmuReg {
    match emu(name) {
        JITValue::EmuReg(e) => e,
        _ => unreachable!(),
    }
}

#[test]
fn saved_flags_form_a_queue() {
    let mut a = Allocator::new();
    assert_eq!(a.bind_flags().0, vec![load(X64Reg::RAX, flags(0))]);
    assert_eq!(a.bind_flags().0, vec![load(X64Reg::RCX, flags(1))]);
    assert_eq!(a.value_to_reg(&flags(0)), Some(X64Reg::RAX));
    let prio = a.prioritized_regs();
    assert_eq!(prio.len(), 13);
    assert!(!prio.contains(&X64Reg::RAX));
    assert!(!prio.contains(&X64Reg::RCX));
    assert_eq!(a.unbind_flags().0, vec![store(X64Reg::RAX, flags(0))]);
    assert_eq!(a.value_to_reg(&flags(0)), None);
    assert_eq!(a.bind_flags().0, vec![load(X64Reg::RAX, flags(2))]);
    assert_eq!(a.unbind_flags().0, vec![store(X64Reg::RCX, flags(1))]);
    assert_eq!(a.unbind_flags().0, vec![store(X64Reg::RAX, flags(2))]);
    assert!(a.unbind_flags().0.is_empty());
}

#[test]
fn saving_flags_spills_the_first_register_when_all_are_taken() {
    let mut a = Allocator::new();
    for i in 0..15 {
        a.bind_value(emu(i));
    }
    assert_eq!(a.bind_flags().0, vec![store(X64Reg::RAX, emu(0)), load(X64Reg::RAX, flags(0))]);
}

#[test]
fn delayed_writes_are_found_by_emulator_register() {
    let mut a = Allocator::new();
    assert!(a.bind_delayed_write(emu_reg(3)).0.is_empty());
    assert_eq!(a.value_to_reg(&write(3, 0)), Some(X64Reg::RAX));
    assert!(a.bind_delayed_write(emu_reg(4)).0.is_empty());
    assert_eq!(a.value_to_reg(&write(4, 1)), Some(X64Reg::RCX));
    assert_eq!(a.get_delayed_write(emu_reg(3)), Some(write(3, 0)));
    assert_eq!(a.get_delayed_write(emu_reg(4)), Some(write(4, 1)));
    assert_eq!(a.get_delayed_write(emu_reg(5)), None);
}

#[test]
fn a_new_delayed_write_takes_the_place_after_the_first() {
    let mut a = Allocator::new();
    a.bind_delayed_write(emu_reg(0));
    a.bind_delayed_write(emu_reg(1));
    a.bind_delayed_write(emu_reg(2));
    assert_eq!(a.get_delayed_write(emu_reg(2)), Some(write(2, 1)));
    assert_eq!(a.value_to_reg(&write(2, 1)), Some(X64Reg::RBP));
}

#[test]
fn processing_delayed_writes_in_queue_order() {
    let mut a = Allocator::new();
    a.bind_delayed_write(emu_reg(3));
    a.bind_delayed_write(emu_reg(4));
    assert_eq!(
        a.process_delayed_write().0,
        vec![
            load(X64Reg::RBP, emu(3)),
            Transfer { reg: X64Reg::RAX, other: GenericValue::X64Reg(X64Reg::RBP), dir: Direction::FromReg },
        ]
    );
    assert!(!a.contains_reg(&X64Reg::RAX));
    assert_eq!(a.value_to_reg(&emu(3)), Some(X64Reg::RBP));
    assert_eq!(
        a.process_delayed_write().0,
        vec![
            load(X64Reg::RAX, emu(4)),
            Transfer { reg: X64Reg::RCX, other: GenericValue::X64Reg(X64Reg::RAX), dir: Direction::FromReg },
        ]
    );
    assert!(a.process_delayed_write().0.is_empty());
    assert_eq!(a.get_delayed_write(emu_reg(4)), None);
}

#[test]
fn a_delayed_write_to_a_bound_register_moves_without_loading() {
    let mut a = Allocator::new();
    a.bind_value(emu(7));
    a.bind_delayed_write(emu_reg(7));
    assert_eq!(
        a.process_delayed_write().0,
        vec![Transfer { reg: X64Reg::RCX, other: GenericValue::X64Reg(X64Reg::RAX), dir: Direction::FromReg }]
    );
    assert_eq!(a.value_to_reg(&emu(7)), Some(X64Reg::RAX));
    assert!(!a.contains_reg(&X64Reg::RCX));
}

#[test]
fn a_delayed_write_whose_register_is_bound_needs_no_free_register() {
    let mut a = Allocator::new();
    a.bind_specific_reg(emu(0), X64Reg::RSP);
    for i in 0..15 {
        assert!(a.bind_delayed_write(emu_reg(i)).0.is_empty());
    }
    assert!(a.prioritized_regs().is_empty());
    assert_eq!(a.value_to_reg(&write(0, 0)), Some(X64Reg::RAX));
    assert_eq!(
        a.process_delayed_write().0,
        vec![Transfer { reg: X64Reg::RAX, other: GenericValue::X64Reg(X64Reg::RSP), dir: Direction::FromReg }]
    );
    assert!(!a.contains_reg(&X64Reg::RAX));
    assert_eq!(a.value_to_reg(&emu(0)), Some(X64Reg::RSP));
}

#[test]
fn flags_saved_twice_come_back_in_order() {
    let mut a = Allocator::new();
    a.bind_value(emu(0));
    a.bind_flags();
    a.bind_flags();
    assert_eq!(a.value_to_reg(&flags(0)), Some(X64Reg::RCX));
    assert_eq!(a.value_to_reg(&flags(1)), Some(X64Reg::RBP));
    assert_eq!(a.unbind_flags().0, vec![store(X64Reg::RCX, flags(0))]);
    assert_eq!(a.value_to_reg(&flags(1)), Some(X64Reg::RBP));
    assert!(!a.contains_reg(&X64Reg::RCX));
}
