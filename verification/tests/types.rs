use jam::ArgNumber;
use jam::EmuReg;
use jam::EmuRegName;
use jam::JITValue;
use jam::StackOffset;
use jam::Variable;
use jam::X64Reg;

#[test]
fn register_numbers_split_into_low_and_high_bits() {
    assert_eq!(X64Reg::RAX.number(), 0);
    assert_eq!(X64Reg::RDI.number(), 7);
    assert_eq!(X64Reg::R13.number(), 13);
    assert_eq!(X64Reg::R13.low(), 5);
    assert_eq!(X64Reg::R13.high(), 8);
    assert_eq!(X64Reg::RSP.low(), 4);
    assert_eq!(X64Reg::RSP.high(), 0);
    assert!(X64Reg::R8.is_extended());
    assert!(!X64Reg::RDI.is_extended());
    for r in X64Reg::all_regs() {
        assert_eq!(r.low() | r.high(), r.number());
        assert_eq!(r.is_extended(), r.number() >= 8);
    }
}

#[test]
fn register_lists() {
    let all = X64Reg::all_regs();
    assert_eq!(all.len(), 16);
    let free = X64Reg::free_regs();
    assert_eq!(free.len(), 15);
    assert!(!free.contains(&X64Reg::RSP));
    assert_eq!(free, all.iter().copied().filter(|&r| r != X64Reg::RSP).collect::<Vec<_>>());
    assert_eq!(free[0], X64Reg::RAX);
    assert_eq!(free[14], X64Reg::RDI);
    assert_eq!(
        X64Reg::callee_saved_regs(),
        vec![X64Reg::RBX, X64Reg::RSP, X64Reg::RBP, X64Reg::R12, X64Reg::R13, X64Reg::R14, X64Reg::R15]
    );
    assert_eq!(
        X64Reg::caller_saved_regs(),
        vec![
            X64Reg::RAX,
            X64Reg::RCX,
            X64Reg::RDX,
            X64Reg::RSI,
            X64Reg::RDI,
            X64Reg::R8,
            X64Reg::R9,
            X64Reg::R10,
            X64Reg::R11
        ]
    );
}

#[test]
fn argument_registers_follow_system_v() {
    assert_eq!(X64Reg::argn_reg(ArgNumber::Arg1), X64Reg::RDI);
    assert_eq!(X64Reg::argn_reg(ArgNumber::Arg2), X64Reg::RSI);
    assert_eq!(X64Reg::argn_reg(ArgNumber::Arg3), X64Reg::RDX);
    assert_eq!(X64Reg::argn_reg(ArgNumber::Arg4), X64Reg::RCX);
    assert_eq!(X64Reg::argn_reg(ArgNumber::Arg5), X64Reg::R8);
    assert_eq!(X64Reg::argn_reg(ArgNumber::Arg6), X64Reg::R9);
}

#[test]
fn stack_offset_arithmetic() {
    assert_eq!(StackOffset(5) + StackOffset(-8), StackOffset(-3));
    assert_eq!(StackOffset(5) - StackOffset(8), StackOffset(-3));
    assert_eq!(-StackOffset(5), StackOffset(-5));
    assert_eq!(StackOffset(8) - StackOffset(8) + StackOffset(4), StackOffset(4));
    let mut s = StackOffset(16);
    s.add_assign(StackOffset(8));
    assert_eq!(s, StackOffset(24));
    assert_eq!(StackOffset::sum(&vec![StackOffset(8), StackOffset(8), StackOffset(-4)]), StackOffset(12));
    assert_eq!(StackOffset::sum(&vec![]), StackOffset(0));
}

#[test]
fn values_know_their_home() {
    let r = JITValue::EmuReg(EmuReg { name: EmuRegName(2), position: StackOffset(12), size: StackOffset(4) });
    let v = JITValue::Variable(Variable { position: StackOffset(40), size: StackOffset(8) });
    assert_eq!(r.position(), StackOffset(12));
    assert_eq!(r.size(), StackOffset(4));
    assert_eq!(v.position(), StackOffset(40));
    assert_eq!(v.size(), StackOffset(8));
}
