//! A small x86-64 recompiler: an assembler that encodes instructions into a
//! byte buffer, a register allocator that binds emulator values to host
//! registers, and a recompiler front end that drives both.

use vstd::prelude::*;

pub mod allocator;
pub mod assembler;
pub mod recompiler;

verus! {

/// Address of a native function or of emulator memory, as a plain integer.
pub type PtrType = u64;

/// Integer type of a displacement from the host stack pointer `%rsp`.
pub type StackOffsetType = i32;

/// Integer type of an emulator register's name, as given by emulator opcodes.
pub type EmuRegNameType = u32;

/// A displacement, in bytes, added to or subtracted from `%rsp`.
#[derive(Debug, PartialEq, Eq, Structural, Hash, Copy, Clone)]
pub struct StackOffset(pub StackOffsetType);

/// The sixteen general purpose registers of x86-64, in encoding order.
#[derive(Debug, PartialEq, Eq, Structural, Hash, Copy, Clone)]
pub enum X64Reg {
    RAX,
    RCX,
    RDX,
    RBX,
    RSP,
    RBP,
    RSI,
    RDI,
    R8,
    R9,
    R10,
    R11,
    R12,
    R13,
    R14,
    R15,
}

/// The position of an argument in the System V calling convention.
#[derive(Debug, PartialEq, Eq, Structural, Copy, Clone)]
pub enum ArgNumber {
    Arg1,
    Arg2,
    Arg3,
    Arg4,
    Arg5,
    Arg6,
}

impl X64Reg {
    /// The four-bit number of the register in instruction encodings.
    pub open spec fn code(self) -> u8 {
        match self {
            X64Reg::RAX => 0,
            X64Reg::RCX => 1,
            X64Reg::RDX => 2,
            X64Reg::RBX => 3,
            X64Reg::RSP => 4,
            X64Reg::RBP => 5,
            X64Reg::RSI => 6,
            X64Reg::RDI => 7,
            X64Reg::R8 => 8,
            X64Reg::R9 => 9,
            X64Reg::R10 => 10,
            X64Reg::R11 => 11,
            X64Reg::R12 => 12,
            X64Reg::R13 => 13,
            X64Reg::R14 => 14,
            X64Reg::R15 => 15,
        }
    }

    /// The register whose encoding number is `n`.
    pub open spec fn from_code(n: u8) -> X64Reg {
        if n == 0 { X64Reg::RAX }
        else if n == 1 { X64Reg::RCX }
        else if n == 2 { X64Reg::RDX }
        else if n == 3 { X64Reg::RBX }
        else if n == 4 { X64Reg::RSP }
        else if n == 5 { X64Reg::RBP }
        else if n == 6 { X64Reg::RSI }
        else if n == 7 { X64Reg::RDI }
        else if n == 8 { X64Reg::R8 }
        else if n == 9 { X64Reg::R9 }
        else if n == 10 { X64Reg::R10 }
        else if n == 11 { X64Reg::R11 }
        else if n == 12 { X64Reg::R12 }
        else if n == 13 { X64Reg::R13 }
        else if n == 14 { X64Reg::R14 }
        else { X64Reg::R15 }
    }

    /// The encoding number of the register.
    pub fn number(&self) -> (n: u8)
        ensures
            n == self.code(),
    {
        match self {
            X64Reg::RAX => 0,
            X64Reg::RCX => 1,
            X64Reg::RDX => 2,
            X64Reg::RBX => 3,
            X64Reg::RSP => 4,
            X64Reg::RBP => 5,
            X64Reg::RSI => 6,
            X64Reg::RDI => 7,
            X64Reg::R8 => 8,
            X64Reg::R9 => 9,
            X64Reg::R10 => 10,
            X64Reg::R11 => 11,
            X64Reg::R12 => 12,
            X64Reg::R13 => 13,
            X64Reg::R14 => 14,
            X64Reg::R15 => 15,
        }
    }

    pub open spec fn spec_low(&self) -> u8 {
        self.code() & 0b0111
    }

    pub open spec fn spec_high(&self) -> u8 {
        self.code() & 0b1000
    }

    pub open spec fn spec_is_extended(&self) -> bool {
        self.spec_high() != 0
    }

    /// The low three bits of the register number: the part that goes into a
    /// ModRM or opcode byte.
    #[verifier::when_used_as_spec(spec_low)]
    pub fn low(&self) -> (r: u8)
        ensures
            r == self.spec_low(),
            r == self.code() % 8,
            r < 8,
    {
        let n = self.number();
        assert(n & 0b0111 == n % 8 && n & 0b0111 < 8) by (bit_vector);
        n & 0b0111
    }

    /// The fourth bit of the register number, in place (`0` or `8`): the part
    /// that goes into a REX prefix.
    #[verifier::when_used_as_spec(spec_high)]
    pub fn high(&self) -> (r: u8)
        ensures
            r == self.spec_high(),
            r == (if self.code() >= 8 { 8u8 } else { 0u8 }),
    {
        let n = self.number();
        assert(n < 16 ==> (n & 0b1000 == if n >= 8 { 8u8 } else { 0u8 })) by (bit_vector);
        n & 0b1000
    }

    /// Whether the register is one of `r8`..`r15`, which need a REX prefix.
    #[verifier::when_used_as_spec(spec_is_extended)]
    pub fn is_extended(&self) -> (b: bool)
        ensures
            b == self.spec_is_extended(),
            b == (self.code() >= 8),
    {
        self.high() != 0
    }
}


/// An emulator register name, as it appears in emulator opcodes.
#[derive(Debug, PartialEq, Eq, Structural, Hash, Copy, Clone)]
pub struct EmuRegName(pub EmuRegNameType);

/// An emulator register kept on the host stack.
#[derive(Debug, PartialEq, Eq, Structural, Hash, Copy, Clone)]
pub struct EmuReg {
    pub name: EmuRegName,
    pub position: StackOffset,
    pub size: StackOffset,
}

/// A JIT-time local variable kept on the host stack.
#[derive(Debug, PartialEq, Eq, Structural, Hash, Copy, Clone)]
pub struct Variable {
    pub position: StackOffset,
    pub size: StackOffset,
}

/// Integer type of a place in the queue of saved flags or of delayed
/// writes.
pub type IdxType = usize;

/// A place in the queue of saved flags or of delayed writes.
#[derive(Debug, PartialEq, Eq, Structural, Hash, Copy, Clone)]
pub struct Idx(pub IdxType);

/// A value that generated code works on: an emulator register, a local
/// variable, a saved copy of the host flags, or a value waiting in a host
/// register to be written to an emulator register.
#[derive(Debug, PartialEq, Eq, Structural, Hash, Copy, Clone)]
pub enum JITValue {
    EmuReg(EmuReg),
    Variable(Variable),
    Flags(Idx),
    DelayedWrite(EmuReg, Idx),
}

/// The other end of a move between a host register and something else.
#[derive(Debug, PartialEq, Eq, Structural, Copy, Clone)]
pub enum GenericValue {
    JITValue(JITValue),
    X64Reg(X64Reg),
}

/// Which way a value travels in a [`Transfer`].
#[derive(Debug, PartialEq, Eq, Structural, Copy, Clone)]
pub enum Direction {
    ToReg,
    FromReg,
}

/// One move between a host register and a value's home.
#[derive(Debug, PartialEq, Eq, Structural, Copy, Clone)]
pub struct Transfer {
    pub reg: X64Reg,
    pub other: GenericValue,
    pub dir: Direction,
}

/// The moves that a change of register bindings calls for, in order.
#[derive(Debug)]
pub struct MultiTransfer(pub Vec<Transfer>);

/// A jump target in the code being assembled.
#[derive(Debug, PartialEq, Eq, Structural, Hash, Copy, Clone)]
pub struct Label {
    pub id: usize,
    pub size: StackOffset,
}

impl Label {
    /// The label's number among the labels of its assembler.
    pub open spec fn spec_id(self) -> usize {
        self.id
    }

    /// The width in bytes of the relative displacement that refers to the
    /// label: `1` for a short label, `4` for a long one.
    pub open spec fn spec_size(self) -> int {
        self.size.0 as int
    }
}

impl Transfer {
    pub open spec fn spec_reg(self) -> X64Reg {
        self.reg
    }

    pub open spec fn spec_other(self) -> GenericValue {
        self.other
    }

    pub open spec fn spec_dir(self) -> Direction {
        self.dir
    }
}

impl MultiTransfer {
    /// The moves, in the order in which they are to be carried out.
    pub open spec fn spec_moves(self) -> Seq<Transfer> {
        self.0@
    }
}

impl std::ops::Add for StackOffset {
    type Output = StackOffset;

    fn add(self, other: StackOffset) -> (r: StackOffset) {
        StackOffset(self.0 + other.0)
    }
}

impl vstd::std_specs::ops::AddSpecImpl for StackOffset {
    open spec fn obeys_add_spec() -> bool {
        true
    }

    /// The sum must be an `i32`.
    open spec fn add_req(self, other: StackOffset) -> bool {
        i32::MIN <= self.0 + other.0 <= i32::MAX
    }

    open spec fn add_spec(self, other: StackOffset) -> StackOffset {
        StackOffset((self.0 + other.0) as i32)
    }
}

impl std::ops::Sub for StackOffset {
    type Output = StackOffset;

    fn sub(self, other: StackOffset) -> (r: StackOffset) {
        StackOffset(self.0 - other.0)
    }
}

impl vstd::std_specs::ops::SubSpecImpl for StackOffset {
    open spec fn obeys_sub_spec() -> bool {
        true
    }

    /// The difference must be an `i32`.
    open spec fn sub_req(self, other: StackOffset) -> bool {
        i32::MIN <= self.0 - other.0 <= i32::MAX
    }

    open spec fn sub_spec(self, other: StackOffset) -> StackOffset {
        StackOffset((self.0 - other.0) as i32)
    }
}

impl std::ops::Neg for StackOffset {
    type Output = StackOffset;

    fn neg(self) -> (r: StackOffset) {
        StackOffset(-self.0)
    }
}

impl vstd::std_specs::ops::NegSpecImpl for StackOffset {
    open spec fn obeys_neg_spec() -> bool {
        true
    }

    /// The negation must be an `i32`.
    open spec fn neg_req(self) -> bool {
        self.0 != i32::MIN
    }

    open spec fn neg_spec(self) -> StackOffset {
        StackOffset(-self.0 as i32)
    }
}

/// Sums of stack offsets.
impl StackOffset {
    pub open spec fn spec_sum(items: Seq<StackOffset>) -> int
        decreases items.len(),
    {
        if items.len() == 0 {
            0
        } else {
            StackOffset::spec_sum(items.drop_last()) + items.last().0
        }
    }

    /// Whether every running total of `items`, from the left, fits in an `i32`.
    pub open spec fn sums_fit(items: Seq<StackOffset>) -> bool {
        forall|k: int|
            0 <= k <= items.len() ==> i32::MIN <= #[trigger] StackOffset::spec_sum(items.take(k))
                <= i32::MAX
    }

    pub fn add_assign(&mut self, other: StackOffset)
        requires
            i32::MIN <= old(self).0 + other.0 <= i32::MAX,
        ensures
            final(self).0 == old(self).0 + other.0,
    {
        self.0 = self.0 + other.0;
    }

    /// The total of a sequence of offsets, added from the left.
    pub fn sum(items: &Vec<StackOffset>) -> (r: StackOffset)
        requires
            StackOffset::sums_fit(items@),
        ensures
            r.0 == StackOffset::spec_sum(items@),
    {
        let mut acc = StackOffset(0);
        let mut i: usize = 0;
        while i < items.len()
            invariant
                0 <= i <= items.len(),
                StackOffset::sums_fit(items@),
                acc.0 == StackOffset::spec_sum(items@.take(i as int)),
            decreases items.len() - i,
        {
            assert(items@.take(i + 1).drop_last() == items@.take(i as int));
            assert(i32::MIN <= StackOffset::spec_sum(items@.take(i + 1)) <= i32::MAX);
            acc = acc + items[i];
            i += 1;
        }
        assert(items@.take(items.len() as int) == items@);
        acc
    }
}

impl X64Reg {
    pub open spec fn spec_all_regs() -> Seq<X64Reg> {
        seq![
            X64Reg::RAX, X64Reg::RCX, X64Reg::RBP, X64Reg::RBX,
            X64Reg::R8, X64Reg::R9, X64Reg::R10, X64Reg::R11,
            X64Reg::R12, X64Reg::R13, X64Reg::R14, X64Reg::R15,
            X64Reg::RSP, X64Reg::RDX, X64Reg::RSI, X64Reg::RDI,
        ]
    }

    pub open spec fn spec_free_regs() -> Seq<X64Reg> {
        seq![
            X64Reg::RAX, X64Reg::RCX, X64Reg::RBP, X64Reg::RBX,
            X64Reg::R8, X64Reg::R9, X64Reg::R10, X64Reg::R11,
            X64Reg::R12, X64Reg::R13, X64Reg::R14, X64Reg::R15,
            X64Reg::RDX, X64Reg::RSI, X64Reg::RDI,
        ]
    }

    pub open spec fn spec_callee_saved_regs() -> Seq<X64Reg> {
        seq![X64Reg::RBX, X64Reg::RSP, X64Reg::RBP, X64Reg::R12, X64Reg::R13, X64Reg::R14, X64Reg::R15]
    }

    pub open spec fn spec_caller_saved_regs() -> Seq<X64Reg> {
        seq![
            X64Reg::RAX, X64Reg::RCX, X64Reg::RDX, X64Reg::RSI, X64Reg::RDI,
            X64Reg::R8, X64Reg::R9, X64Reg::R10, X64Reg::R11,
        ]
    }

    pub open spec fn spec_argn_reg(n: ArgNumber) -> X64Reg {
        match n {
            ArgNumber::Arg1 => X64Reg::RDI,
            ArgNumber::Arg2 => X64Reg::RSI,
            ArgNumber::Arg3 => X64Reg::RDX,
            ArgNumber::Arg4 => X64Reg::RCX,
            ArgNumber::Arg5 => X64Reg::R8,
            ArgNumber::Arg6 => X64Reg::R9,
        }
    }

    /// Every register, each once, in the order in which the allocator
    /// considers them.
    pub fn all_regs() -> (v: Vec<X64Reg>)
        ensures
            v@ == X64Reg::spec_all_regs(),
    {
        vec![
            X64Reg::RAX, X64Reg::RCX, X64Reg::RBP, X64Reg::RBX,
            X64Reg::R8, X64Reg::R9, X64Reg::R10, X64Reg::R11,
            X64Reg::R12, X64Reg::R13, X64Reg::R14, X64Reg::R15,
            X64Reg::RSP, X64Reg::RDX, X64Reg::RSI, X64Reg::RDI,
        ]
    }

    /// The registers that values may be bound to: every register but `%rsp`,
    /// in the order of [`X64Reg::all_regs`].
    pub fn free_regs() -> (v: Vec<X64Reg>)
        ensures
            v@ == X64Reg::spec_free_regs(),
    {
        let all = X64Reg::all_regs();
        let mut res: Vec<X64Reg> = Vec::new();
        let mut i: usize = 0;
        while i < all.len()
            invariant
                0 <= i <= all.len(),
                all@ == X64Reg::spec_all_regs(),
                res@ == (if i <= 12 { all@.take(i as int) } else { all@.take(12) + all@.subrange(
                    13,
                    i as int,
                ) }),
            decreases all.len() - i,
        {
            let r = all[i];
            if r != X64Reg::RSP {
                res.push(r);
            }
            proof {
                if i < 12 {
                    assert(all@.take(i + 1) == all@.take(i as int).push(r));
                } else if i > 12 {
                    assert(all@.subrange(13, i + 1) == all@.subrange(13, i as int).push(r));
                }
            }
            i += 1;
        }
        assert(res@ == X64Reg::spec_free_regs());
        res
    }

    /// The registers that a System V callee must preserve.
    pub fn callee_saved_regs() -> (v: Vec<X64Reg>)
        ensures
            v@ == X64Reg::spec_callee_saved_regs(),
    {
        vec![X64Reg::RBX, X64Reg::RSP, X64Reg::RBP, X64Reg::R12, X64Reg::R13, X64Reg::R14, X64Reg::R15]
    }

    /// The registers that a System V call may clobber.
    pub fn caller_saved_regs() -> (v: Vec<X64Reg>)
        ensures
            v@ == X64Reg::spec_caller_saved_regs(),
    {
        vec![
            X64Reg::RAX, X64Reg::RCX, X64Reg::RDX, X64Reg::RSI, X64Reg::RDI,
            X64Reg::R8, X64Reg::R9, X64Reg::R10, X64Reg::R11,
        ]
    }

    /// The register that carries the `n`-th integer argument of a System V call.
    pub fn argn_reg(n: ArgNumber) -> (r: X64Reg)
        ensures
            r == X64Reg::spec_argn_reg(n),
    {
        match n {
            ArgNumber::Arg1 => X64Reg::RDI,
            ArgNumber::Arg2 => X64Reg::RSI,
            ArgNumber::Arg3 => X64Reg::RDX,
            ArgNumber::Arg4 => X64Reg::RCX,
            ArgNumber::Arg5 => X64Reg::R8,
            ArgNumber::Arg6 => X64Reg::R9,
        }
    }
}

impl JITValue {
    /// Whether the value has a home on the host stack: emulator registers
    /// and variables do; saved flags and delayed writes live only in a
    /// register.
    pub open spec fn has_home(self) -> bool {
        self is EmuReg || self is Variable
    }

    pub open spec fn spec_position(self) -> StackOffset {
        match self {
            JITValue::Variable(var) => var.position,
            JITValue::EmuReg(reg) => reg.position,
            _ => StackOffset(0),
        }
    }

    pub open spec fn spec_size(self) -> StackOffset {
        match self {
            JITValue::Variable(var) => var.size,
            JITValue::EmuReg(reg) => reg.size,
            _ => StackOffset(0),
        }
    }

    /// Where the value lives on the host stack, counted from the bottom of
    /// the frame. Saved flags and delayed writes have no such place.
    pub fn position(&self) -> (p: StackOffset)
        requires
            self.has_home(),
        ensures
            p == self.spec_position(),
    {
        match self {
            JITValue::Variable(var) => var.position,
            JITValue::EmuReg(reg) => reg.position,
            _ => {
                proof {
                    assert(false);
                }
                StackOffset(0)
            },
        }
    }

    /// The value's width in bytes. Saved flags and delayed writes have none.
    pub fn size(&self) -> (s: StackOffset)
        requires
            self.has_home(),
        ensures
            s == self.spec_size(),
    {
        match self {
            JITValue::Variable(var) => var.size,
            JITValue::EmuReg(reg) => reg.size,
            _ => {
                proof {
                    assert(false);
                }
                StackOffset(0)
            },
        }
    }
}

} // verus!
