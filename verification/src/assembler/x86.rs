//! The x86-64 encodings that the emitters use, written out with plain
//! arithmetic as the Intel manual gives them: a REX prefix `0x40 + 8W + 4R +
//! B` when any bit is set, an opcode, a ModRM byte `64 * mod + 8 * reg + rm`,
//! a SIB byte `0x24` when the base is `%rsp` or `%r12`, and a displacement.
//! The lemmas here show that each emitter's bytes are these encodings.

use vstd::prelude::*;
use crate::allocator::lemma_reg_code;
use crate::assembler::add::enc_addl_ir;
use crate::assembler::add::enc_addl_rr;
use crate::assembler::add::enc_addq_ir;
use crate::assembler::and::enc_andl_ir;
use crate::assembler::bt::enc_btl_ir;
use crate::assembler::compare::enc_cmpl_rr;
use crate::assembler::cond_rexb;
use crate::assembler::cond_rexrb;
use crate::assembler::disp_operand;
use crate::assembler::div::enc_divl_r;
use crate::assembler::div::enc_idivl_r;
use crate::assembler::enc_alu_rr;
use crate::assembler::le32;
use crate::assembler::REX;
use crate::assembler::REXW;
use crate::assembler::mem_operand;
use crate::assembler::mov::enc_movl_ir;
use crate::assembler::mov::enc_movl_mr_offset;
use crate::assembler::mov::enc_movl_rm_offset;
use crate::assembler::mov::enc_movl_rr;
use crate::assembler::mov::enc_movq_mr_offset;
use crate::assembler::or::enc_orl_ir;
use crate::assembler::shift::enc_shift_ir;
use crate::assembler::sib_for;
use crate::assembler::spec_rexb;
use crate::assembler::spec_rexr;
use crate::assembler::stack::enc_popq_r;
use crate::assembler::stack::enc_pushq_r;
use crate::assembler::sub::enc_subl_ir;
use crate::assembler::xchg::enc_xchgq_rr;
use crate::X64Reg;

verus! {

/// The low three bits of a register's number: what goes in a ModRM field.
pub open spec fn lo(r: X64Reg) -> int {
    (r.code() % 8) as int
}

/// The fourth bit of a register's number: what goes in a REX bit.
pub open spec fn hi(r: X64Reg) -> int {
    if r.code() >= 8 {
        1
    } else {
        0
    }
}

/// A REX prefix `0x40 + 8w + 4r + b`, present only when some bit is set.
pub open spec fn rex(w: int, r: int, b: int) -> Seq<u8> {
    if w + r + b > 0 {
        seq![(0x40 + 8 * w + 4 * r + b) as u8]
    } else {
        seq![]
    }
}

/// A ModRM byte with `mod` = 3 (both operands registers).
pub open spec fn modrm_rr(reg_field: int, rm: int) -> u8 {
    (0xc0 + 8 * reg_field + rm) as u8
}

/// An instruction `op /r` on two registers: `reg` in the ModRM `reg` field
/// (the source of `add`, `sub`, `and`, `or`, `xor`, `cmp`, `test` and `mov`
/// with opcode `0x89`) and `rm` in the `rm` field (the operand that is
/// written).
pub open spec fn x86_rr(op: u8, reg: X64Reg, rm: X64Reg) -> Seq<u8> {
    rex(0, hi(reg), hi(rm)) + seq![op, modrm_rr(lo(reg), lo(rm))]
}

/// An instruction `op /ext` on one register.
pub open spec fn x86_r(op: u8, ext: int, rm: X64Reg) -> Seq<u8> {
    rex(0, 0, hi(rm)) + seq![op, modrm_rr(ext, lo(rm))]
}

/// The ModRM, SIB and displacement bytes of the memory operand
/// `[base + disp]`: no displacement when it is zero (except for `%rbp` and
/// `%r13`, which need one), a one-byte one when it fits, else four bytes.
pub open spec fn x86_mem(reg_field: int, base: X64Reg, disp: i32) -> Seq<u8> {
    let sib = if lo(base) == 4 {
        seq![0x24u8]
    } else {
        seq![]
    };
    if disp == 0 && lo(base) != 5 {
        seq![(8 * reg_field + lo(base)) as u8] + sib
    } else if -128 <= disp <= 127 {
        seq![(0x40 + 8 * reg_field + lo(base)) as u8] + sib + seq![disp as u8]
    } else {
        seq![(0x80 + 8 * reg_field + lo(base)) as u8] + sib + le32(disp as u32)
    }
}

/// `mov [base + disp], dest` (opcode `0x8b`): a load into `dest`, of four
/// bytes, or of eight when `w` is `1`.
pub open spec fn x86_load(w: int, dest: X64Reg, base: X64Reg, disp: i32) -> Seq<u8> {
    rex(w, hi(dest), hi(base)) + seq![0x8bu8] + x86_mem(lo(dest), base, disp)
}

/// `mov src, [base + disp]` (opcode `0x89`): a store of `src`, of four
/// bytes, or of eight when `w` is `1`.
pub open spec fn x86_store(w: int, src: X64Reg, base: X64Reg, disp: i32) -> Seq<u8> {
    rex(w, hi(src), hi(base)) + seq![0x89u8] + x86_mem(lo(src), base, disp)
}

/// An ALU operation with a four-byte immediate: the short form with opcode
/// `8 * ext + 5` on `%eax`, else `0x81 /ext`.
pub open spec fn x86_alu_imm32(ext: int, imm: u32, r: X64Reg) -> Seq<u8> {
    if r == X64Reg::RAX {
        seq![(8 * ext + 5) as u8] + le32(imm)
    } else {
        rex(0, 0, hi(r)) + seq![0x81u8, modrm_rr(ext, lo(r))] + le32(imm)
    }
}

/// An ALU operation with a signed immediate: `0x83 /ext` with one byte when
/// it fits, else the four-byte forms.
pub open spec fn x86_alu_imm(ext: int, imm: i32, r: X64Reg) -> Seq<u8> {
    if -128 <= imm <= 127 {
        rex(0, 0, hi(r)) + seq![0x83u8, modrm_rr(ext, lo(r)), imm as u8]
    } else {
        x86_alu_imm32(ext, imm as u32, r)
    }
}

/// A shift of a register by an immediate: `0xc1 /ext ib`.
pub open spec fn x86_shift(ext: int, imm: u32, r: X64Reg) -> Seq<u8> {
    rex(0, 0, hi(r)) + seq![0xc1u8, modrm_rr(ext, lo(r)), imm as u8]
}

/// `add $imm, %rsp` on all 64 bits (REX.W): `0x83 /0` with one byte when
/// the immediate fits, else `0x81 /0` with four.
pub open spec fn x86_addq_rsp(imm: i32) -> Seq<u8> {
    if -128 <= imm <= 127 {
        rex(1, 0, 0) + seq![0x83u8, modrm_rr(0, 4), imm as u8]
    } else {
        rex(1, 0, 0) + seq![0x81u8, modrm_rr(0, 4)] + le32(imm as u32)
    }
}

/// A conditional jump on the condition numbered `cc` in the Intel manual:
/// `0x70 + cc` before a one-byte displacement, `0x0f 0x80 + cc` before a
/// four-byte one.
pub open spec fn x86_jcc(cc: int, width: int) -> Seq<u8> {
    if width == 1 {
        seq![(0x70 + cc) as u8]
    } else {
        seq![0x0fu8, (0x80 + cc) as u8]
    }
}

/// `xchg` of two 64-bit registers: `0x90 + r` when one of them is `%rax`,
/// with `r` the other, else `0x87 /r`.
pub open spec fn x86_xchgq(a: X64Reg, b: X64Reg) -> Seq<u8> {
    if a == X64Reg::RAX {
        rex(1, 0, hi(b)) + seq![(0x90 + lo(b)) as u8]
    } else if b == X64Reg::RAX {
        rex(1, 0, hi(a)) + seq![(0x90 + lo(a)) as u8]
    } else {
        rex(1, hi(b), hi(a)) + seq![0x87u8, modrm_rr(lo(b), lo(a))]
    }
}

/// `push r` (`0x50 + r`).
pub open spec fn x86_push(r: X64Reg) -> Seq<u8> {
    rex(0, 0, hi(r)) + seq![(0x50 + lo(r)) as u8]
}

/// `pop r` (`0x58 + r`).
pub open spec fn x86_pop(r: X64Reg) -> Seq<u8> {
    rex(0, 0, hi(r)) + seq![(0x58 + lo(r)) as u8]
}

proof fn lemma_byte_fields(x: u8, y: u8, a: u8, b: u8)
    by (bit_vector)
    requires
        x < 8,
        y < 8,
        a == 0 || a == 4,
        b == 0 || b == 1,
    ensures
        0xc0u8 | x << 3 | y == 0xc0 + 8 * x + y,
        0x40u8 | x << 3 | y == 0x40 + 8 * x + y,
        0x80u8 | x << 3 | y == 0x80 + 8 * x + y,
        x << 3 | y == 8 * x + y,
        0x45u8 | x << 3 == 0x45 + 8 * x,
        0x40u8 | a | b == 0x40 + a + b,
        0x48u8 | a | b == 0x48 + a + b,
        0xc0u8 | (7u8 << 3) | y == 0xf8 + y,
        0xc0u8 | (6u8 << 3) | y == 0xf0 + y,
        0xc0u8 | (5u8 << 3) | y == 0xe8 + y,
        0xc0u8 | (4u8 << 3) | y == 0xe0 + y,
        0xc0u8 | y == 0xc0 + y,
        0x40u8 | 0x01u8 == 0x41u8,
        0x40u8 | 0x08u8 == 0x48u8,
        0x40u8 | 0x08u8 | a | b == 0x48 + a + b,
        0xc8u8 | y == 0xc8 + y,
        0xe0u8 | y == 0xe0 + y,
        0xe8u8 | y == 0xe8 + y,
        0xf8u8 | y == 0xf8 + y,
        0xb8u8 | y == 0xb8 + y,
        0x50u8 | y == 0x50 + y,
        0x58u8 | y == 0x58 + y,
{
}

proof fn lemma_code_bits(c: u8)
    by (bit_vector)
    requires
        c < 16,
    ensures
        c & 7 == c % 8,
        (c & 8 != 0) == (c >= 8),
{
}

/// A register's fields in the emitters' terms are `lo` and `hi`.
pub proof fn lemma_reg_fields(r: X64Reg)
    ensures
        r.spec_low() as int == lo(r),
        r.spec_low() < 8,
        r.spec_is_extended() == (hi(r) == 1),
        spec_rexb(r) as int == hi(r),
        spec_rexr(r) as int == 4 * hi(r),
        cond_rexb(r) == rex(0, 0, hi(r)),
{
    lemma_reg_code(r);
    lemma_code_bits(r.code());
    lemma_byte_fields(0, 0, 0, 1);
}

/// Two registers' REX prefix and ModRM byte in the emitters' terms.
proof fn lemma_pair(reg: X64Reg, rm: X64Reg)
    ensures
        cond_rexrb(reg, rm) == rex(0, hi(reg), hi(rm)),
        (0xc0u8 | reg.spec_low() << 3 | rm.spec_low()) == modrm_rr(lo(reg), lo(rm)),
{
    lemma_reg_fields(reg);
    lemma_reg_fields(rm);
    lemma_byte_fields(reg.spec_low(), rm.spec_low(), spec_rexr(reg), spec_rexb(rm));
}

/// A two-register ALU instruction is `op /r` with the source in `reg`.
pub proof fn lemma_enc_alu_rr(op: u8, src: X64Reg, dest: X64Reg)
    ensures
        enc_alu_rr(op, src, dest) == x86_rr(op, src, dest),
{
    lemma_pair(src, dest);
    assert(enc_alu_rr(op, src, dest) =~= x86_rr(op, src, dest));
}

/// `addl`, `cmpl` and `movl` between registers are `op /r`.
pub proof fn lemma_enc_rr_forms(src: X64Reg, dest: X64Reg)
    ensures
        enc_addl_rr(src, dest) == x86_rr(0x01, src, dest),
        enc_cmpl_rr(src, dest) == x86_rr(0x39, src, dest),
        enc_movl_rr(src, dest) == x86_rr(0x89, src, dest),
{
    lemma_pair(src, dest);
    assert(enc_addl_rr(src, dest) =~= x86_rr(0x01, src, dest));
    assert(enc_cmpl_rr(src, dest) =~= x86_rr(0x39, src, dest));
    assert(enc_movl_rr(src, dest) =~= x86_rr(0x89, src, dest));
}

/// The one-register forms: divisions, shifts, bit test, pushes and pops.
pub proof fn lemma_enc_r_forms(r: X64Reg, imm: u32)
    ensures
        enc_divl_r(r) == x86_r(0xf7, 6, r),
        enc_idivl_r(r) == x86_r(0xf7, 7, r),
        enc_shift_ir(0xe0, imm, r) == x86_shift(4, imm, r),
        enc_shift_ir(0xe8, imm, r) == x86_shift(5, imm, r),
        enc_shift_ir(0xf8, imm, r) == x86_shift(7, imm, r),
        enc_btl_ir(imm, r) == rex(0, 0, hi(r)) + seq![0x0fu8, 0xbau8, modrm_rr(4, lo(r)), imm as u8],
        enc_pushq_r(r) == x86_push(r),
        enc_popq_r(r) == x86_pop(r),
{
    lemma_reg_fields(r);
    lemma_byte_fields(0, r.spec_low(), 0, 0);
    assert(enc_divl_r(r) =~= x86_r(0xf7, 6, r));
    assert(enc_idivl_r(r) =~= x86_r(0xf7, 7, r));
    assert(enc_shift_ir(0xe0, imm, r) =~= x86_shift(4, imm, r));
    assert(enc_shift_ir(0xe8, imm, r) =~= x86_shift(5, imm, r));
    assert(enc_shift_ir(0xf8, imm, r) =~= x86_shift(7, imm, r));
    assert(enc_btl_ir(imm, r) =~= rex(0, 0, hi(r)) + seq![0x0fu8, 0xbau8, modrm_rr(4, lo(r)), imm as u8]);
    assert(enc_pushq_r(r) =~= x86_push(r));
    assert(enc_popq_r(r) =~= x86_pop(r));
}

/// The ALU operations with an immediate are the group-one forms, with
/// extension `0` for `add`, `1` for `or`, `4` for `and` and `5` for `sub`.
pub proof fn lemma_enc_imm_forms(r: X64Reg, imm: i32, uimm: u32)
    ensures
        enc_addl_ir(imm, r) == x86_alu_imm(0, imm, r),
        enc_subl_ir(imm, r) == x86_alu_imm(5, imm, r),
        enc_andl_ir(uimm, r) == x86_alu_imm32(4, uimm, r),
        enc_orl_ir(uimm, r) == x86_alu_imm32(1, uimm, r),
{
    lemma_reg_fields(r);
    lemma_byte_fields(0, r.spec_low(), 0, 0);
    assert(enc_addl_ir(imm, r) =~= x86_alu_imm(0, imm, r));
    assert(enc_subl_ir(imm, r) =~= x86_alu_imm(5, imm, r));
    assert(enc_andl_ir(uimm, r) =~= x86_alu_imm32(4, uimm, r));
    assert(enc_orl_ir(uimm, r) =~= x86_alu_imm32(1, uimm, r));
}

/// Moving the stack pointer by an immediate is `add` with extension `0` on
/// `%rsp`, with REX.W.
pub proof fn lemma_enc_addq_rsp(imm: i32)
    ensures
        enc_addq_ir(imm, X64Reg::RSP) == x86_addq_rsp(imm),
{
    lemma_reg_fields(X64Reg::RSP);
    lemma_byte_fields(0, 4, 0, 0);
    let b = spec_rexb(X64Reg::RSP);
    assert(REX | REXW | b == 0x48u8) by (bit_vector)
        requires
            b == 0,
    ;
    assert(enc_addq_ir(imm, X64Reg::RSP) =~= x86_addq_rsp(imm));
}

proof fn lemma_xchg_bits(x: u8, y: u8, b: u8, r: u8)
    by (bit_vector)
    requires
        x < 8,
        y < 8,
        b == 0 || b == 1,
        r == 0 || r == 4,
    ensures
        0x40u8 | 0x08u8 | (0u8 | b) == 0x48 + b,
        0x40u8 | 0x08u8 | (b | 0u8) == 0x48 + b,
        0x90u8 | 0u8 | x == 0x90 + x,
        0x90u8 | x | 0u8 == 0x90 + x,
        0x40u8 | 0x08u8 | b | r == 0x48 + r + b,
        0xc0u8 | x | y << 3 == 0xc0 + 8 * y + x,
{
}

/// `xchgq` is `0x87 /r`, or `0x90 + r` with `%rax`.
pub proof fn lemma_enc_xchgq(a: X64Reg, b: X64Reg)
    ensures
        enc_xchgq_rr(a, b) == x86_xchgq(a, b),
{
    lemma_reg_fields(a);
    lemma_reg_fields(b);
    lemma_reg_fields(X64Reg::RAX);
    if a == X64Reg::RAX {
        lemma_xchg_bits(b.spec_low(), 0, spec_rexb(b), 0);
    } else if b == X64Reg::RAX {
        lemma_xchg_bits(a.spec_low(), 0, spec_rexb(a), 0);
    } else {
        lemma_xchg_bits(a.spec_low(), b.spec_low(), spec_rexb(a), spec_rexr(b));
    }
    assert(enc_xchgq_rr(a, b) =~= x86_xchgq(a, b));
}

/// `movl $imm, %r` is `0xb8 + r` with the immediate.
pub proof fn lemma_enc_movl_ir(imm: u32, r: X64Reg)
    ensures
        enc_movl_ir(imm, r) == rex(0, 0, hi(r)) + seq![(0xb8 + lo(r)) as u8] + le32(imm),
{
    lemma_reg_fields(r);
    lemma_byte_fields(0, r.spec_low(), 0, 0);
    assert(enc_movl_ir(imm, r) =~= rex(0, 0, hi(r)) + seq![(0xb8 + lo(r)) as u8] + le32(imm));
}

proof fn lemma_mem(reg: X64Reg, base: X64Reg, disp: i32)
    ensures
        disp == 0 ==> mem_operand(reg, base) == x86_mem(lo(reg), base, disp),
        disp != 0 ==> disp_operand(reg, base, disp) == x86_mem(lo(reg), base, disp),
{
    lemma_reg_fields(reg);
    lemma_reg_fields(base);
    lemma_byte_fields(reg.spec_low(), base.spec_low(), 0, 0);
    assert(sib_for(base) == (if lo(base) == 4 {
        seq![0x24u8]
    } else {
        seq![]
    }));
    if disp == 0 {
        assert(mem_operand(reg, base) =~= x86_mem(lo(reg), base, disp));
    } else {
        assert(disp_operand(reg, base, disp) =~= x86_mem(lo(reg), base, disp));
    }
}

/// The loads and stores with a displacement are `mov` with opcode `0x8b`
/// (load) or `0x89` (store).
pub proof fn lemma_enc_mem_forms(reg: X64Reg, base: X64Reg, disp: i32)
    ensures
        enc_movl_mr_offset(base, reg, disp) == x86_load(0, reg, base, disp),
        enc_movq_mr_offset(base, reg, disp) == x86_load(1, reg, base, disp),
        enc_movl_rm_offset(reg, base, disp) == x86_store(0, reg, base, disp),
{
    lemma_pair(reg, base);
    lemma_reg_fields(reg);
    lemma_reg_fields(base);
    lemma_byte_fields(0, 0, spec_rexr(reg), spec_rexb(base));
    lemma_mem(reg, base, disp);
    assert(enc_movl_mr_offset(base, reg, disp) =~= x86_load(0, reg, base, disp));
    assert(enc_movq_mr_offset(base, reg, disp) =~= x86_load(1, reg, base, disp));
    assert(enc_movl_rm_offset(reg, base, disp) =~= x86_store(0, reg, base, disp));
}

} // verus!
