//! Instruction decoding: bit fields and sign extension.
use vstd::prelude::*;
use vstd::arithmetic::power2::{pow2, lemma2_to64, lemma_pow2_pos, lemma_pow2_adds, lemma_pow2_strictly_increases};
use vstd::arithmetic::div_mod::{lemma_mod_multiples_vanish, lemma_small_mod};
use crate::cpu::{fetch_spec, flagged, run_trap_spec, wrap, MachineView, CPU};
use crate::memory::{read_spec, write_spec};
use crate::reference::{Signal, FL, OP, REG, REG_COUNT};

verus! {

/// The low `bits` bits of `v`, read as a two's-complement number and
/// written back as a 16-bit word.
pub open spec fn sign_extend_spec(v: u16, bits: nat) -> u16 {
    let m = pow2(bits) as int;
    let low = v as int % m;
    if low >= m / 2 {
        (low - m + 0x10000) as u16
    } else {
        low as u16
    }
}

/// Sign extension as the machine computes it: test the sign bit, then set or
/// clear every bit above the field.
spec fn sign_extend_masked(v: u16, b: u16) -> u16 {
    let mask: u16 = if b >= 16 { 0 } else { (0xFFFFu16 << b) as u16 };
    if (v >> ((b - 1) as u16)) & 1u16 == 1u16 {
        v | mask
    } else {
        v & !mask
    }
}

proof fn lemma_sign_extend_masked(v: u16, b: u16)
    requires
        1 <= b <= 16,
    ensures
        sign_extend_masked(v, b) == sign_extend_spec(v, b as nat),
{
    lemma2_to64();
    if b == 16 {
        assert(sign_extend_masked(v, b) == (if (v >> 15u16) & 1u16 == 1u16 { v | 0u16 } else { v & !0u16 }));
        assert(sign_extend_spec(v, 16) == v);
        assert((if (v >> 15u16) & 1u16 == 1u16 { v | 0u16 } else { v & !0u16 }) == v) by (bit_vector);
    } else if b == 1 {
        assert(sign_extend_masked(v, b) == (if (v >> 0u16) & 1u16 == 1u16 { v | (0xFFFFu16 << 1u16) } else { v & !(0xFFFFu16 << 1u16) }));
        assert(sign_extend_spec(v, 1) == (if v % 2u16 >= 1u16 { ((v % 2u16) + 65534u16) as u16 } else { v % 2u16 }));
        assert((if (v >> 0u16) & 1u16 == 1u16 { v | (0xFFFFu16 << 1u16) } else { v & !(0xFFFFu16 << 1u16) })
            == (if v % 2u16 >= 1u16 { ((v % 2u16) + 65534u16) as u16 } else { v % 2u16 })) by (bit_vector);
    } else if b == 2 {
        assert(sign_extend_masked(v, b) == (if (v >> 1u16) & 1u16 == 1u16 { v | (0xFFFFu16 << 2u16) } else { v & !(0xFFFFu16 << 2u16) }));
        assert(sign_extend_spec(v, 2) == (if v % 4u16 >= 2u16 { ((v % 4u16) + 65532u16) as u16 } else { v % 4u16 }));
        assert((if (v >> 1u16) & 1u16 == 1u16 { v | (0xFFFFu16 << 2u16) } else { v & !(0xFFFFu16 << 2u16) })
            == (if v % 4u16 >= 2u16 { ((v % 4u16) + 65532u16) as u16 } else { v % 4u16 })) by (bit_vector);
    } else if b == 3 {
        assert(sign_extend_masked(v, b) == (if (v >> 2u16) & 1u16 == 1u16 { v | (0xFFFFu16 << 3u16) } else { v & !(0xFFFFu16 << 3u16) }));
        assert(sign_extend_spec(v, 3) == (if v % 8u16 >= 4u16 { ((v % 8u16) + 65528u16) as u16 } else { v % 8u16 }));
        assert((if (v >> 2u16) & 1u16 == 1u16 { v | (0xFFFFu16 << 3u16) } else { v & !(0xFFFFu16 << 3u16) })
            == (if v % 8u16 >= 4u16 { ((v % 8u16) + 65528u16) as u16 } else { v % 8u16 })) by (bit_vector);
    } else if b == 4 {
        assert(sign_extend_masked(v, b) == (if (v >> 3u16) & 1u16 == 1u16 { v | (0xFFFFu16 << 4u16) } else { v & !(0xFFFFu16 << 4u16) }));
        assert(sign_extend_spec(v, 4) == (if v % 16u16 >= 8u16 { ((v % 16u16) + 65520u16) as u16 } else { v % 16u16 }));
        assert((if (v >> 3u16) & 1u16 == 1u16 { v | (0xFFFFu16 << 4u16) } else { v & !(0xFFFFu16 << 4u16) })
            == (if v % 16u16 >= 8u16 { ((v % 16u16) + 65520u16) as u16 } else { v % 16u16 })) by (bit_vector);
    } else if b == 5 {
        assert(sign_extend_masked(v, b) == (if (v >> 4u16) & 1u16 == 1u16 { v | (0xFFFFu16 << 5u16) } else { v & !(0xFFFFu16 << 5u16) }));
        assert(sign_extend_spec(v, 5) == (if v % 32u16 >= 16u16 { ((v % 32u16) + 65504u16) as u16 } else { v % 32u16 }));
        assert((if (v >> 4u16) & 1u16 == 1u16 { v | (0xFFFFu16 << 5u16) } else { v & !(0xFFFFu16 << 5u16) })
            == (if v % 32u16 >= 16u16 { ((v % 32u16) + 65504u16) as u16 } else { v % 32u16 })) by (bit_vector);
    } else if b == 6 {
        assert(sign_extend_masked(v, b) == (if (v >> 5u16) & 1u16 == 1u16 { v | (0xFFFFu16 << 6u16) } else { v & !(0xFFFFu16 << 6u16) }));
        assert(sign_extend_spec(v, 6) == (if v % 64u16 >= 32u16 { ((v % 64u16) + 65472u16) as u16 } else { v % 64u16 }));
        assert((if (v >> 5u16) & 1u16 == 1u16 { v | (0xFFFFu16 << 6u16) } else { v & !(0xFFFFu16 << 6u16) })
            == (if v % 64u16 >= 32u16 { ((v % 64u16) + 65472u16) as u16 } else { v % 64u16 })) by (bit_vector);
    } else if b == 7 {
        assert(sign_extend_masked(v, b) == (if (v >> 6u16) & 1u16 == 1u16 { v | (0xFFFFu16 << 7u16) } else { v & !(0xFFFFu16 << 7u16) }));
        assert(sign_extend_spec(v, 7) == (if v % 128u16 >= 64u16 { ((v % 128u16) + 65408u16) as u16 } else { v % 128u16 }));
        assert((if (v >> 6u16) & 1u16 == 1u16 { v | (0xFFFFu16 << 7u16) } else { v & !(0xFFFFu16 << 7u16) })
            == (if v % 128u16 >= 64u16 { ((v % 128u16) + 65408u16) as u16 } else { v % 128u16 })) by (bit_vector);
    } else if b == 8 {
        assert(sign_extend_masked(v, b) == (if (v >> 7u16) & 1u16 == 1u16 { v | (0xFFFFu16 << 8u16) } else { v & !(0xFFFFu16 << 8u16) }));
        assert(sign_extend_spec(v, 8) == (if v % 256u16 >= 128u16 { ((v % 256u16) + 65280u16) as u16 } else { v % 256u16 }));
        assert((if (v >> 7u16) & 1u16 == 1u16 { v | (0xFFFFu16 << 8u16) } else { v & !(0xFFFFu16 << 8u16) })
            == (if v % 256u16 >= 128u16 { ((v % 256u16) + 65280u16) as u16 } else { v % 256u16 })) by (bit_vector);
    } else if b == 9 {
        assert(sign_extend_masked(v, b) == (if (v >> 8u16) & 1u16 == 1u16 { v | (0xFFFFu16 << 9u16) } else { v & !(0xFFFFu16 << 9u16) }));
        assert(sign_extend_spec(v, 9) == (if v % 512u16 >= 256u16 { ((v % 512u16) + 65024u16) as u16 } else { v % 512u16 }));
        assert((if (v >> 8u16) & 1u16 == 1u16 { v | (0xFFFFu16 << 9u16) } else { v & !(0xFFFFu16 << 9u16) })
            == (if v % 512u16 >= 256u16 { ((v % 512u16) + 65024u16) as u16 } else { v % 512u16 })) by (bit_vector);
    } else if b == 10 {
        assert(sign_extend_masked(v, b) == (if (v >> 9u16) & 1u16 == 1u16 { v | (0xFFFFu16 << 10u16) } else { v & !(0xFFFFu16 << 10u16) }));
        assert(sign_extend_spec(v, 10) == (if v % 1024u16 >= 512u16 { ((v % 1024u16) + 64512u16) as u16 } else { v % 1024u16 }));
        assert((if (v >> 9u16) & 1u16 == 1u16 { v | (0xFFFFu16 << 10u16) } else { v & !(0xFFFFu16 << 10u16) })
            == (if v % 1024u16 >= 512u16 { ((v % 1024u16) + 64512u16) as u16 } else { v % 1024u16 })) by (bit_vector);
    } else if b == 11 {
        assert(sign_extend_masked(v, b) == (if (v >> 10u16) & 1u16 == 1u16 { v | (0xFFFFu16 << 11u16) } else { v & !(0xFFFFu16 << 11u16) }));
        assert(sign_extend_spec(v, 11) == (if v % 2048u16 >= 1024u16 { ((v % 2048u16) + 63488u16) as u16 } else { v % 2048u16 }));
        assert((if (v >> 10u16) & 1u16 == 1u16 { v | (0xFFFFu16 << 11u16) } else { v & !(0xFFFFu16 << 11u16) })
            == (if v % 2048u16 >= 1024u16 { ((v % 2048u16) + 63488u16) as u16 } else { v % 2048u16 })) by (bit_vector);
    } else if b == 12 {
        assert(sign_extend_masked(v, b) == (if (v >> 11u16) & 1u16 == 1u16 { v | (0xFFFFu16 << 12u16) } else { v & !(0xFFFFu16 << 12u16) }));
        assert(sign_extend_spec(v, 12) == (if v % 4096u16 >= 2048u16 { ((v % 4096u16) + 61440u16) as u16 } else { v % 4096u16 }));
        assert((if (v >> 11u16) & 1u16 == 1u16 { v | (0xFFFFu16 << 12u16) } else { v & !(0xFFFFu16 << 12u16) })
            == (if v % 4096u16 >= 2048u16 { ((v % 4096u16) + 61440u16) as u16 } else { v % 4096u16 })) by (bit_vector);
    } else if b == 13 {
        assert(sign_extend_masked(v, b) == (if (v >> 12u16) & 1u16 == 1u16 { v | (0xFFFFu16 << 13u16) } else { v & !(0xFFFFu16 << 13u16) }));
        assert(sign_extend_spec(v, 13) == (if v % 8192u16 >= 4096u16 { ((v % 8192u16) + 57344u16) as u16 } else { v % 8192u16 }));
        assert((if (v >> 12u16) & 1u16 == 1u16 { v | (0xFFFFu16 << 13u16) } else { v & !(0xFFFFu16 << 13u16) })
            == (if v % 8192u16 >= 4096u16 { ((v % 8192u16) + 57344u16) as u16 } else { v % 8192u16 })) by (bit_vector);
    } else if b == 14 {
        assert(sign_extend_masked(v, b) == (if (v >> 13u16) & 1u16 == 1u16 { v | (0xFFFFu16 << 14u16) } else { v & !(0xFFFFu16 << 14u16) }));
        assert(sign_extend_spec(v, 14) == (if v % 16384u16 >= 8192u16 { ((v % 16384u16) + 49152u16) as u16 } else { v % 16384u16 }));
        assert((if (v >> 13u16) & 1u16 == 1u16 { v | (0xFFFFu16 << 14u16) } else { v & !(0xFFFFu16 << 14u16) })
            == (if v % 16384u16 >= 8192u16 { ((v % 16384u16) + 49152u16) as u16 } else { v % 16384u16 })) by (bit_vector);
    } else if b == 15 {
        assert(sign_extend_masked(v, b) == (if (v >> 14u16) & 1u16 == 1u16 { v | (0xFFFFu16 << 15u16) } else { v & !(0xFFFFu16 << 15u16) }));
        assert(sign_extend_spec(v, 15) == (if v % 32768u16 >= 16384u16 { ((v % 32768u16) + 32768u16) as u16 } else { v % 32768u16 }));
        assert((if (v >> 14u16) & 1u16 == 1u16 { v | (0xFFFFu16 << 15u16) } else { v & !(0xFFFFu16 << 15u16) })
            == (if v % 32768u16 >= 16384u16 { ((v % 32768u16) + 32768u16) as u16 } else { v % 32768u16 })) by (bit_vector);
    }
}

/// Extends the sign of the low `bits` bits of `value` through bit 15.
pub fn sign_extend(value: u16, bits: u8) -> (r: u16)
    requires
        1 <= bits <= 16,
    ensures
        r == sign_extend_spec(value, bits as nat),
{
    let b = bits as u16;
    let sign = (value >> (b - 1)) & 1;
    let mask: u16 = if b >= 16 { 0 } else { 0xFFFF << b };
    proof {
        lemma_sign_extend_masked(value, b);
    }
    if sign == 1 {
        value | mask
    } else {
        value & !mask
    }
}

/// Sign extension is idempotent: extending an already extended word again,
/// with the same width, gives the same word.
pub proof fn lemma_sign_extend_idempotent(v: u16, bits: nat)
    requires
        1 <= bits <= 16,
    ensures
        sign_extend_spec(sign_extend_spec(v, bits), bits) == sign_extend_spec(v, bits),
{
    let m = pow2(bits) as int;
    let k = pow2((16 - bits) as nat) as int;
    let low = v as int % m;
    lemma_pow2_pos(bits);
    lemma_pow2_pos((16 - bits) as nat);
    lemma_pow2_adds(bits, (16 - bits) as nat);
    lemma2_to64();
    assert(m * k == 0x10000);
    assert(m <= 0x10000) by {
        if bits < 16 {
            lemma_pow2_strictly_increases(bits, 16);
        }
    }
    let r = sign_extend_spec(v, bits);
    if low >= m / 2 {
        assert(k >= 1) by (nonlinear_arith)
            requires
                m * k == 0x10000,
                m > 0,
                k > 0,
        ;
        assert(low - m + 0x10000 == m * (k - 1) + low) by (nonlinear_arith)
            requires
                m * k == 0x10000,
        ;
        lemma_mod_multiples_vanish(k - 1, low, m);
        lemma_small_mod(low as nat, m as nat);
        assert(r as int % m == low);
    } else {
        assert(r as int == low);
        lemma_small_mod(low as nat, m as nat);
    }
}

/// A five-bit immediate in [-16, 15], cut to its low five bits and extended,
/// gives back the number's 16-bit two's-complement word.
pub proof fn lemma_imm5_round_trip(i: int)
    requires
        -16 <= i <= 15,
    ensures
        sign_extend_spec((i % 32) as u16, 5) as int == (if i < 0 { i + 0x10000 } else { i }),
{
    lemma2_to64();
}

/// The register field at bits 11 to 9: DR, or SR of a store.
pub open spec fn dr_field(instr: u16) -> int {
    ((instr >> 9u16) & 7u16) as int
}

/// The register field at bits 8 to 6: SR1, or the base register.
pub open spec fn sr1_field(instr: u16) -> int {
    ((instr >> 6u16) & 7u16) as int
}

/// The register field at bits 2 to 0: SR2.
pub open spec fn sr2_field(instr: u16) -> int {
    (instr & 7u16) as int
}

/// PC plus the sign-extended low `bits` bits of `instr`.
pub open spec fn ea_spec(regs: Seq<u16>, instr: u16, bits: nat) -> u16 {
    wrap(regs[8] + sign_extend_spec(instr, bits))
}

/// The registers with `value` in `reg` and COND set from it.
pub open spec fn set_flagged(regs: Seq<u16>, reg: int, value: u16) -> Seq<u16> {
    flagged(regs.update(reg, value), reg)
}

/// The second operand of ADD and AND: the 5-bit immediate when bit 5 is set,
/// else SR2.
pub open spec fn operand2(regs: Seq<u16>, instr: u16) -> u16 {
    if (instr >> 5u16) & 1u16 == 1 {
        sign_extend_spec(instr, 5)
    } else {
        regs[sr2_field(instr)]
    }
}

/// BR: jump to the PC-relative address when a flag of bits 11 to 9 is set in COND.
pub open spec fn branch_spec(s: MachineView, instr: u16) -> MachineView {
    if ((instr >> 9u16) & 7u16) & s.regs[9] != 0 {
        MachineView { regs: s.regs.update(8, ea_spec(s.regs, instr, 9)), ..s }
    } else {
        s
    }
}

/// ADD: DR takes SR1 plus the second operand, wrapping; flags follow DR.
pub open spec fn add_spec(s: MachineView, instr: u16) -> MachineView {
    let v = wrap(s.regs[sr1_field(instr)] + operand2(s.regs, instr));
    MachineView { regs: set_flagged(s.regs, dr_field(instr), v), ..s }
}

/// AND: DR takes SR1 and the second operand, bit by bit; flags follow DR.
pub open spec fn and_spec(s: MachineView, instr: u16) -> MachineView {
    let v = s.regs[sr1_field(instr)] & operand2(s.regs, instr);
    MachineView { regs: set_flagged(s.regs, dr_field(instr), v), ..s }
}

/// NOT: DR takes SR1 with every bit flipped; flags follow DR.
pub open spec fn not_spec(s: MachineView, instr: u16) -> MachineView {
    let v = !s.regs[sr1_field(instr)];
    MachineView { regs: set_flagged(s.regs, dr_field(instr), v), ..s }
}

/// Loads the word at `address` into DR and sets the flags.
pub open spec fn load_at_spec(s: MachineView, instr: u16, address: u16) -> MachineView {
    let (m, w) = read_spec(s.mem, address);
    MachineView { regs: set_flagged(s.regs, dr_field(instr), w), mem: m, out: s.out }
}

/// LD: DR takes the word at the PC-relative address of the 9-bit offset.
pub open spec fn ld_spec(s: MachineView, instr: u16) -> MachineView {
    load_at_spec(s, instr, ea_spec(s.regs, instr, 9))
}

/// LDR: DR takes the word at the base register plus the 6-bit offset.
pub open spec fn ldr_spec(s: MachineView, instr: u16) -> MachineView {
    load_at_spec(s, instr, wrap(s.regs[sr1_field(instr)] + sign_extend_spec(instr, 6)))
}

/// LDI: DR takes the word whose address is stored at the PC-relative address.
pub open spec fn ldi_spec(s: MachineView, instr: u16) -> MachineView {
    let (m, a) = read_spec(s.mem, ea_spec(s.regs, instr, 9));
    load_at_spec(MachineView { mem: m, ..s }, instr, a)
}

/// LEA: DR takes the PC-relative address itself; flags follow DR.
pub open spec fn lea_spec(s: MachineView, instr: u16) -> MachineView {
    MachineView { regs: set_flagged(s.regs, dr_field(instr), ea_spec(s.regs, instr, 9)), ..s }
}

/// Stores SR, at bits 11 to 9, at `address`.
pub open spec fn store_at_spec(s: MachineView, instr: u16, address: u16) -> MachineView {
    MachineView { mem: write_spec(s.mem, address, s.regs[dr_field(instr)]), ..s }
}

/// ST: SR is stored at the PC-relative address of the 9-bit offset.
pub open spec fn st_spec(s: MachineView, instr: u16) -> MachineView {
    store_at_spec(s, instr, ea_spec(s.regs, instr, 9))
}

/// STR: SR is stored at the base register plus the 6-bit offset.
pub open spec fn str_spec(s: MachineView, instr: u16) -> MachineView {
    store_at_spec(s, instr, wrap(s.regs[sr1_field(instr)] + sign_extend_spec(instr, 6)))
}

/// STI: SR is stored at the address that the PC-relative address holds.
pub open spec fn sti_spec(s: MachineView, instr: u16) -> MachineView {
    let (m, a) = read_spec(s.mem, ea_spec(s.regs, instr, 9));
    store_at_spec(MachineView { mem: m, ..s }, instr, a)
}

/// JMP: PC takes the base register.
pub open spec fn jmp_spec(s: MachineView, instr: u16) -> MachineView {
    MachineView { regs: s.regs.update(8, s.regs[sr1_field(instr)]), ..s }
}

/// JSR: R7 takes PC first, then PC takes SR1 (bit 11 clear) or the
/// PC-relative address of the 11-bit offset (bit 11 set).
pub open spec fn jsr_spec(s: MachineView, instr: u16) -> MachineView {
    let regs = s.regs.update(7, s.regs[8]);
    let target = if (instr >> 11u16) & 1u16 == 0 {
        regs[sr1_field(instr)]
    } else {
        ea_spec(s.regs, instr, 11)
    };
    MachineView { regs: regs.update(8, target), ..s }
}

/// The machine after `instr` runs, and how it ended.
pub open spec fn run_spec(s: MachineView, instr: u16) -> (MachineView, Result<(), Signal>) {
    let op = instr >> 12u16;
    if op == 0 {
        (branch_spec(s, instr), Ok(()))
    } else if op == 1 {
        (add_spec(s, instr), Ok(()))
    } else if op == 2 {
        (ld_spec(s, instr), Ok(()))
    } else if op == 3 {
        (st_spec(s, instr), Ok(()))
    } else if op == 4 {
        (jsr_spec(s, instr), Ok(()))
    } else if op == 5 {
        (and_spec(s, instr), Ok(()))
    } else if op == 6 {
        (ldr_spec(s, instr), Ok(()))
    } else if op == 7 {
        (str_spec(s, instr), Ok(()))
    } else if op == 8 {
        (s, Err(Signal::UnimplementedOpcode))
    } else if op == 9 {
        (not_spec(s, instr), Ok(()))
    } else if op == 10 {
        (ldi_spec(s, instr), Ok(()))
    } else if op == 11 {
        (sti_spec(s, instr), Ok(()))
    } else if op == 12 {
        (jmp_spec(s, instr), Ok(()))
    } else if op == 13 {
        (s, Err(Signal::ReservedOpcode))
    } else if op == 14 {
        (lea_spec(s, instr), Ok(()))
    } else {
        run_trap_spec(s, instr as u8)
    }
}

proof fn lemma_fields(instr: u16)
    ensures
        (instr >> 9u16) & 7u16 < 8,
        (instr >> 6u16) & 7u16 < 8,
        instr & 7u16 < 8,
        instr >> 12u16 < 16,
        (instr >> 5u16) & 1u16 <= 1,
        (instr >> 11u16) & 1u16 <= 1,
{
    assert((instr >> 9u16) & 7u16 < 8) by (bit_vector);
    assert((instr >> 6u16) & 7u16 < 8) by (bit_vector);
    assert(instr & 7u16 < 8) by (bit_vector);
    assert(instr >> 12u16 < 16) by (bit_vector);
    assert((instr >> 5u16) & 1u16 <= 1) by (bit_vector);
    assert((instr >> 11u16) & 1u16 <= 1) by (bit_vector);
}

/// The instructions that set the flags: ADD, LD, AND, LDR, NOT, LDI, LEA.
pub open spec fn sets_flags(instr: u16) -> bool {
    let op = instr >> 12u16;
    op == 1 || op == 2 || op == 5 || op == 6 || op == 9 || op == 10 || op == 14
}

/// A machine whose registers and memory are all in place.
pub open spec fn machine_wf(s: MachineView) -> bool {
    s.regs.len() == REG_COUNT && s.mem.space.len() == 0x10000
}

/// After an instruction that sets the flags, COND holds exactly one of POS,
/// ZRO and NEG: the one that describes the value in the destination register.
pub proof fn lemma_flags_follow_destination(s: MachineView, instr: u16)
    requires
        machine_wf(s),
        sets_flags(instr),
    ensures
        ({
            let (t, r) = run_spec(s, instr);
            &&& r is Ok
            &&& t.regs[9] == FL::of(t.regs[dr_field(instr)]).bits()
            &&& t.regs[9] == 1 || t.regs[9] == 2 || t.regs[9] == 4
        }),
{
    lemma_fields(instr);
}

/// A fetch moves PC on by exactly one, wrapping past the last address; a run
/// of the fetched word that then fails leaves PC there.
pub proof fn lemma_fetch_advances_pc(s: MachineView)
    requires
        machine_wf(s),
    ensures
        ({
            let (f, w) = fetch_spec(s);
            let (t, r) = run_spec(f, w);
            &&& f.regs[8] == wrap(s.regs[8] + 1)
            &&& r is Err ==> t.regs[8] == wrap(s.regs[8] + 1)
        }),
{
    let (f, w) = fetch_spec(s);
    lemma_fields(w);
}

/// LDI and STI make two dependent memory accesses: the word read at the
/// PC-relative address is the address that is then loaded or stored.
pub proof fn lemma_indirect_reads_twice(s: MachineView, instr: u16)
    requires
        machine_wf(s),
        instr >> 12u16 == 10 || instr >> 12u16 == 11,
    ensures
        ({
            let (m1, a) = read_spec(s.mem, ea_spec(s.regs, instr, 9));
            let (t, r) = run_spec(s, instr);
            &&& r is Ok
            &&& instr >> 12u16 == 10 ==> t.regs[dr_field(instr)] == read_spec(m1, a).1
                && t.mem == read_spec(m1, a).0
            &&& instr >> 12u16 == 11 ==> t.mem == write_spec(m1, a, s.regs[dr_field(instr)])
        }),
{
    lemma_fields(instr);
}

/// HALT ends the run with `Signal::Halted` and changes nothing; that signal
/// is no fault, unlike an I/O failure or an unknown trap.
pub proof fn lemma_halt_is_distinct(s: MachineView, instr: u16)
    requires
        instr >> 12u16 == 15,
        instr as u8 == 0x25,
    ensures
        run_spec(s, instr) == (s, Err::<(), Signal>(Signal::Halted)),
        !Signal::Halted.is_fault(),
        Signal::IoFailure.is_fault(),
        Signal::UnknownTrap.is_fault(),
{
}

impl CPU {
    fn and_add(&mut self, instr: u16, and: bool) -> (r: Result<(), Signal>)
        requires
            old(self).wf(),
        ensures
            final(self).wf(),
            r == Ok::<(), Signal>(()),
            final(self).state() == if and {
                and_spec(old(self).state(), instr)
            } else {
                add_spec(old(self).state(), instr)
            },
    {
        proof {
            lemma_fields(instr);
        }
        let imm = (instr >> 5) & 0b1 > 0;
        let dr = (instr >> 9) & 0b111;
        let sr1 = (instr >> 6) & 0b111;

        let first = self.read(REG::new(sr1)?);
        let other = if imm {
            sign_extend(instr, 5)
        } else {
            let reg = instr & 0b111;
            self.read(REG::new(reg)?)
        };

        let result = if and {
            first & other
        } else {
            first.wrapping_add(other)
        };
        self.write(REG::new(dr)?, result);
        self.update_flags(REG::new(dr)?);
        Ok(())
    }

    fn and(&mut self, instr: u16) -> (r: Result<(), Signal>)
        requires
            old(self).wf(),
        ensures
            final(self).wf(),
            r == Ok::<(), Signal>(()),
            final(self).state() == and_spec(old(self).state(), instr),
    {
        self.and_add(instr, true)
    }

    fn add(&mut self, instr: u16) -> (r: Result<(), Signal>)
        requires
            old(self).wf(),
        ensures
            final(self).wf(),
            r == Ok::<(), Signal>(()),
            final(self).state() == add_spec(old(self).state(), instr),
    {
        self.and_add(instr, false)
    }

    fn not(&mut self, instr: u16) -> (r: Result<(), Signal>)
        requires
            old(self).wf(),
        ensures
            final(self).wf(),
            r == Ok::<(), Signal>(()),
            final(self).state() == not_spec(old(self).state(), instr),
    {
        proof {
            lemma_fields(instr);
        }
        let sr = (instr >> 6) & 0b111;
        let dr = (instr >> 9) & 0b111;

        let src = REG::new(sr)?;
        let dest = REG::new(dr)?;

        let value = self.read(src);
        self.write(dest, !value);
        self.update_flags(dest);
        Ok(())
    }

    fn effective_address(&self, instr: u16, bits: u8) -> (r: u16)
        requires
            self.wf(),
            1 <= bits <= 16,
        ensures
            r == ea_spec(self.regs(), instr, bits as nat),
    {
        let offset = sign_extend(instr, bits);
        let pc = self.read(REG::PC);
        pc.wrapping_add(offset)
    }

    /// Sets PC to the PC-relative address of `value` (with `offset`), or to
    /// the register numbered `value`.
    fn base_jump(&mut self, offset: bool, value: u16, bits: u8) -> (r: Result<(), Signal>)
        requires
            old(self).wf(),
            offset ==> 1 <= bits <= 16,
            !offset ==> value < 8,
        ensures
            final(self).wf(),
            r == Ok::<(), Signal>(()),
            final(self).state() == (MachineView {
                regs: old(self).regs().update(
                    8,
                    if offset {
                        ea_spec(old(self).regs(), value, bits as nat)
                    } else {
                        old(self).regs()[value as int]
                    },
                ),
                ..old(self).state()
            }),
    {
        let address = if offset {
            self.effective_address(value, bits)
        } else {
            let reg = REG::new(value)?;
            self.read(reg)
        };
        self.write(REG::PC, address);
        Ok(())
    }

    fn branch(&mut self, instr: u16) -> (r: Result<(), Signal>)
        requires
            old(self).wf(),
        ensures
            final(self).wf(),
            r == Ok::<(), Signal>(()),
            final(self).state() == branch_spec(old(self).state(), instr),
    {
        let nzp = (instr >> 9) & 0b111;
        let flags = self.read(REG::COND);
        if (nzp & flags) != 0 {
            self.base_jump(true, instr, 9)?
        }
        Ok(())
    }

    fn jump(&mut self, instr: u16) -> (r: Result<(), Signal>)
        requires
            old(self).wf(),
        ensures
            final(self).wf(),
            r == Ok::<(), Signal>(()),
            final(self).state() == jmp_spec(old(self).state(), instr),
    {
        proof {
            lemma_fields(instr);
        }
        let reg = (instr >> 6) & 0b111;
        self.base_jump(false, reg, 0)
    }

    fn jump_to_subroutine(&mut self, instr: u16) -> (r: Result<(), Signal>)
        requires
            old(self).wf(),
        ensures
            final(self).wf(),
            r == Ok::<(), Signal>(()),
            final(self).state() == jsr_spec(old(self).state(), instr),
    {
        proof {
            lemma_fields(instr);
        }
        let pc = self.read(REG::PC);
        self.write(REG::R7, pc);

        let reg_mode = ((instr >> 11) & 1) == 0;
        let value = if reg_mode {
            (instr >> 6) & 0b111
        } else {
            instr
        };
        self.base_jump(!reg_mode, value, 11)
    }

    /// Loads the word at `address` into register `dr` and sets the flags.
    fn base_load(&mut self, dr: u16, address: u16) -> (r: Result<(), Signal>)
        requires
            old(self).wf(),
            dr < 8,
        ensures
            final(self).wf(),
            r == Ok::<(), Signal>(()),
            final(self).state() == ({
                let (m, w) = read_spec(old(self).state().mem, address);
                MachineView {
                    regs: set_flagged(old(self).regs(), dr as int, w),
                    mem: m,
                    out: old(self).state().out,
                }
            }),
    {
        let dest = REG::new(dr)?;
        let value = self.mem_read(address);
        self.write(dest, value);
        self.update_flags(dest);
        Ok(())
    }

    fn load(&mut self, instr: u16) -> (r: Result<(), Signal>)
        requires
            old(self).wf(),
        ensures
            final(self).wf(),
            r == Ok::<(), Signal>(()),
            final(self).state() == ld_spec(old(self).state(), instr),
    {
        proof {
            lemma_fields(instr);
        }
        let address = self.effective_address(instr, 9);
        let dr = (instr >> 9) & 0b111;
        self.base_load(dr, address)
    }

    fn load_register(&mut self, instr: u16) -> (r: Result<(), Signal>)
        requires
            old(self).wf(),
        ensures
            final(self).wf(),
            r == Ok::<(), Signal>(()),
            final(self).state() == ldr_spec(old(self).state(), instr),
    {
        proof {
            lemma_fields(instr);
        }
        let reg = (instr >> 6) & 0b111;
        let base = self.read(REG::new(reg)?);
        let offset = sign_extend(instr, 6);

        let dr = (instr >> 9) & 0b111;
        self.base_load(dr, base.wrapping_add(offset))
    }

    fn load_indirect(&mut self, instr: u16) -> (r: Result<(), Signal>)
        requires
            old(self).wf(),
        ensures
            final(self).wf(),
            r == Ok::<(), Signal>(()),
            final(self).state() == ldi_spec(old(self).state(), instr),
    {
        proof {
            lemma_fields(instr);
        }
        let base = self.effective_address(instr, 9);
        let address = self.mem_read(base);

        let dr = (instr >> 9) & 0b111;
        self.base_load(dr, address)
    }

    fn load_effective_address(&mut self, instr: u16) -> (r: Result<(), Signal>)
        requires
            old(self).wf(),
        ensures
            final(self).wf(),
            r == Ok::<(), Signal>(()),
            final(self).state() == lea_spec(old(self).state(), instr),
    {
        proof {
            lemma_fields(instr);
        }
        let reg = REG::new((instr >> 9) & 0b111)?;
        let eff_adr = self.effective_address(instr, 9);

        self.write(reg, eff_adr);
        self.update_flags(reg);
        Ok(())
    }

    /// Stores register `sr` at `address`.
    fn base_store(&mut self, sr: u16, address: u16) -> (r: Result<(), Signal>)
        requires
            old(self).wf(),
            sr < 8,
        ensures
            final(self).wf(),
            r == Ok::<(), Signal>(()),
            final(self).state() == (MachineView {
                mem: write_spec(old(self).state().mem, address, old(self).regs()[sr as int]),
                ..old(self).state()
            }),
    {
        let src = REG::new(sr)?;
        let value = self.read(src);
        self.mem_write(address, value);
        Ok(())
    }

    fn store(&mut self, instr: u16) -> (r: Result<(), Signal>)
        requires
            old(self).wf(),
        ensures
            final(self).wf(),
            r == Ok::<(), Signal>(()),
            final(self).state() == st_spec(old(self).state(), instr),
    {
        proof {
            lemma_fields(instr);
        }
        let address = self.effective_address(instr, 9);
        let sr = (instr >> 9) & 0b111;
        self.base_store(sr, address)
    }

    fn store_register(&mut self, instr: u16) -> (r: Result<(), Signal>)
        requires
            old(self).wf(),
        ensures
            final(self).wf(),
            r == Ok::<(), Signal>(()),
            final(self).state() == str_spec(old(self).state(), instr),
    {
        proof {
            lemma_fields(instr);
        }
        let reg = (instr >> 6) & 0b111;
        let base = self.read(REG::new(reg)?);
        let offset = sign_extend(instr, 6);

        let sr = (instr >> 9) & 0b111;
        self.base_store(sr, base.wrapping_add(offset))
    }

    fn store_indirect(&mut self, instr: u16) -> (r: Result<(), Signal>)
        requires
            old(self).wf(),
        ensures
            final(self).wf(),
            r == Ok::<(), Signal>(()),
            final(self).state() == sti_spec(old(self).state(), instr),
    {
        proof {
            lemma_fields(instr);
        }
        let base = self.effective_address(instr, 9);
        let address = self.mem_read(base);

        let sr = (instr >> 9) & 0b111;
        self.base_store(sr, address)
    }

    /// Decodes `instr` and runs it.
    pub fn run(&mut self, instr: u16) -> (r: Result<(), Signal>)
        requires
            old(self).wf(),
        ensures
            final(self).wf(),
            (final(self).state(), r) == run_spec(old(self).state(), instr),
    {
        proof {
            lemma_fields(instr);
        }
        let op = OP::new(instr >> 12)?;
        match op {
            OP::BR => self.branch(instr),
            OP::ADD => self.add(instr),
            OP::LD => self.load(instr),
            OP::ST => self.store(instr),
            OP::JSR => self.jump_to_subroutine(instr),
            OP::AND => self.and(instr),
            OP::LDR => self.load_register(instr),
            OP::STR => self.store_register(instr),
            OP::RTI => Err(Signal::UnimplementedOpcode),
            OP::NOT => self.not(instr),
            OP::LDI => self.load_indirect(instr),
            OP::STI => self.store_indirect(instr),
            OP::JMP => self.jump(instr),
            OP::RES => Err(Signal::ReservedOpcode),
            OP::LEA => self.load_effective_address(instr),
            OP::TRAP => self.run_trap(#[verifier::truncate] (instr as u8)),
        }
    }
}

} // verus!
