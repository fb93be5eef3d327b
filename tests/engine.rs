use lc3_vm::cpu::CPU;
use lc3_vm::memory::{ImageError, Memory};
use lc3_vm::operations::sign_extend;
use lc3_vm::reference::{Signal, FL, MR_KBDR, MR_KBSR, OP, PC_START, REG};
use lc3_vm::traps::{build_trap_vec, Trap};

fn cpu_with(words: &[(u16, u16)]) -> CPU {
    let mut mem = Memory::new();
    for &(a, v) in words {
        mem.write(a, v);
    }
    CPU::new(mem)
}

#[test]
fn sign_extend_is_idempotent() {
    for bits in 1u8..=16 {
        for v in [0u16, 1, 0x0F, 0x10, 0x1F, 0x20, 0x7F, 0xFF, 0x1FF, 0x3FF, 0x7FFF, 0x8000, 0xABCD, 0xFFFF] {
            let once = sign_extend(v, bits);
            assert_eq!(sign_extend(once, bits), once, "v={:#x} bits={}", v, bits);
        }
    }
}

#[test]
fn imm5_round_trip() {
    for i in -16i32..=15 {
        let field = (i & 0x1F) as u16;
        assert_eq!(sign_extend(field, 5), i as i16 as u16, "i={}", i);
    }
}

#[test]
fn sign_extend_values() {
    assert_eq!(sign_extend(0x1F, 5), 0xFFFF);
    assert_eq!(sign_extend(0x0F, 5), 0x000F);
    assert_eq!(sign_extend(0xF00F, 5), 0x000F);
    assert_eq!(sign_extend(0x0010, 5), 0xFFF0);
    assert_eq!(sign_extend(0x01FF, 9), 0xFFFF);
    assert_eq!(sign_extend(0x0100, 9), 0xFF00);
    assert_eq!(sign_extend(0x0400, 11), 0xFC00);
    assert_eq!(sign_extend(0x8000, 16), 0x8000);
    assert_eq!(sign_extend(0x0001, 1), 0xFFFF);
}

#[test]
fn new_engine_starts_at_origin() {
    let cpu = cpu_with(&[]);
    assert_eq!(cpu.read(REG::PC), PC_START);
    assert_eq!(cpu.read(REG::R0), 0);
    assert_eq!(cpu.read(REG::COND), 0);
}

#[test]
fn add_register_mode() {
    let mut cpu = cpu_with(&[]);
    cpu.write(REG::R1, 5);
    cpu.write(REG::R2, 3);
    assert_eq!(cpu.run(0x1042), Ok(()));
    assert_eq!(cpu.read(REG::R0), 8);
    assert_eq!(cpu.read(REG::COND), FL::POS.bits());
}

#[test]
fn add_immediate_mode() {
    // 0x127F: bits 11-9 and 8-6 both name R1, immediate -1.
    let mut cpu = cpu_with(&[]);
    cpu.write(REG::R1, 5);
    assert_eq!(cpu.run(0x127F), Ok(()));
    assert_eq!(cpu.read(REG::R1), 4);
    assert_eq!(cpu.read(REG::R0), 0);
    assert_eq!(cpu.read(REG::COND), FL::POS.bits());

    let mut cpu = cpu_with(&[]);
    cpu.write(REG::R1, 1);
    assert_eq!(cpu.run(0x127F), Ok(()));
    assert_eq!(cpu.read(REG::R1), 0);
    assert_eq!(cpu.read(REG::COND), FL::ZRO.bits());
}

#[test]
fn add_immediate_into_r0() {
    // 0x107F: ADD R0, R1, #-1.
    let mut cpu = cpu_with(&[]);
    cpu.write(REG::R1, 5);
    assert_eq!(cpu.run(0x107F), Ok(()));
    assert_eq!(cpu.read(REG::R0), 4);
    assert_eq!(cpu.read(REG::COND), FL::POS.bits());

    let mut cpu = cpu_with(&[]);
    cpu.write(REG::R1, 1);
    assert_eq!(cpu.run(0x107F), Ok(()));
    assert_eq!(cpu.read(REG::R0), 0);
    assert_eq!(cpu.read(REG::COND), FL::ZRO.bits());
}

#[test]
fn add_wraps_and_sets_negative() {
    let mut cpu = cpu_with(&[]);
    cpu.write(REG::R1, 0x7FFF);
    assert_eq!(cpu.run(0x1261), Ok(())); // R1 + 1 into R1
    assert_eq!(cpu.read(REG::R1), 0x8000);
    assert_eq!(cpu.read(REG::COND), FL::NEG.bits());
    cpu.write(REG::R2, 0xFFFF);
    cpu.write(REG::R3, 1);
    assert_eq!(cpu.run(0x1883), Ok(())); // R4 = R2 + R3
    assert_eq!(cpu.read(REG::R4), 0);
    assert_eq!(cpu.read(REG::COND), FL::ZRO.bits());
}

#[test]
fn and_and_not() {
    let mut cpu = cpu_with(&[]);
    cpu.write(REG::R1, 0x0F0F);
    cpu.write(REG::R2, 0x00FF);
    assert_eq!(cpu.run(0x5042), Ok(())); // R0 = R1 & R2
    assert_eq!(cpu.read(REG::R0), 0x000F);
    assert_eq!(cpu.run(0x5060), Ok(())); // R0 = R1 & 0
    assert_eq!(cpu.read(REG::R0), 0);
    assert_eq!(cpu.read(REG::COND), FL::ZRO.bits());
    assert_eq!(cpu.run(0x967F), Ok(())); // R3 = !R1
    assert_eq!(cpu.read(REG::R3), 0xF0F0);
    assert_eq!(cpu.read(REG::COND), FL::NEG.bits());
}

#[test]
fn load_indirect_follows_pointer() {
    let mut cpu = cpu_with(&[(0x3000, 0x3001), (0x3001, 0x00AB)]);
    assert_eq!(cpu.read(REG::PC), 0x3000);
    assert_eq!(cpu.run(0xA000), Ok(()));
    assert_eq!(cpu.read(REG::R0), 0x00AB);
    assert_eq!(cpu.read(REG::COND), FL::POS.bits());
}

#[test]
fn store_indirect_follows_pointer() {
    let mut cpu = cpu_with(&[(0x3002, 0x4000)]);
    cpu.write(REG::R5, 0xBEEF);
    assert_eq!(cpu.run(0xBA02), Ok(())); // STI R5, PC+2
    assert_eq!(cpu.memory().get(0x4000), 0xBEEF);
    assert_eq!(cpu.memory().get(0x3002), 0x4000);
}

#[test]
fn load_store_and_base_offsets() {
    let mut cpu = cpu_with(&[(0x2FFF, 0x8001)]);
    assert_eq!(cpu.run(0x25FF), Ok(())); // LD R2, PC-1
    assert_eq!(cpu.read(REG::R2), 0x8001);
    assert_eq!(cpu.read(REG::COND), FL::NEG.bits());
    assert_eq!(cpu.run(0x3405), Ok(())); // ST R2, PC+5
    assert_eq!(cpu.memory().get(0x3005), 0x8001);
    cpu.write(REG::R6, 0x4010);
    cpu.write(REG::R1, 7);
    assert_eq!(cpu.run(0x7380), Ok(())); // STR R1, R6, #0
    assert_eq!(cpu.memory().get(0x4010), 7);
    assert_eq!(cpu.run(0x73BF), Ok(())); // STR R1, R6, #-1
    assert_eq!(cpu.memory().get(0x400F), 7);
    assert_eq!(cpu.run(0x6980), Ok(())); // LDR R4, R6, #0
    assert_eq!(cpu.read(REG::R4), 7);
}

#[test]
fn load_effective_address_sets_flags() {
    let mut cpu = cpu_with(&[]);
    assert_eq!(cpu.run(0xE604), Ok(())); // LEA R3, PC+4
    assert_eq!(cpu.read(REG::R3), 0x3004);
    assert_eq!(cpu.read(REG::COND), FL::POS.bits());
}

#[test]
fn branch_on_flags() {
    let mut cpu = cpu_with(&[]);
    cpu.write(REG::COND, FL::ZRO.bits());
    assert_eq!(cpu.run(0x0A05), Ok(())); // BRnp: not taken
    assert_eq!(cpu.read(REG::PC), 0x3000);
    assert_eq!(cpu.run(0x0405), Ok(())); // BRz: taken
    assert_eq!(cpu.read(REG::PC), 0x3005);
    assert_eq!(cpu.run(0x0FFB), Ok(())); // BRnzp -5
    assert_eq!(cpu.read(REG::PC), 0x3000);
}

#[test]
fn jumps_and_subroutines() {
    let mut cpu = cpu_with(&[]);
    cpu.write(REG::R2, 0x5000);
    assert_eq!(cpu.run(0x4080), Ok(())); // JSRR R2
    assert_eq!(cpu.read(REG::R7), 0x3000);
    assert_eq!(cpu.read(REG::PC), 0x5000);
    assert_eq!(cpu.run(0x4810), Ok(())); // JSR +16
    assert_eq!(cpu.read(REG::R7), 0x5000);
    assert_eq!(cpu.read(REG::PC), 0x5010);
    assert_eq!(cpu.run(0xC1C0), Ok(())); // RET
    assert_eq!(cpu.read(REG::PC), 0x5000);
}

#[test]
fn jsrr_through_r7_uses_saved_pc() {
    let mut cpu = cpu_with(&[]);
    cpu.write(REG::R7, 0x1234);
    assert_eq!(cpu.run(0x41C0), Ok(())); // JSRR R7
    assert_eq!(cpu.read(REG::R7), 0x3000);
    assert_eq!(cpu.read(REG::PC), 0x3000);
}

#[test]
fn fetch_advances_pc_even_when_run_fails() {
    let mut cpu = cpu_with(&[(0x3000, 0x8000)]);
    let word = cpu.fetch();
    assert_eq!(word, 0x8000);
    assert_eq!(cpu.read(REG::PC), 0x3001);
    assert_eq!(cpu.run(word), Err(Signal::UnimplementedOpcode));
    assert_eq!(cpu.read(REG::PC), 0x3001);

    cpu.write(REG::PC, 0xFFFF);
    cpu.fetch();
    assert_eq!(cpu.read(REG::PC), 0);
}

#[test]
fn invalid_opcodes_fail() {
    let mut cpu = cpu_with(&[]);
    assert_eq!(cpu.run(0x8000), Err(Signal::UnimplementedOpcode));
    assert_eq!(cpu.run(0xD000), Err(Signal::ReservedOpcode));
    assert_eq!(cpu.run(0xF026), Err(Signal::UnknownTrap));
    assert_eq!(cpu.run(0xF000), Err(Signal::UnknownTrap));
}

#[test]
fn halt_is_its_own_signal() {
    let mut cpu = cpu_with(&[(0x4000, 0x1234)]);
    cpu.write(REG::R3, 99);
    let r = cpu.run(0xF025);
    assert_eq!(r, Err(Signal::Halted));
    assert_ne!(r, Err(Signal::IoFailure));
    assert_ne!(r, Err(Signal::UnknownTrap));
    assert_eq!(cpu.read(REG::R3), 99);
    assert_eq!(cpu.read(REG::PC), 0x3000);
    assert!(cpu.take_output().is_empty());
}

#[test]
fn pushed_input_reaches_keyboard_registers() {
    let mut cpu = cpu_with(&[(0x3000, 0xFE00)]);
    cpu.push_input(b'A');
    assert_eq!(cpu.run(0xA000), Ok(())); // LDI R0 through KBSR's address
    assert_eq!(cpu.read(REG::R0), 0xFFFF);
    assert_eq!(cpu.memory().get(MR_KBDR), 0x41);
    assert!(!cpu.memory().has_input());
}

#[test]
fn keyboard_status_poll() {
    let mut mem = Memory::new();
    mem.write(MR_KBDR, 0x1234);
    mem.write(MR_KBSR, 0x5555);
    assert_eq!(mem.read(MR_KBSR), 0);
    assert_eq!(mem.get(MR_KBSR), 0);
    assert_eq!(mem.get(MR_KBDR), 0x1234);

    mem.push_input(b'A');
    assert_eq!(mem.read(MR_KBSR), 0xFFFF);
    assert_eq!(mem.get(MR_KBDR), 0x0041);
    assert!(!mem.has_input());
}

#[test]
fn keyboard_data_read_does_not_poll() {
    let mut mem = Memory::new();
    mem.push_input(b'z');
    assert_eq!(mem.read(MR_KBDR), 0);
    assert!(mem.has_input());
    assert_eq!(mem.take_input(), Some(b'z'));
    assert_eq!(mem.take_input(), None);
}

#[test]
fn getc_takes_pending_byte_or_waits() {
    let mut cpu = cpu_with(&[]);
    assert_eq!(cpu.run(0xF020), Err(Signal::AwaitingInput));
    assert_eq!(cpu.read(REG::R0), 0);
    cpu.deliver_key(b'q');
    assert_eq!(cpu.read(REG::R0), b'q' as u16);

    let mut mem = Memory::new();
    mem.push_input(b'x');
    let mut cpu = CPU::new(mem);
    assert_eq!(cpu.run(0xF020), Ok(()));
    assert_eq!(cpu.read(REG::R0), b'x' as u16);
}

#[test]
fn in_prompts_then_reads() {
    let mut mem = Memory::new();
    mem.push_input(b'k');
    let mut cpu = CPU::new(mem);
    assert_eq!(cpu.run(0xF023), Ok(()));
    assert_eq!(cpu.take_output(), b"Input: ".to_vec());
    assert_eq!(cpu.read(REG::R0), b'k' as u16);
    assert!(cpu.take_output().is_empty());
}

#[test]
fn out_writes_low_byte() {
    let mut cpu = cpu_with(&[]);
    cpu.write(REG::R0, 0x1248);
    assert_eq!(cpu.run(0xF021), Ok(()));
    assert_eq!(cpu.take_output(), vec![0x48]);
}

#[test]
fn puts_writes_until_zero() {
    let mut cpu = cpu_with(&[(0x4000, b'H' as u16), (0x4001, 0x0169), (0x4002, 0), (0x4003, b'X' as u16)]);
    cpu.write(REG::R0, 0x4000);
    assert_eq!(cpu.run(0xF022), Ok(()));
    assert_eq!(cpu.take_output(), b"Hi".to_vec());
}

#[test]
fn putsp_writes_packed_pairs() {
    let mut cpu = cpu_with(&[(0x4000, 0x6548), (0x4001, 0x6C6C), (0x4002, 0x006F), (0x4003, 0x4141)]);
    cpu.write(REG::R0, 0x4000);
    assert_eq!(cpu.run(0xF024), Ok(()));
    assert_eq!(cpu.take_output(), b"Hello".to_vec());

    let mut cpu = cpu_with(&[(0x4000, 0x6548), (0x4001, 0x6C00)]);
    cpu.write(REG::R0, 0x4000);
    assert_eq!(cpu.run(0xF024), Ok(()));
    assert_eq!(cpu.take_output(), b"He".to_vec());
}

#[test]
fn trap_table_has_six_vectors() {
    let t = build_trap_vec();
    assert_eq!(t.get(0x20), Some(Trap::Getc));
    assert_eq!(t.get(0x21), Some(Trap::Out));
    assert_eq!(t.get(0x22), Some(Trap::Puts));
    assert_eq!(t.get(0x23), Some(Trap::In));
    assert_eq!(t.get(0x24), Some(Trap::Putsp));
    assert_eq!(t.get(0x25), Some(Trap::Halt));
    assert_eq!(t.get(0x1F), None);
    assert_eq!(t.get(0x26), None);
    assert_eq!(t.get(0xFF), None);
}

#[test]
fn register_and_opcode_decoding() {
    assert_eq!(REG::new(0), Ok(REG::R0));
    assert_eq!(REG::new(8), Ok(REG::PC));
    assert_eq!(REG::new(9), Ok(REG::COND));
    assert_eq!(REG::new(10), Err(Signal::InvalidRegister));
    assert_eq!(OP::new(0), Ok(OP::BR));
    assert_eq!(OP::new(15), Ok(OP::TRAP));
    assert_eq!(OP::new(16), Err(Signal::InvalidOpcode));
    assert_eq!(FL::POS.bits(), 1);
    assert_eq!(FL::ZRO.bits(), 2);
    assert_eq!(FL::NEG.bits(), 4);
}

#[test]
fn update_flags_reads_named_register() {
    let mut cpu = cpu_with(&[]);
    cpu.write(REG::R5, 0x8000);
    cpu.update_flags(REG::R5);
    assert_eq!(cpu.read(REG::COND), FL::NEG.bits());
    cpu.update_flags(REG::R4);
    assert_eq!(cpu.read(REG::COND), FL::ZRO.bits());
}

#[test]
fn image_loading() {
    assert_eq!(Memory::from_image(&vec![]).err(), Some(ImageError::MissingOrigin));
    assert_eq!(Memory::from_image(&vec![0x30]).err(), Some(ImageError::MissingOrigin));
    assert_eq!(Memory::from_image(&vec![0x30, 0x00, 0x12]).err(), Some(ImageError::OddLength));

    let mem = Memory::from_image(&vec![0x30, 0x00, 0x12, 0x34, 0xF0, 0x25]).ok().unwrap();
    assert_eq!(mem.get(0x3000), 0x1234);
    assert_eq!(mem.get(0x3001), 0xF025);
    assert_eq!(mem.get(0x3002), 0);
    assert_eq!(mem.get(0x2FFF), 0);

    let mem = Memory::from_image(&vec![0xFF, 0xFF, 0x00, 0x01, 0x00, 0x02]).ok().unwrap();
    assert_eq!(mem.get(0xFFFF), 1);
    assert_eq!(mem.get(0x0000), 2);
}

#[test]
fn fetch_run_program() {
    // ADD R0, R0, #3; ADD R0, R0, #-1; ADD R1, R0, #0; HALT
    let mem = Memory::from_image(&vec![0x30, 0x00, 0x10, 0x23, 0x10, 0x3F, 0x12, 0x20, 0xF0, 0x25]).ok().unwrap();
    let mut cpu = CPU::new(mem);
    let mut steps = 0;
    let end = loop {
        let w = cpu.fetch();
        if let Err(e) = cpu.run(w) {
            break e;
        }
        steps += 1;
    };
    assert_eq!(end, Signal::Halted);
    assert_eq!(steps, 3);
    assert_eq!(cpu.read(REG::R0), 2);
    assert_eq!(cpu.read(REG::R1), 2);
    assert_eq!(cpu.read(REG::PC), 0x3004);
}
