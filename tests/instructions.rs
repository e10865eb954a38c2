use i8080::{make_processor, ConditionBits, Processor, UnimplementedOpcode};

/// A processor with `code` at address 0, run for `steps` instructions.
fn after(code: &[u8], steps: usize) -> Processor {
    let mut processor = make_processor();
    processor.load(code);
    for _ in 0..steps {
        processor.run_one_command();
    }
    processor
}

#[test]
fn starts_cleared() {
    let mut processor = make_processor();
    assert_eq!(processor.memory.len(), 0x10000);
    assert!(processor.memory.iter().all(|&b| b == 0));
    assert_eq!((processor.a, processor.b, processor.sp, processor.pc), (0, 0, 0, 0));
    assert!(!processor.halt && !processor.interrupt_enabled);
    assert_eq!(processor.conditions.convert_to_flags(), 0b10);
}

#[test]
fn load_keeps_the_rest_of_memory() {
    let mut processor = make_processor();
    processor.memory[5] = 9;
    processor.load(&[1, 2, 3]);
    assert_eq!(&processor.memory[0..6], &[1, 2, 3, 0, 0, 9]);
}

#[test]
fn hlt_leaves_pc_past_itself() {
    let processor = after(&[0x00, 0x76], 2);
    assert!(processor.halt);
    assert_eq!(processor.pc, 2);
}

#[test]
fn adi_sets_all_flags() {
    // MVI A,0x85; ADI 0x7B: 0x100
    let p = after(&[0x3e, 0x85, 0xc6, 0x7b], 2);
    assert_eq!(p.a, 0);
    assert!(p.conditions.carry && p.conditions.zero && p.conditions.parity);
    assert!(!p.conditions.sign);
    assert!(p.conditions.aux_carry);
    // MVI A,0x12; ADI 0x34: 0x46, three set bits
    let p = after(&[0x3e, 0x12, 0xc6, 0x34], 2);
    assert_eq!(p.a, 0x46);
    assert!(!p.conditions.carry && !p.conditions.zero && !p.conditions.parity);
    assert!(!p.conditions.aux_carry);
}

#[test]
fn adc_and_aci_add_the_carry() {
    // STC; MVI A,1; ACI 1
    let p = after(&[0x37, 0x3e, 0x01, 0xce, 0x01], 3);
    assert_eq!(p.a, 3);
    // STC; MVI A,0xFF; MVI B,0; ADC B
    let p = after(&[0x37, 0x3e, 0xff, 0x06, 0x00, 0x88], 4);
    assert_eq!(p.a, 0);
    assert!(p.conditions.carry && p.conditions.zero && p.conditions.aux_carry);
}

#[test]
fn sub_borrows() {
    // MVI A,1; MVI B,2; SUB B
    let p = after(&[0x3e, 0x01, 0x06, 0x02, 0x90], 3);
    assert_eq!(p.a, 0xff);
    assert!(p.conditions.carry && p.conditions.sign && p.conditions.parity);
    assert!(!p.conditions.aux_carry);
    // MVI A,0x13; SUI 0x02
    let p = after(&[0x3e, 0x13, 0xd6, 0x02], 2);
    assert_eq!(p.a, 0x11);
    assert!(!p.conditions.carry && p.conditions.aux_carry);
}

#[test]
fn sbb_and_sbi_subtract_the_borrow() {
    // STC; MVI A,5; SBI 2
    let p = after(&[0x37, 0x3e, 0x05, 0xde, 0x02], 3);
    assert_eq!(p.a, 2);
    assert!(!p.conditions.carry);
    // STC; MVI A,0; MVI C,0; SBB C
    let p = after(&[0x37, 0x3e, 0x00, 0x0e, 0x00, 0x99], 4);
    assert_eq!(p.a, 0xff);
    assert!(p.conditions.carry);
}

#[test]
fn cmp_keeps_a_and_matches_sub_flags() {
    for (a, b) in [(0u8, 0u8), (1, 2), (0x80, 0x7f), (0x42, 0x42), (0xff, 0x01)] {
        let cmp = after(&[0x3e, a, 0x06, b, 0xb8], 3);
        let sub = after(&[0x3e, a, 0x06, b, 0x90], 3);
        assert_eq!(cmp.a, a);
        assert_eq!(cmp.conditions, sub.conditions);
    }
}

#[test]
fn logical_ops_clear_both_carries() {
    // STC; MVI A,0xF0; MVI B,0x3C; ANA B
    let p = after(&[0x37, 0x3e, 0xf0, 0x06, 0x3c, 0xa0], 4);
    assert_eq!(p.a, 0x30);
    assert!(!p.conditions.carry && !p.conditions.aux_carry && p.conditions.parity);
    // MVI A,0xF0; XRI 0xFF
    let p = after(&[0x3e, 0xf0, 0xee, 0xff], 2);
    assert_eq!(p.a, 0x0f);
    // MVI A,0xF0; MVI C,0x01; ORA C
    let p = after(&[0x3e, 0xf0, 0x0e, 0x01, 0xb1], 3);
    assert_eq!(p.a, 0xf1);
    assert!(p.conditions.sign && !p.conditions.parity);
    // MVI A,0x55; XRA A
    let p = after(&[0x3e, 0x55, 0xaf], 2);
    assert_eq!(p.a, 0);
    assert!(p.conditions.zero);
    // MVI A,0x0F; ORI 0x30; ANI 0x3C
    let p = after(&[0x3e, 0x0f, 0xf6, 0x30, 0xe6, 0x3c], 3);
    assert_eq!(p.a, 0x3c);
}

#[test]
fn inr_dcr_keep_carry_and_set_aux_carry() {
    // STC; MVI B,0x0F; INR B
    let p = after(&[0x37, 0x06, 0x0f, 0x04], 3);
    assert_eq!(p.b, 0x10);
    assert!(p.conditions.carry && p.conditions.aux_carry);
    // MVI B,0xFF; INR B: wraps to zero
    let p = after(&[0x06, 0xff, 0x04], 2);
    assert_eq!(p.b, 0);
    assert!(p.conditions.zero && !p.conditions.carry);
    // MVI C,0; DCR C: wraps to 0xFF
    let p = after(&[0x0e, 0x00, 0x0d], 2);
    assert_eq!(p.c, 0xff);
    assert!(p.conditions.sign && !p.conditions.aux_carry && !p.conditions.carry);
    // INR then DCR on every register, M included
    for r in 0..8u8 {
        let code = [0x21, 0x00, 0x30, 0x06 | (r << 3), 0x7f, 0x37, 0x04 | (r << 3), 0x05 | (r << 3)];
        let p = after(&code, 6);
        let value = match r {
            0 => p.b,
            1 => p.c,
            2 => p.d,
            3 => p.e,
            4 => p.h,
            5 => p.l,
            6 => p.memory[0x3000],
            _ => p.a,
        };
        assert_eq!(value, 0x7f);
        assert!(p.conditions.carry);
    }
}

#[test]
fn inx_dcx_wrap_without_flags() {
    // LXI B,FFFF; INX B
    let p = after(&[0x01, 0xff, 0xff, 0x03], 2);
    assert_eq!((p.b, p.c), (0, 0));
    assert!(!p.conditions.zero);
    // DCX SP from 0
    let p = after(&[0x3b], 1);
    assert_eq!(p.sp, 0xffff);
    // LXI D,0100; DCX D
    let p = after(&[0x11, 0x00, 0x01, 0x1b], 2);
    assert_eq!((p.d, p.e), (0x00, 0xff));
    // LXI H,00FF; INX H
    let p = after(&[0x21, 0xff, 0x00, 0x23], 2);
    assert_eq!((p.h, p.l), (0x01, 0x00));
}

#[test]
fn dad_sets_carry_only() {
    // LXI H,8000; LXI B,8001; DAD B
    let p = after(&[0x21, 0x00, 0x80, 0x01, 0x01, 0x80, 0x09], 3);
    assert_eq!((p.h, p.l), (0x00, 0x01));
    assert!(p.conditions.carry);
    assert!(!p.conditions.zero);
    // LXI H,1234; DAD H
    let p = after(&[0x21, 0x34, 0x12, 0x29], 2);
    assert_eq!((p.h, p.l), (0x24, 0x68));
    assert!(!p.conditions.carry);
}

#[test]
fn rotates() {
    // MVI A,0x81; RLC
    let p = after(&[0x3e, 0x81, 0x07], 2);
    assert_eq!(p.a, 0x03);
    assert!(p.conditions.carry);
    // MVI A,0x81; RRC
    let p = after(&[0x3e, 0x81, 0x0f], 2);
    assert_eq!(p.a, 0xc0);
    assert!(p.conditions.carry);
    // MVI A,0x80; RAL with CY clear
    let p = after(&[0x3e, 0x80, 0x17], 2);
    assert_eq!(p.a, 0x00);
    assert!(p.conditions.carry);
    // STC; MVI A,0x02; RAR
    let p = after(&[0x37, 0x3e, 0x02, 0x1f], 3);
    assert_eq!(p.a, 0x81);
    assert!(!p.conditions.carry);
}

#[test]
fn carry_instructions_twice() {
    let p = after(&[0x37, 0x37], 2);
    assert!(p.conditions.carry);
    let p = after(&[0x3f, 0x3f], 2);
    assert!(!p.conditions.carry);
    let p = after(&[0x37, 0x3f, 0x3f], 3);
    assert!(p.conditions.carry);
    // CMA
    let p = after(&[0x3e, 0x5a, 0x2f], 2);
    assert_eq!(p.a, 0xa5);
}

#[test]
fn direct_loads_and_stores() {
    // MVI A,0x42; STA 1234; LXI H,BEEF; SHLD 2000; LDA 2001; LHLD 1233
    let p = after(
        &[0x3e, 0x42, 0x32, 0x34, 0x12, 0x21, 0xef, 0xbe, 0x22, 0x00, 0x20, 0x3a, 0x01, 0x20, 0x2a,
            0x33, 0x12],
        6,
    );
    assert_eq!(p.memory[0x1234], 0x42);
    assert_eq!((p.memory[0x2000], p.memory[0x2001]), (0xef, 0xbe));
    assert_eq!(p.a, 0xbe);
    assert_eq!((p.l, p.h), (0x00, 0x42));
    // LXI D,3000; MVI A,7; STAX D; MVI A,0; LDAX D
    let p = after(&[0x11, 0x00, 0x30, 0x3e, 0x07, 0x12, 0x3e, 0x00, 0x1a], 5);
    assert_eq!(p.memory[0x3000], 7);
    assert_eq!(p.a, 7);
}

#[test]
fn push_pop_round_trips() {
    // LXI SP,4000; LXI B,1234; PUSH B; POP D
    let p = after(&[0x31, 0x00, 0x40, 0x01, 0x34, 0x12, 0xc5, 0xd1], 4);
    assert_eq!((p.d, p.e), (0x12, 0x34));
    assert_eq!(p.sp, 0x4000);
    // high byte below the old SP, low byte under it
    assert_eq!((p.memory[0x3fff], p.memory[0x3ffe]), (0x12, 0x34));
    // LXI SP,4000; LXI H,ABCD; PUSH H; LXI H,0; POP H
    let p = after(&[0x31, 0x00, 0x40, 0x21, 0xcd, 0xab, 0xe5, 0x21, 0x00, 0x00, 0xe1], 5);
    assert_eq!((p.h, p.l), (0xab, 0xcd));
    assert_eq!(p.sp, 0x4000);
}

#[test]
fn psw_round_trip_and_layout() {
    // LXI SP,4000; MVI A,0x0F; ADI 0xF1 (A=0, Z P AC CY); PUSH PSW; POP B
    let p = after(&[0x31, 0x00, 0x40, 0x3e, 0x0f, 0xc6, 0xf1, 0xf5, 0xc1], 5);
    assert_eq!(p.b, 0x00);
    assert_eq!(p.c, 0b0101_0111);
    // ...; PUSH PSW; XRA A... then POP PSW gives the flags back
    let mut p = after(&[0x31, 0x00, 0x40, 0x3e, 0x80, 0xb7, 0xf5, 0x3e, 0x01, 0xc6, 0xff, 0xf1], 8);
    assert_eq!(p.a, 0x80);
    assert!(p.conditions.sign && !p.conditions.zero && !p.conditions.carry);
    assert_eq!(p.conditions.convert_to_flags(), 0b1000_0010);
}

#[test]
fn flag_byte_conversions() {
    let mut f = ConditionBits { carry: true, aux_carry: false, sign: true, zero: false, parity: true };
    assert_eq!(f.convert_to_flags(), 0b1000_0111);
    f.set_flags(0b0101_0000);
    assert_eq!(
        f,
        ConditionBits { carry: false, aux_carry: true, sign: false, zero: true, parity: false }
    );
    f.set_flags(0xff);
    assert_eq!(f.convert_to_flags(), 0b1101_0111);
}

#[test]
fn xchg_and_xthl_undo_themselves() {
    // LXI D,1234; LXI H,5678; XCHG
    let p = after(&[0x11, 0x34, 0x12, 0x21, 0x78, 0x56, 0xeb], 3);
    assert_eq!((p.d, p.e, p.h, p.l), (0x56, 0x78, 0x12, 0x34));
    let p = after(&[0x11, 0x34, 0x12, 0x21, 0x78, 0x56, 0xeb, 0xeb], 4);
    assert_eq!((p.d, p.e, p.h, p.l), (0x12, 0x34, 0x56, 0x78));
    // LXI SP,4000; LXI B,ABCD; PUSH B; LXI H,1234; XTHL
    let code = [0x31, 0x00, 0x40, 0x01, 0xcd, 0xab, 0xc5, 0x21, 0x34, 0x12, 0xe3, 0xe3];
    let p = after(&code, 5);
    assert_eq!((p.h, p.l), (0xab, 0xcd));
    assert_eq!((p.memory[0x3fff], p.memory[0x3ffe]), (0x12, 0x34));
    assert_eq!(p.sp, 0x3ffe);
    let p = after(&code, 6);
    assert_eq!((p.h, p.l), (0x12, 0x34));
    assert_eq!((p.memory[0x3fff], p.memory[0x3ffe]), (0xab, 0xcd));
}

#[test]
fn calls_returns_and_restarts() {
    // 0000 LXI SP,4000; 0003 CALL 0010; 0006 HLT; 0010 RET
    let mut code = vec![0x31, 0x00, 0x40, 0xcd, 0x10, 0x00, 0x76];
    code.resize(0x10, 0);
    code.push(0xc9);
    let p = after(&code, 2);
    assert_eq!((p.memory[0x3fff], p.memory[0x3ffe]), (0x00, 0x06));
    assert_eq!(p.pc, 0x10);
    let p = after(&code, 3);
    assert_eq!(p.pc, 0x06);
    assert_eq!(p.sp, 0x4000);
    // XRA A (Z set); CNZ 1234 not taken; CZ 1234 taken
    let p = after(&[0x31, 0x00, 0x40, 0xaf, 0xc4, 0x34, 0x12, 0xcc, 0x34, 0x12], 3);
    assert_eq!(p.pc, 0x07);
    let p = after(&[0x31, 0x00, 0x40, 0xaf, 0xc4, 0x34, 0x12, 0xcc, 0x34, 0x12], 4);
    assert_eq!(p.pc, 0x1234);
    assert_eq!(p.sp, 0x3ffe);
    // RST 5 at 0003
    let p = after(&[0x31, 0x00, 0x40, 0xef], 2);
    assert_eq!(p.pc, 0x28);
    assert_eq!((p.memory[0x3fff], p.memory[0x3ffe]), (0x00, 0x04));
    // RNC with CY set does not return
    let p = after(&[0x37, 0xd0], 2);
    assert_eq!(p.pc, 2);
    // undocumented CALL alias FD
    let p = after(&[0x31, 0x00, 0x40, 0xfd, 0x00, 0x20], 2);
    assert_eq!(p.pc, 0x2000);
}

#[test]
fn pchl_sphl_and_interrupt_latch() {
    let p = after(&[0x21, 0x34, 0x12, 0xe9], 2);
    assert_eq!(p.pc, 0x1234);
    let p = after(&[0x21, 0x34, 0x12, 0xf9], 2);
    assert_eq!(p.sp, 0x1234);
    let p = after(&[0xfb], 1);
    assert!(p.interrupt_enabled);
    let p = after(&[0xfb, 0xf3], 2);
    assert!(!p.interrupt_enabled);
}

#[test]
fn ports_skip_their_operand() {
    // IN 10; OUT 10
    let p = after(&[0xdb, 0x10, 0xd3, 0x10], 2);
    assert_eq!(p.pc, 4);
    assert_eq!(p.a, 0);
}

#[test]
fn unimplemented_opcode_is_reported_and_skipped() {
    let mut p = make_processor();
    let faults = p.run_program(&[0x00, 0x08, 0x38, 0x76], 100);
    assert_eq!(
        faults,
        vec![UnimplementedOpcode { opcode: 0x08, pc: 1 }, UnimplementedOpcode { opcode: 0x38, pc: 2 }]
    );
    assert!(p.halt);
    assert_eq!(p.pc, 4);
}

#[test]
fn run_stops_after_max_steps() {
    // JMP 0000
    let mut p = make_processor();
    let faults = p.run_program(&[0xc3, 0x00, 0x00], 10);
    assert!(faults.is_empty());
    assert!(!p.halt);
    assert_eq!(p.pc, 0);
}

#[test]
fn pc_and_stack_wrap() {
    // execution runs off the end of memory and continues at 0
    let mut p = make_processor();
    p.memory[0xffff] = 0x3c; // INR A
    p.memory[0] = 0x76;
    p.pc = 0xffff;
    p.run(10);
    assert_eq!(p.a, 1);
    assert_eq!(p.pc, 1);
    // PUSH with SP 0 writes at FFFF and FFFE
    let p = after(&[0x01, 0x34, 0x12, 0xc5], 2);
    assert_eq!(p.sp, 0xfffe);
    assert_eq!((p.memory[0xffff], p.memory[0xfffe]), (0x12, 0x34));
}

#[test]
fn pc_moves_past_each_instruction() {
    let lengths = [
        (0x00u8, 1u16), (0x01, 3), (0x06, 2), (0x0a, 1), (0x22, 3), (0x2a, 3), (0x32, 3),
        (0x3a, 3), (0x3e, 2), (0x40, 1), (0x76, 1), (0x86, 1), (0xc1, 1), (0xc5, 1), (0xc6, 2),
        (0xd3, 2), (0xdb, 2), (0xe3, 1), (0xeb, 1), (0xfe, 2), (0xfb, 1),
    ];
    for (op, len) in lengths {
        let mut p = make_processor();
        p.sp = 0x8000;
        p.pc = 0x1000;
        p.memory[0x1000] = op;
        p.run_one_command();
        assert_eq!(p.pc, 0x1000 + len, "opcode {:#04x}", op);
    }
    // a conditional jump whose condition fails moves past its operand too
    let mut p = make_processor();
    p.memory[0] = 0xda; // JC with CY clear
    p.run_one_command();
    assert_eq!(p.pc, 3);
}
