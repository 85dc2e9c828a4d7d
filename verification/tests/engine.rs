use armsim::arm7::{
    ConditionCode, DebugStatus, InputStatus, Label, MemSize, Operands, Processor,
};
use armsim::backend_api::compile;
use armsim::error::{check_memory_bounds, invalid_operands};
use armsim::instructions::{
    all_instructions, execute_instruction, Instruction, ADD, B, BL, CMP, LDR, LDRB, LDRH, MOV,
    STR, STRB, STRH,
};
use armsim::program::{Program, StepStatus};
use armsim::utils::{
    get_rt_and_address, load_bytes, run_branch_instruction, set_nz_flags, store_bytes,
};

fn assemble(source: &str) -> (Processor, Program) {
    let mut processor = Processor::new();
    let mut program = Program::new();
    let mut kill_switch = false;
    let sources = vec![("main.s".to_string(), source.to_string())];
    let result = compile(
        &mut processor,
        &mut program,
        &mut kill_switch,
        0,
        &sources,
        &vec![],
    );
    assert_eq!(result, Ok(()));
    (processor, program)
}

fn run(program: &Program, processor: &mut Processor) -> Result<(String, InputStatus, DebugStatus), String> {
    let mut kill_switch = false;
    program.run(processor, &mut kill_switch, None, 1000)
}

fn flags(p: &Processor) -> (bool, bool, bool, bool) {
    (p.N, p.Z, p.C, p.V)
}

#[test]
fn processor_starts_with_the_stack_at_the_top() {
    let mut processor = Processor::new();
    for i in 0..16 {
        assert_eq!(processor.R[i], if i == 13 { 1023 } else { 0 });
    }
    assert_eq!(flags(&processor), (false, false, false, false));
    assert!(processor.memory.iter().all(|b| *b == 0));
    processor.R[2] = 9;
    processor.C = true;
    processor.memory[7] = 1;
    processor.reset();
    assert_eq!(processor.R[2], 0);
    assert_eq!(processor.R[13], 1023);
    assert_eq!(processor.C, false);
    assert_eq!(processor.memory[7], 0);
}

#[test]
fn mov_sets_n_and_z_only_with_s() {
    let mut p = Processor::new();
    p.C = true;
    p.V = true;
    let high = Operands::Rd_immed {
        Rd: 1,
        immed: 0x8000_0000,
    };
    assert_eq!(MOV.execute(false, &high, &mut p), Ok(()));
    assert_eq!(p.R[1], 0x8000_0000);
    assert_eq!(flags(&p), (false, false, true, true));
    assert_eq!(MOV.execute(true, &high, &mut p), Ok(()));
    assert_eq!(flags(&p), (true, false, true, true));
    let zero = Operands::Rd_Rm {
        Rd: 2,
        Rm: 3,
        shift: None,
    };
    assert_eq!(MOV.execute(true, &zero, &mut p), Ok(()));
    assert_eq!(p.R[2], 0);
    assert_eq!(flags(&p), (false, true, true, true));
    let wrong = Operands::label {
        label: Label::Index(0),
    };
    assert_eq!(
        MOV.execute(true, &wrong, &mut p),
        Err("Wrong arguments given.".to_string())
    );
    assert_eq!(invalid_operands(), "Wrong arguments given.");
}

#[test]
fn add_wraps_and_sets_carry_and_overflow() {
    let mut p = Processor::new();
    p.R[0] = 0xFFFF_FFFF;
    p.R[2] = 0x7FFF_FFFF;
    p.R[4] = 0x8000_0000;
    let sum = |rd: u8, rn: u8, immed: u32| Operands::Rd_Rn_immed {
        Rd: rd,
        Rn: rn,
        immed,
    };
    assert_eq!(ADD.execute(true, &sum(1, 0, 1), &mut p), Ok(()));
    assert_eq!(p.R[1], 0);
    assert_eq!(flags(&p), (false, true, true, false));
    assert_eq!(ADD.execute(true, &sum(3, 2, 1), &mut p), Ok(()));
    assert_eq!(p.R[3], 0x8000_0000);
    assert_eq!(flags(&p), (true, false, false, true));
    let both = Operands::Rd_Rn_Rm {
        Rd: 5,
        Rn: 4,
        Rm: 4,
        shift: None,
    };
    assert_eq!(ADD.execute(true, &both, &mut p), Ok(()));
    assert_eq!(p.R[5], 0);
    assert_eq!(flags(&p), (false, true, true, true));
    assert_eq!(ADD.execute(false, &sum(6, 0, 2), &mut p), Ok(()));
    assert_eq!(p.R[6], 1);
    assert_eq!(flags(&p), (false, true, true, true));
    let twice = Operands::Rd_Rm {
        Rd: 6,
        Rm: 6,
        shift: None,
    };
    assert_eq!(ADD.execute(true, &twice, &mut p), Ok(()));
    assert_eq!(p.R[6], 2);
    assert_eq!(flags(&p), (false, false, false, false));
    let more = Operands::Rd_immed { Rd: 6, immed: 40 };
    assert_eq!(ADD.execute(false, &more, &mut p), Ok(()));
    assert_eq!(p.R[6], 42);
}

#[test]
fn cmp_changes_flags_only() {
    let mut p = Processor::new();
    p.R[1] = 0x8000_0000;
    p.R[2] = 1;
    let before = p.R;
    let ops = Operands::Rd_Rm {
        Rd: 1,
        Rm: 2,
        shift: None,
    };
    assert_eq!(CMP.execute(true, &ops, &mut p), Ok(()));
    assert_eq!(p.R, before);
    assert_eq!(flags(&p), (false, false, true, true));
    let mut q = Processor::new();
    q.R[1] = 0x8000_0000;
    q.R[2] = 1;
    assert_eq!(CMP.execute(false, &ops, &mut q), Ok(()));
    assert_eq!(flags(&q), flags(&p));
    assert!(p.memory.iter().all(|b| *b == 0));
}

#[test]
fn branches_set_the_counter_and_the_link() {
    let mut p = Processor::new();
    p.R[15] = 3;
    let to = Operands::label {
        label: Label::Index(9),
    };
    assert_eq!(B.execute(false, &to, &mut p), Ok(()));
    assert_eq!((p.R[14], p.R[15]), (0, 9));
    assert_eq!(BL.execute(false, &to, &mut p), Ok(()));
    assert_eq!((p.R[14], p.R[15]), (9, 9));
    let sentinel = Operands::label { label: Label::CR };
    p.R[15] = 4;
    assert_eq!(B.execute(false, &sentinel, &mut p), Ok(()));
    assert_eq!((p.R[14], p.R[15]), (9, 4));
    assert_eq!(BL.execute(false, &sentinel, &mut p), Ok(()));
    assert_eq!((p.R[14], p.R[15]), (4, 4));
    assert_eq!(
        B.execute(false, &Operands::Rd_immed { Rd: 0, immed: 0 }, &mut p),
        Err("Wrong arguments given.".to_string())
    );
}

#[test]
fn stores_are_little_endian() {
    let mut p = Processor::new();
    p.R[0] = 0x1234_5678;
    p.R[1] = 16;
    let at = Operands::Rt_Rn_imm {
        Rt: 0,
        Rn: 1,
        imm: Some(4),
    };
    assert_eq!(STR.execute(false, &at, &mut p), Ok(()));
    assert_eq!(&p.memory[20..24], &[0x78, 0x56, 0x34, 0x12]);
    assert_eq!(p.memory[24], 0);
    assert_eq!(p.memory[19], 0);
    let mut q = Processor::new();
    q.R[0] = 0x1234_5678;
    q.R[1] = 16;
    assert_eq!(STRH.execute(false, &at, &mut q), Ok(()));
    assert_eq!(&q.memory[20..24], &[0x78, 0x56, 0, 0]);
    let mut r = Processor::new();
    r.R[0] = 0x1234_5678;
    r.R[1] = 16;
    assert_eq!(STRB.execute(false, &at, &mut r), Ok(()));
    assert_eq!(&r.memory[20..24], &[0x78, 0, 0, 0]);
    assert_eq!(store_bytes(&at, &mut r, MemSize::WORD), Ok(()));
    assert_eq!(&r.memory[20..24], &[0x78, 0x56, 0x34, 0x12]);
}

#[test]
fn loads_extend_with_zeros() {
    let mut p = Processor::new();
    p.memory[100] = 0xEF;
    p.memory[101] = 0xCD;
    p.memory[102] = 0xAB;
    p.memory[103] = 0x89;
    p.R[1] = 100;
    p.R[2] = 0xFFFF_FFFF;
    let at = |rt: u8| Operands::Rt_Rn_imm {
        Rt: rt,
        Rn: 1,
        imm: None,
    };
    assert_eq!(LDR.execute(false, &at(2), &mut p), Ok(()));
    assert_eq!(p.R[2], 0x89AB_CDEF);
    assert_eq!(LDRH.execute(false, &at(3), &mut p), Ok(()));
    assert_eq!(p.R[3], 0xCDEF);
    assert_eq!(LDRB.execute(false, &at(4), &mut p), Ok(()));
    assert_eq!(p.R[4], 0xEF);
    assert_eq!(load_bytes(&at(5), &mut p, MemSize::HALFWORD), Ok(()));
    assert_eq!(p.R[5], 0xCDEF);
    assert_eq!(
        LDR.execute(false, &Operands::Rt_label { Rt: 6, label: 3 }, &mut p),
        Ok(())
    );
    assert_eq!(p.R[6], 3);
    assert_eq!(
        LDR.execute(false, &Operands::Rt_imm { Rt: 7, label: 0xDEAD_BEEF }, &mut p),
        Ok(())
    );
    assert_eq!(p.R[7], 0xDEAD_BEEF);
    assert_eq!(
        LDRB.execute(false, &Operands::Rt_imm { Rt: 7, label: 1 }, &mut p),
        Err("Wrong arguments given.".to_string())
    );
}

#[test]
fn addressing_forms() {
    let mut p = Processor::new();
    p.R[1] = 100;
    p.R[2] = 3;
    let offset = Operands::Rt_Rn_imm {
        Rt: 0,
        Rn: 1,
        imm: Some(-4),
    };
    assert_eq!(get_rt_and_address(&offset, &mut p), Ok((0, 96)));
    assert_eq!(p.R[1], 100);
    let post = Operands::Rt_Rn_imm_post {
        Rt: 0,
        Rn: 1,
        imm: 8,
    };
    assert_eq!(get_rt_and_address(&post, &mut p), Ok((0, 100)));
    assert_eq!(p.R[1], 108);
    let pre = Operands::Rt_Rn_imm_pre {
        Rt: 0,
        Rn: 1,
        imm: -8,
    };
    assert_eq!(get_rt_and_address(&pre, &mut p), Ok((0, 100)));
    assert_eq!(p.R[1], 100);
    let shifted = Operands::Rt_Rn_Rm {
        Rt: 5,
        Rn: 1,
        Rm: 2,
        shift: Some(2),
    };
    assert_eq!(get_rt_and_address(&shifted, &mut p), Ok((5, 112)));
    let plain = Operands::Rt_Rn_Rm {
        Rt: 5,
        Rn: 1,
        Rm: 2,
        shift: None,
    };
    assert_eq!(get_rt_and_address(&plain, &mut p), Ok((5, 103)));
    let wide = Operands::Rt_Rn_Rm {
        Rt: 5,
        Rn: 1,
        Rm: 2,
        shift: Some(33),
    };
    assert_eq!(get_rt_and_address(&wide, &mut p), Ok((5, 106)));
    p.R[1] = 2;
    assert_eq!(get_rt_and_address(&offset, &mut p), Ok((0, 0xFFFF_FFFE)));
    assert_eq!(
        get_rt_and_address(&Operands::Rd_immed { Rd: 0, immed: 0 }, &mut p),
        Err("Wrong arguments given.".to_string())
    );
}

#[test]
fn memory_accesses_stay_within_bounds() {
    assert_eq!(check_memory_bounds(1020, 1024, MemSize::WORD), Ok(1020));
    assert_eq!(check_memory_bounds(1023, 1024, MemSize::BYTE), Ok(1023));
    assert_eq!(check_memory_bounds(1022, 1024, MemSize::HALFWORD), Ok(1022));
    assert_eq!(
        check_memory_bounds(1021, 1024, MemSize::WORD),
        Err("Memory address 1021 is out of bounds.".to_string())
    );
    assert_eq!(
        check_memory_bounds(1024, 1024, MemSize::BYTE),
        Err("Memory address 1024 is out of bounds.".to_string())
    );
    assert_eq!(
        check_memory_bounds(0xFFFF_FFFF, 1024, MemSize::HALFWORD),
        Err("Memory address 4294967295 is out of bounds.".to_string())
    );
    assert_eq!(MemSize::BYTE.bytes(), 1);
    assert_eq!(MemSize::HALFWORD.bytes(), 2);
    assert_eq!(MemSize::WORD.bytes(), 4);

    let (mut processor, program) = assemble("mov r1, #1022\nstr r0, [r1], #4\nmov r2, #1");
    assert_eq!(
        run(&program, &mut processor),
        Err("\"main.s\" line 2: Memory address 1022 is out of bounds.".to_string())
    );
    assert_eq!(processor.R[1], 1026);
    assert_eq!(processor.R[2], 0);
    assert_eq!(processor.R[15], 2);
}

#[test]
fn a_program_stores_and_loads() {
    let source = "ldr r0,=#0xCAFEF00D\nmov r1, #64\nstr r0, [r1]\nldrh r2, [r1, #2]\nldrb r3, [r1], #1\nldr r4, [sp, #-3]";
    let (mut processor, program) = assemble(source);
    assert_eq!(
        run(&program, &mut processor),
        Ok((String::new(), InputStatus::NoInput, DebugStatus::END))
    );
    assert_eq!(&processor.memory[64..68], &[0x0D, 0xF0, 0xFE, 0xCA]);
    assert_eq!(processor.R[2], 0xCAFE);
    assert_eq!(processor.R[3], 0x0D);
    assert_eq!(processor.R[1], 65);
    assert_eq!(processor.R[4], 0);
}

#[test]
fn a_failed_condition_skips_the_line() {
    let (mut processor, program) = assemble("cmp r0, #1\nmoveq r1, #5\nmovne r2, #6");
    let mut out = String::new();
    assert_eq!(program.step(&mut processor, &mut out), Ok(StepStatus::Advanced));
    assert_eq!(flags(&processor), (true, false, false, false));
    let registers = processor.R;
    let memory = processor.memory;
    assert_eq!(program.step(&mut processor, &mut out), Ok(StepStatus::Advanced));
    let mut expected = registers;
    expected[15] = 2;
    assert_eq!(processor.R, expected);
    assert_eq!(processor.memory, memory);
    assert_eq!(flags(&processor), (true, false, false, false));
    assert_eq!(program.step(&mut processor, &mut out), Ok(StepStatus::Advanced));
    assert_eq!(processor.R[2], 6);
    assert_eq!(program.step(&mut processor, &mut out), Ok(StepStatus::Ended));
    assert_eq!(processor.R[15], 3);
    assert_eq!(out, "");
}

#[test]
fn condition_codes_and_their_opposites() {
    let all = [
        ("eq", ConditionCode::EQ),
        ("ne", ConditionCode::NE),
        ("cs", ConditionCode::CS),
        ("cc", ConditionCode::CC),
        ("mi", ConditionCode::MI),
        ("pl", ConditionCode::PL),
        ("vs", ConditionCode::VS),
        ("vc", ConditionCode::VC),
        ("hi", ConditionCode::HI),
        ("ls", ConditionCode::LS),
        ("ge", ConditionCode::GE),
        ("lt", ConditionCode::LT),
        ("gt", ConditionCode::GT),
        ("le", ConditionCode::LE),
        ("al", ConditionCode::AL),
    ];
    for (name, cc) in all {
        assert_eq!(ConditionCode::from_str(name), Ok(cc));
        assert_eq!(cc.opposite_condition().opposite_condition(), cc);
        for bits in 0..16 {
            let (n, z, c, v) = (bits & 1 != 0, bits & 2 != 0, bits & 4 != 0, bits & 8 != 0);
            if cc != ConditionCode::AL {
                assert_eq!(
                    cc.opposite_condition().condition_test(n, z, c, v),
                    !cc.condition_test(n, z, c, v)
                );
            } else {
                assert!(cc.condition_test(n, z, c, v));
            }
        }
    }
    assert_eq!(ConditionCode::from_str("hs"), Ok(ConditionCode::CS));
    assert_eq!(ConditionCode::from_str("lo"), Ok(ConditionCode::CC));
    assert_eq!(
        ConditionCode::from_str("EQ"),
        Err("EQ is not a condition code".to_string())
    );
    assert!(ConditionCode::HI.condition_test(false, false, true, false));
    assert!(!ConditionCode::HI.condition_test(false, true, true, false));
    assert!(ConditionCode::GE.condition_test(true, false, false, true));
    assert!(ConditionCode::LE.condition_test(false, true, false, false));
}

#[test]
fn predefined_subroutines_write_to_the_output() {
    let source = "m:\n.string \"x = \"\nldr r0,=m\nbl printf\nldr r0,=#-7\nbl value\nbl cr\nldr r0,=#0x1F600\nbl printchar\nldr r0,=#0xD800\nbl printchar";
    let (mut processor, program) = assemble(source);
    assert_eq!(program.string_messages(), &vec!["x = ".to_string()]);
    assert_eq!(
        run(&program, &mut processor),
        Ok((
            "x = -7\n\u{1F600}Warning. Register value exceeds 255 and cannot be converted to an ascii character."
                .to_string(),
            InputStatus::NoInput,
            DebugStatus::END
        ))
    );
    assert_eq!(processor.R[14], 9);

    let (mut processor, program) = assemble("mov r0, #5\nbl printf");
    assert_eq!(
        run(&program, &mut processor),
        Err("\"main.s\" line 2: Cannot print string pointed to by register r0.".to_string())
    );
}

#[test]
fn branch_subroutines_one_by_one() {
    let strings = vec!["zero".to_string(), "one".to_string()];
    let call = |out: &mut String, r0: u32, label: Label| {
        run_branch_instruction(out, r0, &Operands::label { label }, "f.s", 12, &strings)
    };
    let mut out = "> ".to_string();
    assert_eq!(call(&mut out, 1, Label::PRINTF), Ok(None));
    assert_eq!(out, "> one");
    assert_eq!(call(&mut out, 0x8000_0000, Label::VALUE), Ok(None));
    assert_eq!(out, "> one-2147483648");
    assert_eq!(call(&mut out, 97, Label::PRINTCHAR), Ok(None));
    assert_eq!(call(&mut out, 0, Label::CR), Ok(None));
    assert_eq!(out, "> one-2147483648a\n");
    assert_eq!(
        call(&mut out, 0, Label::GetChar),
        Ok(Some(InputStatus::GetChar))
    );
    assert_eq!(
        call(&mut out, 0, Label::GetNumber),
        Ok(Some(InputStatus::GetNumber))
    );
    assert_eq!(call(&mut out, 0, Label::Index(4)), Ok(None));
    assert_eq!(
        call(&mut out, 2, Label::PRINTF),
        Err("\"f.s\" line 12: Cannot print string pointed to by register r0.".to_string())
    );
    assert_eq!(out, "> one-2147483648a\n");
    assert_eq!(
        run_branch_instruction(
            &mut out,
            0,
            &Operands::Rd_immed { Rd: 0, immed: 0 },
            "f.s",
            1,
            &strings
        ),
        Ok(None)
    );
}

#[test]
fn input_is_asked_for_and_taken() {
    let (mut processor, program) = assemble("bl getnumber\nmov r1, r0\nb getchar\nmov r2, r0");
    let mut kill_switch = false;
    assert_eq!(
        program.run(&mut processor, &mut kill_switch, None, 100),
        Ok((String::new(), InputStatus::GetNumber, DebugStatus::RUNNING))
    );
    assert_eq!(processor.R[15], 1);
    assert_eq!(processor.R[14], 0);
    assert_eq!(
        program.run(&mut processor, &mut kill_switch, Some(-2), 100),
        Ok((String::new(), InputStatus::GetChar, DebugStatus::RUNNING))
    );
    assert_eq!(processor.R[1], 0xFFFF_FFFE);
    assert_eq!(
        program.run(&mut processor, &mut kill_switch, Some(65), 100),
        Ok((String::new(), InputStatus::NoInput, DebugStatus::END))
    );
    assert_eq!(processor.R[2], 65);
    assert_eq!(
        program.run(&mut processor, &mut kill_switch, Some(1), 100),
        Ok((String::new(), InputStatus::NoInput, DebugStatus::END))
    );
    assert_eq!(processor.R[0], 65);
}

#[test]
fn the_kill_switch_ends_the_run() {
    let (mut processor, program) = assemble("loop:\nadd r0, #1\nb loop");
    let mut kill_switch = false;
    assert_eq!(
        program.run(&mut processor, &mut kill_switch, None, 7),
        Ok((String::new(), InputStatus::NoInput, DebugStatus::RUNNING))
    );
    assert_eq!(processor.R[0], 4);
    assert_eq!(processor.R[15], 1);
    assert_eq!(
        program.run(&mut processor, &mut kill_switch, None, 0),
        Ok((String::new(), InputStatus::NoInput, DebugStatus::RUNNING))
    );
    kill_switch = true;
    assert_eq!(
        program.run(&mut processor, &mut kill_switch, Some(9), 7),
        Ok((String::new(), InputStatus::NoInput, DebugStatus::END))
    );
    assert!(!kill_switch);
    assert_eq!(processor.R[0], 4);
    assert_eq!(processor.R[15], 1);
    kill_switch = true;
    assert_eq!(
        program.debug_run(&mut processor, &mut kill_switch, Some(9)),
        Ok((
            String::new(),
            0,
            DebugStatus::END,
            InputStatus::NoInput,
            None
        ))
    );
    assert!(!kill_switch);
    assert_eq!(processor.R[0], 4);
}

#[test]
fn debug_run_reports_the_line() {
    let (mut processor, program) = assemble("\nbl getnumber\nmov r0, #66\nbl printchar\nldr r1, [r0, #2000]");
    let mut kill_switch = false;
    assert_eq!(
        program.debug_run(&mut processor, &mut kill_switch, None),
        Ok((
            "main.s".to_string(),
            2,
            DebugStatus::CONTINUE,
            InputStatus::GetNumber,
            None
        ))
    );
    assert_eq!(
        program.debug_run(&mut processor, &mut kill_switch, Some(3)),
        Ok((
            "main.s".to_string(),
            3,
            DebugStatus::CONTINUE,
            InputStatus::NoInput,
            None
        ))
    );
    assert_eq!(
        program.debug_run(&mut processor, &mut kill_switch, None),
        Ok((
            "main.s".to_string(),
            4,
            DebugStatus::CONTINUE,
            InputStatus::NoInput,
            Some("B".to_string())
        ))
    );
    assert_eq!(
        program.debug_run(&mut processor, &mut kill_switch, None),
        Err("\"main.s\" line 5: Memory address 2066 is out of bounds.".to_string())
    );
}

#[test]
fn instruction_table() {
    assert_eq!(
        all_instructions(),
        vec!["mov", "add", "cmp", "b", "bl", "strb", "strh", "str", "ldrb", "ldrh", "ldr"]
    );
    assert_eq!(MOV.mnemonic(), "mov");
    assert_eq!(ADD.mnemonic(), "add");
    assert_eq!(CMP.mnemonic(), "cmp");
    assert_eq!(B.mnemonic(), "b");
    assert_eq!(BL.mnemonic(), "bl");
    assert_eq!(STRB.mnemonic(), "strb");
    assert_eq!(STRH.mnemonic(), "strh");
    assert_eq!(STR.mnemonic(), "str");
    assert_eq!(LDRB.mnemonic(), "ldrb");
    assert_eq!(LDRH.mnemonic(), "ldrh");
    assert_eq!(LDR.mnemonic(), "ldr");
    let mut p = Processor::new();
    let ops = Operands::Rd_immed { Rd: 1, immed: 7 };
    assert_eq!(execute_instruction("add", false, &ops, &mut p), Ok(()));
    assert_eq!(execute_instruction("add", false, &ops, &mut p), Ok(()));
    assert_eq!(p.R[1], 14);
    assert_eq!(execute_instruction("nop", false, &ops, &mut p), Ok(()));
    assert_eq!(p.R[1], 14);
    set_nz_flags(0x8000_0001, &mut p);
    assert_eq!(flags(&p), (true, false, false, false));
    set_nz_flags(0, &mut p);
    assert_eq!(flags(&p), (false, true, false, false));
}
