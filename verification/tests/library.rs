use armsim::arm7::{MnemonicExtension, Operands, Processor};
use armsim::config::{read_dir_file, Config};
use armsim::display::{display_cpu, display_memory, format_byte, format_register};
use armsim::error::{invalid_args, CompileErr, InstructionCompileErr};
use armsim::instructions::{Instruction, ADD, B, BL, CMP, LDR, MOV, STRB};
use armsim::numeral::{decimal_string, fixed_digits_string, parse_u32, signed_decimal_string};
use armsim::operands::has_leading_registers;
use armsim::text::{
    chars_of, ends_with, head_of, is_whitespace, split_lines, split_words, starts_with, str_eq,
    tail_of, trim,
};
use armsim::utils as hp;
use armsim::utils::Shape;

fn one(message: &str) -> Vec<String> {
    vec![message.to_string()]
}

#[test]
fn numbers_do_not_depend_on_case_or_spacing() {
    let plain = hp::get_all_numbers("add r1, r2, #0xff");
    assert_eq!(plain, Ok(vec![1, 2, 255]));
    assert_eq!(hp::get_all_numbers("add r1, r2, #0xFF"), plain);
    assert_eq!(hp::get_all_numbers("add   r1 ,\tr2  ,   #0xff  "), plain);
    assert_eq!(hp::get_all_numbers("add r1,r2,#0xff"), plain);
    let line = "LDR R10, [PC, #0X20]";
    let lower = line.to_lowercase();
    assert_eq!(hp::get_all_numbers(&lower), Ok(vec![10, 15, 32]));
    assert_eq!(
        hp::get_all_numbers(&lower.to_lowercase()),
        hp::get_all_numbers(&lower)
    );
}

#[test]
fn tokens_have_values() {
    let tokens: Vec<String> = [" r7 ", "sp", " lr", "pc ", "#12", " #-0b11 ", "#0x10", "#-0", "r+3"]
        .iter()
        .map(|t| t.to_string())
        .collect();
    assert_eq!(
        hp::numbers_from_tokens(&tokens),
        Ok(vec![7, 13, 14, 15, 12, 0xFFFF_FFFD, 16, 0, 3])
    );
    let tokens: Vec<String> = ["r1", "r99", "rx", "#4294967296", "#4294967295", "#", "r"]
        .iter()
        .map(|t| t.to_string())
        .collect();
    assert_eq!(
        hp::numbers_from_tokens(&tokens),
        Err(vec![
            "Register r99 is invalid, only registers r0 to r15 are allowed.".to_string(),
            "Register rx is invalid, only registers r0 to r15 are allowed.".to_string(),
            "Immediate value #4294967296 is out of bounds.".to_string(),
            "# is not a valid immediate value.".to_string(),
            "Register r is invalid, only registers r0 to r15 are allowed.".to_string(),
        ])
    );
    assert_eq!(hp::number_from_token("  #0b101 "), Ok(5));
    assert_eq!(hp::immediate_from("#-0x10", false, true, false), Ok(0xFFFF_FFF0));
    assert_eq!(hp::immediate_from("#0x", false, true, false), Err("Immediate value #0x is out of bounds.".to_string()));
    assert_eq!(hp::immediate_from("#7", true, true, true), Err("Immediate value #7 is out of bounds.".to_string()));
    assert_eq!(hp::numbers_from_tokens(&vec![]), Ok(vec![]));
}

#[test]
fn number_patterns() {
    assert!(hp::is_bin("#0b101"));
    assert!(hp::is_bin("#-0b1"));
    assert!(!hp::is_bin("#0b102"));
    assert!(!hp::is_bin("x#0b1"));
    assert!(hp::is_hex("#0xAf09"));
    assert!(hp::is_hex("#-0x1"));
    assert!(!hp::is_hex("#0xg"));
    assert!(hp::is_dec("#42"));
    assert!(hp::is_dec("#-42"));
    assert!(hp::is_dec("junk#42"));
    assert!(!hp::is_dec("#42x"));
    assert!(!hp::is_dec("42"));
    assert_eq!(hp::register(), r"\s*(r\d+|sp|lr|pc)\s*");
    assert_eq!(hp::i_number(), r"\s*#-?(0b[01]+|0x[A-Fa-f\d]+|\d+)\s*");
    assert_eq!(hp::u_number(), r"#(0b[01]+|0x[A-Fa-f\d]+|\d+)");
    assert_eq!(hp::re_label(), r"\s*[a-zA-Z_]\w*\s*");
    assert_eq!(
        hp::condition_codes(),
        "(eq|ne|cs|hs|cc|lo|mi|pl|vs|vc|hi|ls|ge|lt|gt|le|al)"
    );
}

#[test]
fn operand_shapes() {
    assert!(hp::is_Rt_Rn("ldr r0, [r1]"));
    assert!(hp::is_Rt_Rn("ldr r0,[ sp ]"));
    assert!(!hp::is_Rt_Rn("ldr r0, r1"));
    assert!(hp::is_Rt_Rn_imm_post("ldr r0, [r1], #4"));
    assert!(!hp::is_Rt_Rn_imm_post("ldr r0, [r1, #4]"));
    assert!(hp::is_Rt_Rn_imm_pre("ldr r0, [r1, #4]!"));
    assert!(!hp::is_Rt_Rn_imm_pre("ldr r0, [r1, #4]"));
    assert!(hp::is_Rt_Rn_Rm("str r0, [r1, r2]"));
    assert!(!hp::is_Rt_Rn_Rm("str r0, [r1, #2]"));
    assert!(hp::is_Rt_Rn_Rm_shift("str r0, [r1, r2, lsl #1]"));
    assert!(!hp::is_Rt_Rn_Rm_shift("str r0, [r1, r2, lsr #1]"));
    assert!(hp::is_Rt_equal_label("ldr r0,=message"));
    assert!(!hp::is_Rt_equal_label("ldr r0,=#5"));
    assert!(hp::is_Rt_equal_immed("ldr r0,=#5"));
    assert!(!hp::is_Rt_equal_immed("ldr r0,=message"));
    assert!(hp::is_label("b loop"));
    assert!(hp::is_label("bleq _x1 "));
    assert!(!hp::is_label("b 1x"));
    assert!(!hp::is_label("b r0, r1"));
    assert_eq!(hp::classify("mov r0, #1"), Some(Shape::RdImmed));
    assert_eq!(hp::classify("mov r0, r1"), Some(Shape::RdRm));
    assert_eq!(hp::classify("add r0, r1, #1"), Some(Shape::RdRnImmed));
    assert_eq!(hp::classify("add r0, r1, r2"), Some(Shape::RdRnRm));
    assert_eq!(hp::classify("ldr r0, [r1]"), Some(Shape::RtRn));
    assert_eq!(hp::classify("ldr r0, [r1, #1]"), Some(Shape::RtRnImm));
    assert_eq!(hp::classify("ldr r0, [r1], #1"), Some(Shape::RtRnImmPost));
    assert_eq!(hp::classify("ldr r0, [r1, #1]!"), Some(Shape::RtRnImmPre));
    assert_eq!(hp::classify("ldr r0, [r1, r2]"), Some(Shape::RtRnRm));
    assert_eq!(hp::classify("ldr r0, [r1, r2, lsl #3]"), Some(Shape::RtRnRmShift));
    assert_eq!(hp::classify("ldr r0,=text"), Some(Shape::RtEqualLabel));
    assert_eq!(hp::classify("ldr r0,=#9"), Some(Shape::RtEqualImmed));
    assert_eq!(hp::classify("mov"), None);
}

#[test]
fn bundles_are_filled_from_the_numbers() {
    let line = "the line";
    let refused = Err(one("\"the line\" contains invalid arguments"));
    assert_eq!(
        Operands::from_shape(Some(Shape::RdImmed), &vec![14, 32], line),
        Ok(Operands::Rd_immed { Rd: 14, immed: 32 })
    );
    assert_eq!(Operands::from_shape(Some(Shape::RdImmed), &vec![14], line), refused);
    assert_eq!(Operands::from_shape(Some(Shape::RdImmed), &vec![16, 1], line), refused);
    assert_eq!(Operands::from_shape(None, &vec![1, 2, 3, 4], line), refused);
    assert_eq!(
        Operands::from_shape(Some(Shape::RtRnImm), &vec![1, 2, 0xFFFF_FFFF], line),
        Ok(Operands::Rt_Rn_imm {
            Rt: 1,
            Rn: 2,
            imm: Some(-1)
        })
    );
    assert_eq!(
        Operands::from_shape(Some(Shape::RtRnRmShift), &vec![1, 2, 3, 258], line),
        Ok(Operands::Rt_Rn_Rm {
            Rt: 1,
            Rn: 2,
            Rm: 3,
            shift: Some(2)
        })
    );
    assert_eq!(
        Operands::from_shape(Some(Shape::RtRnRm), &vec![1, 2, 300], line),
        refused
    );
    assert_eq!(
        Operands::from_shape(Some(Shape::RtEqualLabel), &vec![5, 9], line),
        Ok(Operands::Rt_label { Rt: 5, label: 0 })
    );
    assert_eq!(
        Operands::from_shape(Some(Shape::RtEqualImmed), &vec![5, 9], line),
        Ok(Operands::Rt_imm { Rt: 5, label: 9 })
    );
    assert!(has_leading_registers(&vec![1, 15, 16], 2));
    assert!(!has_leading_registers(&vec![1, 15, 16], 3));
    assert!(!has_leading_registers(&vec![1], 2));
    assert_eq!(
        Operands::from_str("mov r1, r16"),
        Err(one(
            "Register r16 is invalid, only registers r0 to r15 are allowed."
        ))
    );
}

#[test]
fn instructions_check_their_operands() {
    let plain = MnemonicExtension::new();
    assert_eq!(
        MOV.get_operands(&plain, "mov pc, #4096"),
        Err(vec![
            "Rd is not allowed to be program counter.".to_string(),
            "Immediate value must be within 12 bits.".to_string(),
        ])
    );
    assert_eq!(
        MOV::check_operands(
            Operands::Rd_Rm {
                Rd: 13,
                Rm: 15,
                shift: None
            },
            "l"
        ),
        Err(vec![
            "Rd is not allowed to be stack pointer.".to_string(),
            "Rm is not allowed to be program counter.".to_string(),
        ])
    );
    assert_eq!(
        ADD.get_operands(&plain, "add sp, pc"),
        Ok(Operands::Rd_Rm {
            Rd: 13,
            Rm: 15,
            shift: None
        })
    );
    assert_eq!(
        ADD::check_operands(Operands::Rt_imm { Rt: 0, label: 0 }, "l"),
        Err(one("\"l\" contains invalid arguments"))
    );
    assert_eq!(
        CMP.get_operands(&plain, "cmp pc, #255"),
        Err(one("Rd is not allowed to be program counter."))
    );
    assert_eq!(
        CMP.get_operands(&plain, "cmp sp, #255"),
        Ok(Operands::Rd_immed { Rd: 13, immed: 255 })
    );
    let placeholder = Operands::label {
        label: armsim::arm7::Label::Index(0),
    };
    assert_eq!(B.get_operands(&plain, "anything"), Ok(placeholder));
    assert_eq!(BL.get_operands(&plain, ""), Ok(placeholder));
    assert_eq!(
        STRB.get_operands(&plain, "strb r0, [r1, r2, lsl #9]"),
        Err(one("Left shift must be between 0 and 3 bits."))
    );
    assert_eq!(
        LDR.get_operands(&plain, "ldr r0, [r1, #8]"),
        Ok(Operands::Rt_Rn_imm {
            Rt: 0,
            Rn: 1,
            imm: Some(8)
        })
    );
    assert_eq!(
        Operands::is_memory_operands("ldr r0, r1"),
        Err(one("\"ldr r0, r1\" contains invalid arguments"))
    );
    assert_eq!(invalid_args("x y"), one("\"x y\" contains invalid arguments"));
}

#[test]
fn constraint_checks_gather_errors() {
    let operands = Operands::Rd_immed { Rd: 0, immed: 0 };
    let mut errors = InstructionCompileErr::new();
    errors.check_imm8(255);
    errors.check_imm12(4095);
    errors.check_sp(15, "Rd");
    errors.check_pc(13, "Rd");
    errors.check_sp_or_pc(14, "Rd");
    errors.invalid_s_extension(false);
    errors.check_mem_left_shift(None);
    errors.check_mem_left_shift(Some(3));
    assert_eq!(errors.result(operands), Ok(operands));
    let mut errors = InstructionCompileErr::new();
    errors.check_imm8(256);
    errors.check_imm12(4096);
    errors.check_sp(13, "Rn");
    errors.check_pc(15, "Rt");
    errors.check_sp_or_pc(13, "Rm");
    errors.check_sp_or_pc(15, "Rm");
    errors.invalid_s_extension(true);
    errors.check_mem_left_shift(Some(4));
    assert_eq!(
        errors.result(operands),
        Err(vec![
            "Immediate value must be within 8 bits.".to_string(),
            "Immediate value must be within 12 bits.".to_string(),
            "Rn is not allowed to be stack pointer.".to_string(),
            "Rt is not allowed to be program counter.".to_string(),
            "Rm is not allowed to be stack pointer.".to_string(),
            "Rm is not allowed to be program counter.".to_string(),
            "S extension is not allowed for this instruction.".to_string(),
            "Left shift must be between 0 and 3 bits.".to_string(),
        ])
    );
    assert_eq!(
        InstructionCompileErr::invalid_label("msg"),
        one("String label \"msg\" is not defined.")
    );
}

#[test]
fn diagnostics_name_file_and_line() {
    let mut errors = CompileErr::new();
    assert!(errors.is_clean());
    errors.push_message("first");
    errors.update_current_file("lib.s".to_string());
    errors.update_line_number(41);
    errors.push_message("second");
    errors.extend(vec!["third".to_string(), "fourth".to_string()]);
    errors.extend(vec![]);
    assert!(!errors.is_clean());
    assert_eq!(
        errors.result(),
        Err(vec![
            "\"main.s\" line 1: first".to_string(),
            "\"lib.s\" line 42: second".to_string(),
            "\"lib.s\" line 42: third".to_string(),
            "\"lib.s\" line 42: fourth".to_string(),
        ])
    );
    assert_eq!(CompileErr::new().result(), Ok(()));
    assert_eq!(CompileErr::new().early_return(), Err(vec![]));
    assert_eq!(CompileErr::message("only".to_string()), one("only"));
}

#[test]
fn configuration() {
    let standard = Config::new(None).unwrap();
    assert_eq!(standard.files(), &vec!["main.s".to_string()]);
    assert_eq!(standard.get_delay(), 0);
    let config = Config::new(Some(Ok((vec!["a.s".to_string(), "b.s".to_string()], 250)))).unwrap();
    assert_eq!(config.get_delay(), 250);
    assert_eq!(config.files().len(), 2);
    match Config::new(Some(Err("expected value at line 1 column 1".to_string()))) {
        Ok(_) => panic!("the manifest is accepted"),
        Err(errors) => assert_eq!(
            errors,
            one("Configuration Error in \"config.json\" expected value at line 1 column 1")
        ),
    }
    assert_eq!(
        config.read_contents("/p/", &vec![Some("one".to_string()), Some("two".to_string())]),
        Ok(vec![
            ("a.s".to_string(), "one".to_string()),
            ("b.s".to_string(), "two".to_string())
        ])
    );
    assert_eq!(
        config.read_contents("/p/", &vec![Some("one".to_string()), None]),
        Err(one("Couldn't find the file \"b.s\" in directory: /p/"))
    );
    assert_eq!(
        config.read_contents("/p/", &vec![]),
        Err(one("Couldn't find the file \"a.s\" in directory: /p/"))
    );
    assert_eq!(
        read_dir_file("dir/", &"x.s".to_string(), Some("text".to_string())),
        Ok("text".to_string())
    );
    assert_eq!(
        read_dir_file("dir/", &"x.s".to_string(), None),
        Err(one("Couldn't find the file \"x.s\" in directory: dir/"))
    );
}

#[test]
fn numbers_are_shown_in_four_formats() {
    assert_eq!(format_register(0xFFFF_FFFF, "signed"), "-1");
    assert_eq!(format_register(0x8000_0000, "signed"), "-2147483648");
    assert_eq!(format_register(0xFFFF_FFFF, "unsigned"), "4294967295");
    assert_eq!(format_register(7, "anything"), "7");
    assert_eq!(
        format_register(5, "binary"),
        "0b00000000000000000000000000000101"
    );
    assert_eq!(format_register(0xAB_CDEF, "hexadecimal"), "0x00abcdef");
    assert_eq!(format_register(0, "hexadecimal"), "0x00000000");
    assert_eq!(format_byte(255, "signed"), "-1");
    assert_eq!(format_byte(128, "signed"), "-128");
    assert_eq!(format_byte(127, "signed"), "127");
    assert_eq!(format_byte(255, "unsigned"), "255");
    assert_eq!(format_byte(5, "binary"), "0b00000101");
    assert_eq!(format_byte(10, "hexadecimal"), "0x0a");

    let mut processor = Processor::new();
    processor.R[0] = 0xFFFF_FFFE;
    processor.N = true;
    processor.memory[1023] = 0x80;
    let cpu = display_cpu(&processor, "signed");
    assert_eq!(cpu.R.len(), 16);
    assert_eq!(cpu.R[0], "-2");
    assert_eq!(cpu.R[13], "1023");
    assert_eq!((cpu.N, cpu.Z, cpu.C, cpu.V), (true, false, false, false));
    let (bytes, sp) = display_memory(&processor, "hexadecimal");
    assert_eq!(bytes.len(), 1024);
    assert_eq!(bytes[0], "0x00");
    assert_eq!(bytes[1023], "0x80");
    assert_eq!(sp, 1023);
}

#[test]
fn numbers_as_text() {
    assert_eq!(decimal_string(0), "0");
    assert_eq!(decimal_string(9), "9");
    assert_eq!(decimal_string(10), "10");
    assert_eq!(decimal_string(u64::MAX), "18446744073709551615");
    assert_eq!(signed_decimal_string(-1), "-1");
    assert_eq!(signed_decimal_string(0), "0");
    assert_eq!(signed_decimal_string(i64::MIN), "-9223372036854775808");
    assert_eq!(fixed_digits_string(0x1F, 16, 4), "001f");
    assert_eq!(fixed_digits_string(0x12345, 16, 2), "45");
    assert_eq!(fixed_digits_string(6, 2, 0), "");
    assert_eq!(parse_u32("0", 10), Some(0));
    assert_eq!(parse_u32("+5", 10), Some(5));
    assert_eq!(parse_u32("0042", 10), Some(42));
    assert_eq!(parse_u32("4294967295", 10), Some(u32::MAX));
    assert_eq!(parse_u32("4294967296", 10), None);
    assert_eq!(parse_u32("99999999999999999999999", 10), None);
    assert_eq!(parse_u32("", 10), None);
    assert_eq!(parse_u32("+", 10), None);
    assert_eq!(parse_u32("-1", 10), None);
    assert_eq!(parse_u32("1_0", 10), None);
    assert_eq!(parse_u32(" 1", 10), None);
    assert_eq!(parse_u32("fF", 16), Some(255));
    assert_eq!(parse_u32("g", 16), None);
    assert_eq!(parse_u32("102", 2), None);
    assert_eq!(parse_u32("101", 2), Some(5));
    assert_eq!(parse_u32("z", 36), Some(35));
    assert_eq!(parse_u32("\u{663}", 10), None);
    for text in ["7", "+7", "12a", "", "+", "ff", "4294967295", "4294967296"] {
        assert_eq!(parse_u32(text, 10), text.parse::<u32>().ok());
        assert_eq!(parse_u32(text, 16), u32::from_str_radix(text, 16).ok());
    }
}

#[test]
fn text_is_split_as_the_standard_library_splits_it() {
    let samples = [
        "",
        "a",
        "\n",
        "a\n",
        "a\r\nb",
        "a\rb\r",
        "\r\n\r\n",
        "one\n\ntwo\n",
        "  lead and trail \t",
        "x\u{2003}y\u{a0}z\u{85}",
        "\u{1680}\u{3000}",
        "tab\tsep\u{b}vt\u{c}ff",
        "\u{200b}zero width",
        "a\n\rb",
    ];
    for sample in samples {
        let lines: Vec<&str> = sample.lines().collect();
        assert_eq!(split_lines(sample), lines);
        let words: Vec<&str> = sample.split_whitespace().collect();
        assert_eq!(split_words(sample), words);
        assert_eq!(trim(sample), sample.trim());
        assert_eq!(chars_of(sample), sample.chars().collect::<Vec<char>>());
    }
    for n in 0..0x3100u32 {
        if let Some(c) = char::from_u32(n) {
            assert_eq!(is_whitespace(c), c.is_whitespace());
        }
    }
    assert!(starts_with("mov r0", "mov"));
    assert!(starts_with("mov", ""));
    assert!(!starts_with("mo", "mov"));
    assert!(ends_with("x:", ":"));
    assert!(!ends_with("x: ", ":"));
    assert!(!ends_with("", ":"));
    assert!(str_eq("", ""));
    assert!(str_eq("é", "é"));
    assert!(!str_eq("a", "A"));
    assert!(!str_eq("a", "ab"));
    assert_eq!(head_of("héllo", 2), "hé");
    assert_eq!(head_of("hi", 5), "hi");
    assert_eq!(tail_of("héllo", 2), "llo");
    assert_eq!(tail_of("hi", 3), "");
}
