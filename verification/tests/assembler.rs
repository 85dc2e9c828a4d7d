use std::collections::VecDeque;

use armsim::arm7::{ConditionCode, ITStatus, Label, MnemonicExtension, Operands, Processor};
use armsim::backend_api::{compile, is_breakpoint, is_if_then_block};
use armsim::error::CompileErr;
use armsim::labels::{preprocess_line, Labels};
use armsim::program::Program;

fn assemble_files(
    files: Vec<(&str, &str)>,
    breakpoints: Vec<(&str, Vec<usize>)>,
) -> (Program, Result<(), Vec<String>>) {
    let mut processor = Processor::new();
    processor.R[3] = 77;
    let mut program = Program::new();
    let mut kill_switch = true;
    let sources: Vec<(String, String)> = files
        .into_iter()
        .map(|(n, c)| (n.to_string(), c.to_string()))
        .collect();
    let breakpoint_map: Vec<(String, Vec<usize>)> = breakpoints
        .into_iter()
        .map(|(n, l)| (n.to_string(), l))
        .collect();
    let result = compile(
        &mut processor,
        &mut program,
        &mut kill_switch,
        25,
        &sources,
        &breakpoint_map,
    );
    assert!(!kill_switch);
    assert_eq!(processor.R[3], 0);
    assert_eq!(processor.R[13], 1023);
    assert_eq!(program.delay(), 25);
    assert!(program.is_well_formed());
    (program, result)
}

fn assemble(source: &str) -> (Program, Result<(), Vec<String>>) {
    assemble_files(vec![("main.s", source)], vec![])
}

fn errors_of(source: &str) -> Vec<String> {
    match assemble(source).1 {
        Err(errors) => errors,
        Ok(()) => panic!("the source compiles"),
    }
}

fn one(message: &str) -> Vec<String> {
    vec![message.to_string()]
}

#[test]
fn compile_reads_upper_case() {
    let (program, result) = assemble("  MOV R0, #1   // comment");
    assert_eq!(result, Ok(()));
    assert_eq!(program.len(), 1);
    let line = program.line(0);
    assert_eq!(line.mnemonic, "mov");
    assert_eq!(line.file_name, "main.s");
    assert_eq!(line.line_number, 1);
    assert_eq!(line.extension, MnemonicExtension::new());
    assert_eq!(line.is_breakpoint, false);
    assert_eq!(line.operands, Operands::Rd_immed { Rd: 0, immed: 1 });
}

#[test]
fn compiled_programs_are_resolved() {
    let source = "start:\nmov r0, #1\nb end\nmsg:\n.string \"hi\"\nldr r1,=msg\nbl start\nend:\n";
    let (program, result) = assemble(source);
    assert_eq!(result, Ok(()));
    assert_eq!(program.len(), 4);
    assert_eq!(
        program.line(1).operands,
        Operands::label {
            label: Label::Index(4)
        }
    );
    assert_eq!(program.line(2).operands, Operands::Rt_label { Rt: 1, label: 0 });
    assert_eq!(
        program.line(3).operands,
        Operands::label {
            label: Label::Index(0)
        }
    );
    for i in 0..program.len() {
        let line = program.line(i);
        assert!(line.operands.has_valid_registers());
        match line.operands {
            Operands::label {
                label: Label::Index(target),
            } => assert!(target <= program.len()),
            Operands::Rt_label { label, .. } => assert!(label < program.string_messages().len()),
            _ => {}
        }
    }
}

#[test]
fn labels_are_case_sensitive_and_defined_once_per_file() {
    assert_eq!(
        errors_of("Loop:\nb loop"),
        one("\"main.s\" line 2: Label \"loop\" may not exist.")
    );
    let (program, result) = assemble("Loop:\nmov r0, #1\nB Loop");
    assert_eq!(result, Ok(()));
    assert_eq!(
        program.line(1).operands,
        Operands::label {
            label: Label::Index(0)
        }
    );
}

#[test]
fn predefined_labels_resolve() {
    let (program, result) =
        assemble("bl cr\nbl value\nbl printchar\nbl printf\nbl getchar\nb getnumber");
    assert_eq!(result, Ok(()));
    let expected = [
        Label::CR,
        Label::VALUE,
        Label::PRINTCHAR,
        Label::PRINTF,
        Label::GetChar,
        Label::GetNumber,
    ];
    for (i, label) in expected.iter().enumerate() {
        assert_eq!(program.line(i).operands, Operands::label { label: *label });
    }
    assert_eq!(program.line(5).mnemonic, "b");
}

#[test]
fn invalid_instruction_is_reported() {
    assert_eq!(
        errors_of("foo r0"),
        one("\"main.s\" line 1: Invalid instruction.")
    );
    assert_eq!(
        errors_of("mov r0, #1\nitem r0"),
        one("\"main.s\" line 2: Invalid instruction.")
    );
}

#[test]
fn errors_of_all_lines_are_gathered() {
    let errors = errors_of("foo\nmov r0, #5000\n\nmov sp, r1\nmov r1, r2, r3, r4");
    assert_eq!(
        errors,
        vec![
            "\"main.s\" line 1: Invalid instruction.".to_string(),
            "\"main.s\" line 2: Immediate value must be within 12 bits.".to_string(),
            "\"main.s\" line 4: Rd is not allowed to be stack pointer.".to_string(),
            "\"main.s\" line 5: \"mov r1, r2, r3, r4\" contains invalid arguments".to_string(),
        ]
    );
}

#[test]
fn register_and_immediate_errors() {
    assert_eq!(
        errors_of("mov r16, #1"),
        one("\"main.s\" line 1: Register r16 is invalid, only registers r0 to r15 are allowed.")
    );
    assert_eq!(
        errors_of("mov r0, #0x1FFFFFFFF"),
        one("\"main.s\" line 1: Immediate value #0x1ffffffff is out of bounds.")
    );
    assert_eq!(
        errors_of("mov r0, #ff"),
        one("\"main.s\" line 1: #ff is not a valid immediate value.")
    );
}

#[test]
fn cmp_constraints() {
    assert_eq!(
        errors_of("cmps r0, #300"),
        vec![
            "\"main.s\" line 1: S extension is not allowed for this instruction.".to_string(),
            "\"main.s\" line 1: Immediate value must be within 8 bits.".to_string(),
        ]
    );
    let (program, result) = assemble("cmp.w r0, #300");
    assert_eq!(result, Ok(()));
    assert_eq!(program.line(0).extension.w, true);
    assert_eq!(
        errors_of("cmp r1, sp"),
        one("\"main.s\" line 1: Rm is not allowed to be stack pointer.")
    );
    assert_eq!(
        errors_of("cmp r1, r2, r3"),
        one("\"main.s\" line 1: \"cmp r1, r2, r3\" contains invalid arguments")
    );
}

#[test]
fn add_accepts_its_four_shapes() {
    let (program, result) = assemble("add r0, #1\nadd r0, r1\nadd r0, r1, #2\nadds r0, r1, r2");
    assert_eq!(result, Ok(()));
    assert_eq!(program.line(0).operands, Operands::Rd_immed { Rd: 0, immed: 1 });
    assert_eq!(
        program.line(1).operands,
        Operands::Rd_Rm {
            Rd: 0,
            Rm: 1,
            shift: None
        }
    );
    assert_eq!(
        program.line(2).operands,
        Operands::Rd_Rn_immed {
            Rd: 0,
            Rn: 1,
            immed: 2
        }
    );
    assert_eq!(
        program.line(3).operands,
        Operands::Rd_Rn_Rm {
            Rd: 0,
            Rn: 1,
            Rm: 2,
            shift: None
        }
    );
    assert_eq!(program.line(3).extension.s, true);
    assert_eq!(
        errors_of("add r0, r1, #4096"),
        one("\"main.s\" line 1: Immediate value must be within 12 bits.")
    );
}

#[test]
fn memory_shapes() {
    let source = "ldr r0, [r1]\nstr r0, [r1, #-4]\nldrb r0, [r1], #4\nstrh r0, [r1, #4]!\nldrh r0, [r1, r2]\nldr r0, [r1, r2, lsl #2]\nldr r3,=#0x12345678";
    let (program, result) = assemble(source);
    assert_eq!(result, Ok(()));
    assert_eq!(
        program.line(0).operands,
        Operands::Rt_Rn_imm {
            Rt: 0,
            Rn: 1,
            imm: None
        }
    );
    assert_eq!(
        program.line(1).operands,
        Operands::Rt_Rn_imm {
            Rt: 0,
            Rn: 1,
            imm: Some(-4)
        }
    );
    assert_eq!(
        program.line(2).operands,
        Operands::Rt_Rn_imm_post {
            Rt: 0,
            Rn: 1,
            imm: 4
        }
    );
    assert_eq!(
        program.line(3).operands,
        Operands::Rt_Rn_imm_pre {
            Rt: 0,
            Rn: 1,
            imm: 4
        }
    );
    assert_eq!(
        program.line(4).operands,
        Operands::Rt_Rn_Rm {
            Rt: 0,
            Rn: 1,
            Rm: 2,
            shift: None
        }
    );
    assert_eq!(
        program.line(5).operands,
        Operands::Rt_Rn_Rm {
            Rt: 0,
            Rn: 1,
            Rm: 2,
            shift: Some(2)
        }
    );
    assert_eq!(
        program.line(6).operands,
        Operands::Rt_imm {
            Rt: 3,
            label: 0x1234_5678
        }
    );
    assert_eq!(
        errors_of("ldr r0, [r1, r2, lsl #4]"),
        one("\"main.s\" line 1: Left shift must be between 0 and 3 bits.")
    );
    assert_eq!(
        errors_of("str r0, r1"),
        one("\"main.s\" line 1: \"str r0, r1\" contains invalid arguments")
    );
    assert_eq!(
        errors_of("ldr r0,=nothing"),
        one("\"main.s\" line 1: String label \"nothing\" is not defined.")
    );
}

#[test]
fn branch_errors() {
    assert_eq!(
        errors_of("x:\nbs x"),
        one("\"main.s\" line 2: A branch instruction cannot have the S flag set.")
    );
    assert_eq!(
        errors_of("b r0, r1"),
        one("\"main.s\" line 1: Invalid branch instruction.")
    );
    assert_eq!(
        errors_of("b nowhere"),
        one("\"main.s\" line 1: Label \"nowhere\" may not exist.")
    );
}

#[test]
fn it_statement_errors() {
    assert_eq!(
        errors_of("it eq\nit ne\nfoo"),
        one("\"main.s\" line 2: IT statement cannot be inside another IT block.")
    );
    assert_eq!(
        errors_of("foo\nit xx"),
        vec![
            "\"main.s\" line 1: Invalid instruction.".to_string(),
            "\"main.s\" line 2: xx is not a condition code".to_string(),
        ]
    );
    assert_eq!(
        errors_of("ite eq\nmoveq r0, #1"),
        one("\"main.s\" line 2: IT block does not have all conditions covered.")
    );
    assert_eq!(
        errors_of("it eq\nmov r0, #1"),
        one("\"main.s\" line 2: Instruction inside an IT block must have a condition code.")
    );
    assert_eq!(
        errors_of("it eq\nmovgt r0, #1"),
        one("\"main.s\" line 2: The condition code must be the same or opposite of the IT block's condition code.")
    );
    assert_eq!(
        errors_of("ittttt eq"),
        one("\"main.s\" line 1: Invalid instruction.")
    );
}

#[test]
fn it_statement_fills_the_queue() {
    let mut queue: VecDeque<ConditionCode> = VecDeque::new();
    let errors = CompileErr::new();
    let errors = match errors.handle_it_instruction(&mut queue, "itte ge".to_string()) {
        Ok(errors) => errors,
        Err(_) => panic!("the statement is refused"),
    };
    assert_eq!(
        queue,
        VecDeque::from(vec![
            ConditionCode::GE,
            ConditionCode::GE,
            ConditionCode::LT
        ])
    );
    let mut errors = errors;
    assert_eq!(
        errors.get_it_status(&mut queue, Some(ConditionCode::GE)),
        ITStatus::IN
    );
    assert_eq!(
        errors.get_it_status(&mut queue, Some(ConditionCode::LT)),
        ITStatus::IN
    );
    assert_eq!(
        errors.get_it_status(&mut queue, Some(ConditionCode::LT)),
        ITStatus::LAST
    );
    assert_eq!(errors.get_it_status(&mut queue, None), ITStatus::OUT);
    assert_eq!(errors.result(), Ok(()));

    let mut queue: VecDeque<ConditionCode> = VecDeque::new();
    match CompileErr::new().handle_it_instruction(&mut queue, "ittttt eq".to_string()) {
        Ok(_) => panic!("the statement is accepted"),
        Err(errors) => assert_eq!(
            errors,
            one("\"main.s\" line 1: An IT statement can only have conditions for 4 instructions.")
        ),
    }
    assert!(queue.is_empty());
    match CompileErr::new().handle_it_instruction(&mut queue, "it".to_string()) {
        Ok(_) => panic!("the statement is accepted"),
        Err(errors) => assert_eq!(
            errors,
            one("\"main.s\" line 1: IT statement must have a base condition.")
        ),
    }
}

#[test]
fn it_pattern_takes_up_to_four_conditions() {
    assert!(is_if_then_block("it eq"));
    assert!(is_if_then_block("ittt ne"));
    assert!(is_if_then_block("itee   lo"));
    assert!(is_if_then_block("itttt eq"));
    assert!(!is_if_then_block("ittttt eq"));
    assert!(!is_if_then_block("it"));
    assert!(!is_if_then_block("itx eq"));
    assert!(!is_if_then_block("mov r0, r1"));
}

#[test]
fn label_errors() {
    assert_eq!(errors_of("1abc:"), one("\"main.s\" line 1: Invalid label."));
    assert_eq!(
        errors_of(".string \"lost\""),
        one("\"main.s\" line 1: .string variable should have a label beforehand.")
    );
    assert_eq!(
        errors_of("m:\n.string lost"),
        one("\"main.s\" line 2: Invalid syntax.")
    );
    assert_eq!(
        errors_of(".global nothere"),
        one("Global label \"nothere\" is not defined in the file \"main.s\".")
    );
}

#[test]
fn global_labels_cross_files() {
    let (program, result) = assemble_files(
        vec![
            ("a.s", ".global shared\nmov r0, #1\nshared:\nmov r0, #2\nlocal:\n"),
            ("b.s", "b shared\nafter:\nb after"),
        ],
        vec![("b.s", vec![3]), ("a.s", vec![2])],
    );
    assert_eq!(result, Ok(()));
    assert_eq!(program.len(), 4);
    assert_eq!(
        program.line(2).operands,
        Operands::label {
            label: Label::Index(1)
        }
    );
    assert_eq!(
        program.line(3).operands,
        Operands::label {
            label: Label::Index(3)
        }
    );
    assert_eq!(program.line(2).file_name, "b.s");
    assert_eq!(program.line(3).line_number, 3);
    assert_eq!(program.line(0).is_breakpoint, true);
    assert_eq!(program.line(1).is_breakpoint, false);
    assert_eq!(program.line(2).is_breakpoint, false);
    assert_eq!(program.line(3).is_breakpoint, true);

    let (_, result) = assemble_files(
        vec![("a.s", "local:\nmov r0, #1"), ("b.s", "b local")],
        vec![],
    );
    assert_eq!(
        result,
        Err(one("\"b.s\" line 1: Label \"local\" may not exist."))
    );

    let (program, result) = assemble_files(
        vec![
            ("a.s", ".global x\nx:\nmov r0, #1"),
            ("b.s", ".global x\nx:\nmov r0, #2"),
        ],
        vec![],
    );
    assert_eq!(
        result,
        Err(one(
            "Global label \"x\" was already defined, attempting to overwrite global label in file \"b.s\"."
        ))
    );
    assert_eq!(program.len(), 0);
}

#[test]
fn first_pass_of_the_label_table() {
    let sources = vec![(
        "main.s".to_string(),
        ".global end\nmov r0, #1\nend:\n".to_string(),
    )];
    let labels = match Labels::get_global_labels(&sources) {
        Ok(labels) => labels,
        Err(_) => panic!("the first pass fails"),
    };
    assert_eq!(labels.get("end"), Ok(Label::Index(1)));
    assert_eq!(labels.get("printf"), Ok(Label::PRINTF));
    assert_eq!(
        labels.get("other"),
        Err(one("Label \"other\" may not exist."))
    );

    let mut labels = Labels::new();
    let mut pc = 5;
    let mut errors = CompileErr::new();
    let content = "a:\nmov r0, #1\nIT eq\n.data\n\nb:\n.string \"one\" // first\nc::\nadd r0, r1\n"
        .to_string();
    let (strings, string_labels) = labels.get_local_labels(&content, &mut pc, &mut errors);
    assert_eq!(pc, 7);
    assert_eq!(strings, vec!["one".to_string()]);
    assert_eq!(string_labels, vec![("b".to_string(), 0)]);
    assert_eq!(labels.get("a"), Ok(Label::Index(5)));
    assert_eq!(labels.get("b"), Ok(Label::Index(6)));
    assert_eq!(
        errors.result(),
        Err(one("\"main.s\" line 8: Invalid label."))
    );
}

#[test]
fn comments_and_white_space_are_removed() {
    assert_eq!(preprocess_line("  mov r0, r1  // move"), "mov r0, r1");
    assert_eq!(preprocess_line("// only a comment"), "");
    assert_eq!(preprocess_line("\t\u{2003}x:\u{a0}\r"), "x:");
    assert_eq!(preprocess_line("a / b"), "a / b");
    assert_eq!(preprocess_line(""), "");
}

#[test]
fn breakpoints_by_file_and_line() {
    let map = vec![
        ("a.s".to_string(), vec![1, 5]),
        ("b.s".to_string(), vec![]),
        ("a.s".to_string(), vec![9]),
    ];
    assert!(is_breakpoint(&map, "a.s", 5));
    assert!(is_breakpoint(&map, "a.s", 9));
    assert!(!is_breakpoint(&map, "a.s", 2));
    assert!(!is_breakpoint(&map, "b.s", 1));
    assert!(!is_breakpoint(&map, "c.s", 1));
}

#[test]
fn mnemonic_extensions_in_either_order() {
    let program = Program::new();
    let expected = Some((
        "mov".to_string(),
        MnemonicExtension {
            cc: Some(ConditionCode::EQ),
            s: true,
            w: false,
            it_status: ITStatus::OUT,
        },
    ));
    assert_eq!(program.find_mnemonic(&"movseq r0, r1".to_string()), expected);
    assert_eq!(program.find_mnemonic(&"moveqs r0, r1".to_string()), expected);
    assert_eq!(
        program.find_mnemonic(&"ble end".to_string()),
        Some((
            "b".to_string(),
            MnemonicExtension {
                cc: Some(ConditionCode::LE),
                s: false,
                w: false,
                it_status: ITStatus::OUT,
            }
        ))
    );
    assert_eq!(
        program.find_mnemonic(&"bl end".to_string()),
        Some(("bl".to_string(), MnemonicExtension::new()))
    );
    assert_eq!(
        program.find_mnemonic(&"  ldrblo.w r0, [r1]".to_string()),
        Some((
            "ldrb".to_string(),
            MnemonicExtension {
                cc: Some(ConditionCode::CC),
                s: false,
                w: true,
                it_status: ITStatus::OUT,
            }
        ))
    );
    assert_eq!(program.find_mnemonic(&"".to_string()), None);
    assert_eq!(program.find_mnemonic(&"s".to_string()), None);
    assert_eq!(program.find_mnemonic(&"movseqs r0".to_string()), None);
}
