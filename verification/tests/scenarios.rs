use armsim::arm7::{DebugStatus, ITStatus, InputStatus, Label, Operands, Processor};
use armsim::backend_api::compile;
use armsim::program::Program;

fn assemble(
    source: &str,
    breakpoints: Vec<usize>,
) -> (Processor, Program, Result<(), Vec<String>>) {
    let mut processor = Processor::new();
    let mut program = Program::new();
    let mut kill_switch = true;
    let sources = vec![("main.s".to_string(), source.to_string())];
    let breakpoint_map = vec![("main.s".to_string(), breakpoints)];
    let result = compile(
        &mut processor,
        &mut program,
        &mut kill_switch,
        0,
        &sources,
        &breakpoint_map,
    );
    assert!(!kill_switch);
    (processor, program, result)
}

fn run_to_end(program: &Program, processor: &mut Processor) -> String {
    let mut kill_switch = false;
    let (out, input, status) = program
        .run(processor, &mut kill_switch, None, 10_000)
        .expect("the program fails at run time");
    assert_eq!(input, InputStatus::NoInput);
    assert_eq!(status, DebugStatus::END);
    out
}

#[test]
fn immediate_move() {
    let (mut processor, program, result) = assemble("mov r0, #0x20", vec![]);
    assert_eq!(result, Ok(()));
    assert_eq!(program.len(), 1);
    let out = run_to_end(&program, &mut processor);
    assert_eq!(out, "");
    assert_eq!(processor.R[0], 32);
    assert_eq!(processor.R[15], 1);
    assert_eq!(
        (processor.N, processor.Z, processor.C, processor.V),
        (false, false, false, false)
    );
}

#[test]
fn mov_rejects_wide_immediate() {
    let (_, program, result) = assemble("mov r0, #0xFFFFFFFF", vec![]);
    assert_eq!(
        result,
        Err(vec![
            "\"main.s\" line 1: Immediate value must be within 12 bits.".to_string()
        ])
    );
    assert_eq!(program.len(), 0);
}

#[test]
fn flag_setting_add_overflow() {
    let (mut processor, program, result) =
        assemble("ldr r0,=#0xFFFFFFFF\nadds r1, r0, #1", vec![]);
    assert_eq!(result, Ok(()));
    run_to_end(&program, &mut processor);
    assert_eq!(processor.R[0], 0xFFFF_FFFF);
    assert_eq!(processor.R[1], 0);
    assert_eq!(processor.Z, true);
    assert_eq!(processor.C, true);
    assert_eq!(processor.N, false);
    assert_eq!(processor.V, false);
}

#[test]
fn signed_add_overflow() {
    let (mut processor, program, result) =
        assemble("ldr r0,=#0x7FFFFFFF\nadds r1, r0, #1", vec![]);
    assert_eq!(result, Ok(()));
    run_to_end(&program, &mut processor);
    assert_eq!(processor.R[1], 0x8000_0000);
    assert_eq!(processor.N, true);
    assert_eq!(processor.Z, false);
    assert_eq!(processor.C, false);
    assert_eq!(processor.V, true);
}

#[test]
fn it_block_validation() {
    let source = "cmp r0, #0\nitee eq\nmoveq r1, #1\nmovne r1, #2\nmovne r1, #3";
    let (mut processor, program, result) = assemble(source, vec![]);
    assert_eq!(result, Ok(()));
    assert_eq!(program.len(), 4);
    assert_eq!(program.line(0).extension.it_status, ITStatus::OUT);
    assert_eq!(program.line(1).extension.it_status, ITStatus::IN);
    assert_eq!(program.line(2).extension.it_status, ITStatus::IN);
    assert_eq!(program.line(3).extension.it_status, ITStatus::LAST);
    assert_eq!(program.line(3).line_number, 5);
    run_to_end(&program, &mut processor);
    assert_eq!(processor.R[1], 1);
    assert_eq!(processor.R[15], 4);
}

#[test]
fn predefined_subroutine() {
    let (mut processor, program, result) = assemble("mov r0, #65\nbl printchar", vec![]);
    assert_eq!(result, Ok(()));
    assert_eq!(
        program.line(1).operands,
        Operands::label {
            label: Label::PRINTCHAR
        }
    );
    let out = run_to_end(&program, &mut processor);
    assert_eq!(out, "A");
    assert_eq!(processor.R[14], 2);
    assert_eq!(processor.R[15], 2);
}

#[test]
fn debug_single_step_with_breakpoint() {
    let (mut processor, program, result) = assemble("mov r0, #1\nmov r0, #2", vec![2]);
    assert_eq!(result, Ok(()));
    let mut kill_switch = false;
    let first = program
        .debug_run(&mut processor, &mut kill_switch, None)
        .unwrap();
    assert_eq!(
        first,
        (
            "main.s".to_string(),
            1,
            DebugStatus::CONTINUE,
            InputStatus::NoInput,
            None
        )
    );
    assert_eq!(processor.R[0], 1);
    let second = program
        .debug_run(&mut processor, &mut kill_switch, None)
        .unwrap();
    assert_eq!(second.2, DebugStatus::BREAKPOINT);
    assert_eq!(second.1, 2);
    assert_eq!(processor.R[0], 2);
    let third = program
        .debug_run(&mut processor, &mut kill_switch, None)
        .unwrap();
    assert_eq!(
        third,
        (
            String::new(),
            0,
            DebugStatus::END,
            InputStatus::NoInput,
            None
        )
    );
}
