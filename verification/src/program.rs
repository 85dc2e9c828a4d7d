//! The compiled program and the engine that runs it against the processor.
use vstd::prelude::*;
use crate::arm7::{
    ConditionCode, DebugStatus, InputStatus, Label, Machine, MnemonicExtension, Operands,
    Processor,
};
use crate::bits::{from_signed, word_index, wrap32, wrapping_sum};
use crate::error::{locate, located};
use crate::instructions::{
    execute_instruction, is_instruction, is_instruction_name, outcome_of,
};
use crate::text::{str_eq, texts};
use crate::utils::{run_branch_instruction, subroutine};

verus! {

/// A compiled line as contracts speak of it.
pub struct LineView {
    pub mnemonic: Seq<char>,
    pub file_name: Seq<char>,
    pub line_number: nat,
    pub extension: MnemonicExtension,
    pub is_breakpoint: bool,
    pub operands: Operands,
}

impl LineView {
    /// The line names an instruction, and its operands name registers that
    /// exist.
    pub open spec fn wf(self) -> bool {
        is_instruction_name(self.mnemonic) && self.operands.registers_valid()
    }
}

/// A compiled instruction line. The file name and the line number serve
/// error messages only.
#[derive(Debug, Clone, PartialEq)]
pub struct Line {
    pub mnemonic: String,
    pub file_name: String,
    pub line_number: usize,
    pub extension: MnemonicExtension,
    pub is_breakpoint: bool,
    pub operands: Operands,
}

impl View for Line {
    type V = LineView;

    open spec fn view(&self) -> LineView {
        LineView {
            mnemonic: self.mnemonic@,
            file_name: self.file_name@,
            line_number: self.line_number as nat,
            extension: self.extension,
            is_breakpoint: self.is_breakpoint,
            operands: self.operands,
        }
    }
}

impl Line {
    pub fn new(
        mnemonic: String,
        file_name: String,
        line_number: usize,
        extension: MnemonicExtension,
        is_breakpoint: bool,
        operands: Operands,
    ) -> (r: Self)
        ensures
            r@ == (LineView {
                mnemonic: mnemonic@,
                file_name: file_name@,
                line_number: line_number as nat,
                extension,
                is_breakpoint,
                operands,
            }),
    {
        Line { mnemonic, file_name, line_number, extension, is_breakpoint, operands }
    }
}

/// The view of each line of a list.
pub open spec fn line_views(lines: Seq<Line>) -> Seq<LineView> {
    Seq::new(lines.len(), |i: int| lines[i]@)
}

/// A program as contracts speak of it: the compiled lines, the delay between
/// two instructions of a debug run in milliseconds, and the string literals.
pub struct ProgramView {
    pub lines: Seq<LineView>,
    pub delay: u16,
    pub strings: Seq<Seq<char>>,
}

impl ProgramView {
    pub open spec fn empty(delay: u16) -> ProgramView {
        ProgramView { lines: Seq::empty(), delay, strings: Seq::empty() }
    }

    /// Every line names an instruction and registers that exist.
    pub open spec fn wf(self) -> bool {
        forall|i: int| 0 <= i < self.lines.len() ==> (#[trigger] self.lines[i]).wf()
    }

    /// Every branch goes to a predefined subroutine or to a position of the
    /// program that is at most `limit`, and every string that a line loads
    /// is in the pool.
    pub open spec fn targets_within(self, limit: nat) -> bool {
        forall|i: int|
            0 <= i < self.lines.len() ==> operands_within(
                (#[trigger] self.lines[i]).operands,
                limit,
                self.strings.len(),
            )
    }

    /// The program is resolved: its lines are well formed, every branch
    /// target is a predefined subroutine or a position from the first line
    /// to the end of the program, and every string index is in the pool.
    pub open spec fn resolved(self) -> bool {
        self.wf() && self.targets_within(self.lines.len())
    }
}

/// Whether a label operand points at most at `limit`, and a string operand
/// into a pool of `strings` literals.
pub open spec fn operands_within(operands: Operands, limit: nat, strings: nat) -> bool {
    match operands {
        Operands::label { label } => label matches Label::Index(i) ==> i <= limit,
        Operands::Rt_label { label, .. } => label < strings,
        _ => true,
    }
}

/// What one step of the engine leads to.
pub enum Stepped {
    /// The program counter is past the last line.
    Ended,
    /// The line was executed, or skipped because its condition failed.
    Advanced { machine: Machine, out: Seq<char> },
    /// The line asks for input.
    Waiting { machine: Machine, out: Seq<char>, input: InputStatus },
    /// The line failed at run time.
    Failed { machine: Machine, error: Seq<char> },
}

/// Whether a mnemonic is one of the two branches.
pub open spec fn is_branch(mnemonic: Seq<char>) -> bool {
    mnemonic == "b"@ || mnemonic == "bl"@
}

/// One step: fetch the line at the program counter, advance the counter,
/// skip the line if its condition fails, run the predefined subroutine if
/// the line branches to one, and execute the instruction.
pub open spec fn step(p: ProgramView, m: Machine, out: Seq<char>) -> Stepped {
    let pc = m.R[15] as int;
    if pc >= p.lines.len() {
        Stepped::Ended
    } else {
        let line = p.lines[pc];
        let fetched = m.with_register(15, wrap32(pc + 1));
        if line.extension.cc matches Some(cc) && !cc.holds(m.N, m.Z, m.C, m.V) {
            Stepped::Advanced { machine: fetched, out }
        } else {
            let called = if is_branch(line.mnemonic) {
                subroutine(out, m.R[0], line.operands, line.file_name, line.line_number, p.strings)
            } else {
                Ok((out, None))
            };
            match called {
                Err(e) => Stepped::Failed { machine: fetched, error: e },
                Ok((written, Some(input))) => Stepped::Waiting {
                    machine: fetched,
                    out: written,
                    input,
                },
                Ok((written, None)) => {
                    let outcome = outcome_of(
                        line.mnemonic,
                        line.extension.s,
                        line.operands,
                        fetched,
                    );
                    match outcome.error {
                        None => Stepped::Advanced { machine: outcome.machine, out: written },
                        Some(e) => Stepped::Failed {
                            machine: outcome.machine,
                            error: located(line.file_name, line.line_number, e),
                        },
                    }
                },
            }
        }
    }
}

/// What a run returns: the output, the input asked for, and whether the
/// program has ended; or the run-time error.
pub type RunResult = Result<(Seq<char>, InputStatus, DebugStatus), Seq<char>>;

/// A run of at most `fuel` steps from a machine and the output so far: the
/// machine at the end and what is returned. The run stops when the program
/// ends, asks for input or fails; when the steps are used up it reports
/// that the program is still running.
pub open spec fn run_from(p: ProgramView, m: Machine, out: Seq<char>, fuel: nat) -> (
    Machine,
    RunResult,
)
    decreases fuel,
{
    if fuel == 0 {
        (m, Ok((out, InputStatus::NoInput, DebugStatus::RUNNING)))
    } else {
        match step(p, m, out) {
            Stepped::Ended => (m, Ok((out, InputStatus::NoInput, DebugStatus::END))),
            Stepped::Advanced { machine, out: written } => run_from(
                p,
                machine,
                written,
                (fuel - 1) as nat,
            ),
            Stepped::Waiting { machine, out: written, input } => (
                machine,
                Ok((written, input, DebugStatus::RUNNING)),
            ),
            Stepped::Failed { machine, error } => (machine, Err(error)),
        }
    }
}

/// The machine with the input of the user, if there is one, in `r0`.
pub open spec fn with_input(m: Machine, std_input: Option<i32>) -> Machine {
    match std_input {
        Some(i) => m.with_register(0, wrap32(i as int)),
        None => m,
    }
}

/// What a step of the engine reports.
#[derive(Debug, Clone, Copy, PartialEq, Eq, Structural)]
pub enum StepStatus {
    Ended,
    Advanced,
    Waiting(InputStatus),
}

/// The compiled program: the lines, the delay of a debug run, and the
/// string literals. It is filled at compile time and only read at run time.
pub struct Program {
    lines: Vec<Line>,
    delay: u16,
    string_messages: Vec<String>,
}

impl View for Program {
    type V = ProgramView;

    closed spec fn view(&self) -> ProgramView {
        ProgramView {
            lines: line_views(self.lines@),
            delay: self.delay,
            strings: texts(self.string_messages@),
        }
    }
}

impl Program {
    pub fn new() -> (r: Self)
        ensures
            r@ == ProgramView::empty(0),
            r@.wf(),
    {
        let r = Program { lines: Vec::new(), delay: 0, string_messages: Vec::new() };
        assert(r@.lines =~= Seq::<LineView>::empty());
        assert(r@.strings =~= Seq::<Seq<char>>::empty());
        r
    }

    /// Empties the program and sets the delay.
    pub fn reset(&mut self, delay: u16)
        ensures
            final(self)@ == ProgramView::empty(delay),
            final(self)@.wf(),
    {
        self.lines = Vec::new();
        self.delay = delay;
        self.string_messages = Vec::new();
        assert(self@.lines =~= Seq::<LineView>::empty());
        assert(self@.strings =~= Seq::<Seq<char>>::empty());
    }

    /// The number of compiled lines.
    pub fn len(&self) -> (n: usize)
        ensures
            n == self@.lines.len(),
    {
        self.lines.len()
    }

    /// The compiled line at a position.
    pub fn line(&self, i: usize) -> (r: &Line)
        requires
            i < self@.lines.len(),
        ensures
            r@ == self@.lines[i as int],
    {
        &self.lines[i]
    }

    /// Whether every line names an instruction and registers that exist.
    /// Every program that this library builds is so.
    pub fn is_well_formed(&self) -> (r: bool)
        ensures
            r == self@.wf(),
    {
        let mut i: usize = 0;
        while i < self.lines.len()
            invariant
                i <= self.lines@.len(),
                forall|k: int| 0 <= k < i ==> (#[trigger] self@.lines[k]).wf(),
            decreases self.lines@.len() - i,
        {
            let line = &self.lines[i];
            assert(line@ == self@.lines[i as int]);
            if !is_instruction(line.mnemonic.as_str()) || !line.operands.has_valid_registers() {
                return false;
            }
            i += 1;
        }
        true
    }

    /// The delay between two instructions of a debug run, in milliseconds.
    pub fn delay(&self) -> (d: u16)
        ensures
            d == self@.delay,
    {
        self.delay
    }

    /// The string literals.
    pub fn string_messages(&self) -> (r: &Vec<String>)
        ensures
            texts(r@) == self@.strings,
    {
        &self.string_messages
    }

    /// The number of string literals.
    pub fn pool_size(&self) -> (n: usize)
        ensures
            n == self@.strings.len(),
    {
        self.string_messages.len()
    }

    /// Appends string literals to the pool.
    pub fn add_strings(&mut self, strings: Vec<String>)
        ensures
            final(self)@ == (ProgramView {
                strings: old(self)@.strings + texts(strings@),
                ..old(self)@
            }),
    {
        let mut strings = strings;
        let ghost added = texts(strings@);
        let ghost before = self@;
        self.string_messages.append(&mut strings);
        assert(texts(self.string_messages@) =~= before.strings + added);
    }

    /// Appends a compiled line.
    pub fn push_line(
        &mut self,
        mnemonic: String,
        file_name: &String,
        line_number: usize,
        extension: MnemonicExtension,
        is_breakpoint: bool,
        operands: Operands,
    )
        requires
            is_instruction_name(mnemonic@),
            operands.registers_valid(),
        ensures
            final(self)@ == (ProgramView {
                lines: old(self)@.lines.push(
                    LineView {
                        mnemonic: mnemonic@,
                        file_name: file_name@,
                        line_number: line_number as nat,
                        extension,
                        is_breakpoint,
                        operands,
                    },
                ),
                ..old(self)@
            }),
    {
        let ghost before = self@;
        let line = Line::new(
            mnemonic,
            file_name.clone(),
            line_number,
            extension,
            is_breakpoint,
            operands,
        );
        self.lines.push(line);
        assert(line_views(self.lines@) =~= before.lines.push(line@));
    }

    /// Executes the line at the program counter. Text that the line prints
    /// is appended to `std_out`.
    pub fn step(&self, processor: &mut Processor, std_out: &mut String) -> (r: Result<
        StepStatus,
        String,
    >)
        requires
            self@.wf(),
        ensures
            match step(self@, old(processor)@, old(std_out)@) {
                Stepped::Ended => r == Ok::<StepStatus, String>(StepStatus::Ended) && final(processor)@ == old(processor)@ && final(std_out)@ == old(std_out)@,
                Stepped::Advanced { machine, out } => r == Ok::<StepStatus, String>(
                    StepStatus::Advanced,
                ) && final(processor)@ == machine && final(std_out)@ == out,
                Stepped::Waiting { machine, out, input } => r == Ok::<StepStatus, String>(
                    StepStatus::Waiting(input),
                ) && final(processor)@ == machine && final(std_out)@ == out,
                Stepped::Failed { machine, error } => r matches Err(e) && e@ == error && final(processor)@ == machine,
            },
    {
        let pc = word_index(processor.R[15]);
        if pc >= self.lines.len() {
            return Ok(StepStatus::Ended);
        }
        let line = &self.lines[pc];
        assert(line@ == self@.lines[pc as int]);
        assert(line@.wf());
        let r0 = processor.R[0];
        let passes = match line.extension.cc {
            Some(cc) => cc.condition_test(processor.N, processor.Z, processor.C, processor.V),
            None => true,
        };
        processor.R[15] = wrapping_sum(processor.R[15], 1);
        if !passes {
            return Ok(StepStatus::Advanced);
        }
        if str_eq(line.mnemonic.as_str(), "b") || str_eq(line.mnemonic.as_str(), "bl") {
            match run_branch_instruction(
                std_out,
                r0,
                &line.operands,
                line.file_name.as_str(),
                line.line_number,
                &self.string_messages,
            ) {
                Err(e) => {
                    return Err(e);
                },
                Ok(Some(input)) => {
                    return Ok(StepStatus::Waiting(input));
                },
                Ok(None) => {},
            }
        }
        match execute_instruction(
            line.mnemonic.as_str(),
            line.extension.s,
            &line.operands,
            processor,
        ) {
            Ok(()) => Ok(StepStatus::Advanced),
            Err(e) => Err(locate(line.file_name.as_str(), line.line_number, e.as_str())),
        }
    }

    /// Runs the program from the program counter on, for at most `budget`
    /// steps. A set kill switch is cleared and ends the run before its first
    /// step. The input of the user, if there is one, goes to `r0` first,
    /// unless the program has ended. The caller looks at the kill switch
    /// between two calls; a result that says `RUNNING` without asking for
    /// input means that the budget is used up.
    pub fn run(
        &self,
        processor: &mut Processor,
        kill_switch: &mut bool,
        std_input: Option<i32>,
        budget: usize,
    ) -> (r: Result<(String, InputStatus, DebugStatus), String>)
        requires
            self@.wf(),
        ensures
            !*final(kill_switch),
            *old(kill_switch) ==> final(processor)@ == old(processor)@ && (r matches Ok(t) && t.0@
                == Seq::<char>::empty() && t.1 == InputStatus::NoInput && t.2
                == DebugStatus::END),
            !*old(kill_switch) ==> ({
                let start = if old(processor)@.R[15] >= self@.lines.len() {
                    old(processor)@
                } else {
                    with_input(old(processor)@, std_input)
                };
                let expected = run_from(self@, start, Seq::empty(), budget as nat);
                &&& final(processor)@ == expected.0
                &&& match expected.1 {
                    Ok((out, input, status)) => r matches Ok(t) && t.0@ == out && t.1 == input
                        && t.2 == status,
                    Err(e) => r matches Err(m) && m@ == e,
                }
            }),
    {
        let mut std_out = String::new();
        if *kill_switch {
            *kill_switch = false;
            return Ok((std_out, InputStatus::NoInput, DebugStatus::END));
        }
        if word_index(processor.R[15]) < self.lines.len() {
            match std_input {
                Some(i) => {
                    processor.R[0] = from_signed(i);
                },
                None => {},
            }
        }
        let ghost start = processor@;
        let mut left: usize = budget;
        while left > 0
            invariant
                self@.wf(),
                !*old(kill_switch),
                start == (if old(processor)@.R[15] >= self@.lines.len() {
                    old(processor)@
                } else {
                    with_input(old(processor)@, std_input)
                }),
                !*kill_switch,
                run_from(self@, processor@, std_out@, left as nat) == run_from(
                    self@,
                    start,
                    Seq::empty(),
                    budget as nat,
                ),
            decreases left,
        {
            match self.step(processor, &mut std_out) {
                Err(e) => {
                    return Err(e);
                },
                Ok(StepStatus::Ended) => {
                    return Ok((std_out, InputStatus::NoInput, DebugStatus::END));
                },
                Ok(StepStatus::Waiting(input)) => {
                    return Ok((std_out, input, DebugStatus::RUNNING));
                },
                Ok(StepStatus::Advanced) => {},
            }
            left -= 1;
        }
        Ok((std_out, InputStatus::NoInput, DebugStatus::RUNNING))
    }

    /// Executes one line for the debugger. A set kill switch is cleared and
    /// ends the program, as does a program counter past the last line; the
    /// result then names no file. Else the input of the user, if there is
    /// one, goes to `r0`, the line at the program counter is executed, and
    /// the result names its file and line, says whether it holds a
    /// breakpoint, what input it asks for, and what it printed.
    pub fn debug_run(
        &self,
        processor: &mut Processor,
        kill_switch: &mut bool,
        std_input: Option<i32>,
    ) -> (r: Result<(String, usize, DebugStatus, InputStatus, Option<String>), String>)
        requires
            self@.wf(),
        ensures
            !*final(kill_switch),
            (*old(kill_switch) || old(processor)@.R[15] >= self@.lines.len()) ==> final(processor)@ == old(processor)@ && (r matches Ok(t) && t.0@ == Seq::<char>::empty() && t.1 == 0
                && t.2 == DebugStatus::END && t.3 == InputStatus::NoInput && t.4 is None),
            !*old(kill_switch) && old(processor)@.R[15] < self@.lines.len() ==> ({
                let line = self@.lines[old(processor)@.R[15] as int];
                let status = if line.is_breakpoint {
                    DebugStatus::BREAKPOINT
                } else {
                    DebugStatus::CONTINUE
                };
                match step(self@, with_input(old(processor)@, std_input), Seq::empty()) {
                    Stepped::Ended => false,
                    Stepped::Advanced { machine, out } => final(processor)@ == machine && (
                    r matches Ok(t) && t.0@ == line.file_name && t.1 == line.line_number && t.2
                        == status && t.3 == InputStatus::NoInput && (if out.len() == 0 {
                        t.4 is None
                    } else {
                        t.4 matches Some(s) && s@ == out
                    })),
                    Stepped::Waiting { machine, out, input } => final(processor)@ == machine && (
                    r matches Ok(t) && t.0@ == line.file_name && t.1 == line.line_number && t.2
                        == status && t.3 == input && t.4 is None),
                    Stepped::Failed { machine, error } => final(processor)@ == machine && (
                    r matches Err(e) && e@ == error),
                }
            }),
    {
        let pc = word_index(processor.R[15]);
        if *kill_switch || pc >= self.lines.len() {
            *kill_switch = false;
            return Ok((String::new(), 0, DebugStatus::END, InputStatus::NoInput, None));
        }
        match std_input {
            Some(i) => {
                processor.R[0] = from_signed(i);
            },
            None => {},
        }
        let line = &self.lines[pc];
        let debug_status = if line.is_breakpoint {
            DebugStatus::BREAKPOINT
        } else {
            DebugStatus::CONTINUE
        };
        let mut std_out = String::new();
        match self.step(processor, &mut std_out) {
            Err(e) => Err(e),
            Ok(StepStatus::Waiting(input)) => Ok(
                (line.file_name.clone(), line.line_number, debug_status, input, None),
            ),
            Ok(_) => {
                let printed = if std_out.as_str().unicode_len() == 0 {
                    None
                } else {
                    Some(std_out)
                };
                Ok(
                    (
                        line.file_name.clone(),
                        line.line_number,
                        debug_status,
                        InputStatus::NoInput,
                        printed,
                    ),
                )
            },
        }
    }
}

/// A line whose condition fails is skipped: the step leaves the machine and
/// the output as they are, but for the program counter, which goes on by
/// one.
pub proof fn lemma_failed_condition_skips(
    p: ProgramView,
    m: Machine,
    out: Seq<char>,
    cc: ConditionCode,
)
    requires
        m.R[15] < p.lines.len(),
        p.lines[m.R[15] as int].extension.cc == Some(cc),
        !cc.holds(m.N, m.Z, m.C, m.V),
    ensures
        step(p, m, out) == (Stepped::Advanced {
            machine: m.with_register(15, wrap32(m.R[15] + 1)),
            out,
        }),
{
}

} // verus!
