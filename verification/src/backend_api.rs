//! The commands of the library: compiling a set of source files into a
//! program, and what the second pass of the assembler does line by line.
use vstd::prelude::*;
use vstd::hash_map::StringHashMap;
use std::collections::VecDeque;
use crate::arm7::{one_message, result_view, ConditionCode, Machine, MnemonicExtension, Processor};
use crate::assembler::{
    compiled_operands, found_mnemonic, invalid_instruction_message,
    lemma_compiled_operands_within, strings_within,
};
use crate::error::{it_check, it_statement, located_all, CompileErr, Diagnostics};
use crate::labels::{
    bindings, first_pass, instruction_count, is_counted, lemma_first_pass,
    lemma_first_pass_prefix, lemma_scan_bounds, overflows, preprocess_line, preprocessed, scan,
    sources_view, total_instructions, LabelTable, Labels, Scan,
};
use crate::pattern::{is_match, regex_matches};
use crate::program::{LineView, Program, ProgramView};
use crate::text::{
    ends_with, lines, lowercase, split_lines, starts_with, str_eq, texts, to_lowercase,
};

verus! {

/// The pattern of an `IT` statement: `it`, up to three more letters `t` or
/// `e`, and a condition.
pub open spec fn it_pattern() -> Seq<char> {
    r"^it[te]{0,3}\s+\w+$"@
}

/// Whether a line, in lower case, is an `IT` statement.
pub fn is_if_then_block(line: &str) -> (r: bool)
    ensures
        r == regex_matches(it_pattern(), line@),
{
    is_match(r"^it[te]{0,3}\s+\w+$", line)
}

pub open spec fn open_it_message() -> Seq<char> {
    "IT block does not have all conditions covered."@
}

/// The breakpoints of each file, by the name of the file.
pub open spec fn breakpoints_view(v: Seq<(String, Vec<usize>)>) -> Seq<(Seq<char>, Seq<usize>)> {
    Seq::new(v.len(), |i: int| (v[i].0@, v[i].1@))
}

/// Whether a line of a file holds a breakpoint: some entry names the file
/// and lists the line number.
pub open spec fn breakpoint_at(
    breakpoints: Seq<(Seq<char>, Seq<usize>)>,
    file_name: Seq<char>,
    line_number: nat,
) -> bool
    decreases breakpoints.len(),
{
    if breakpoints.len() == 0 {
        false
    } else {
        (breakpoints.last().0 == file_name && breakpoints.last().1.contains(line_number as usize))
            || breakpoint_at(breakpoints.drop_last(), file_name, line_number)
    }
}

/// Whether a list of numbers holds a number.
fn holds(list: &Vec<usize>, n: usize) -> (r: bool)
    ensures
        r == list@.contains(n),
{
    let mut i: usize = 0;
    while i < list.len()
        invariant
            i <= list@.len(),
            forall|k: int| 0 <= k < i ==> list@[k] != n,
        decreases list@.len() - i,
    {
        if list[i] == n {
            return true;
        }
        i += 1;
    }
    false
}

/// Whether a line of a file holds a breakpoint.
pub fn is_breakpoint(breakpoints: &Vec<(String, Vec<usize>)>, file_name: &str, line_number: usize) -> (r:
    bool)
    ensures
        r == breakpoint_at(breakpoints_view(breakpoints@), file_name@, line_number as nat),
{
    let ghost all = breakpoints_view(breakpoints@);
    let mut found = false;
    let mut i: usize = 0;
    assert(all.take(0) =~= Seq::<(Seq<char>, Seq<usize>)>::empty());
    while i < breakpoints.len()
        invariant
            i <= breakpoints@.len(),
            all == breakpoints_view(breakpoints@),
            found == breakpoint_at(all.take(i as int), file_name@, line_number as nat),
        decreases breakpoints@.len() - i,
    {
        assert(all.take(i + 1).drop_last() =~= all.take(i as int));
        assert(all.take(i + 1).last() == (breakpoints@[i as int].0@, breakpoints@[i as int].1@));
        if str_eq(breakpoints[i].0.as_str(), file_name) && holds(&breakpoints[i].1, line_number) {
            found = true;
        }
        i += 1;
    }
    assert(all.take(breakpoints@.len() as int) =~= all);
    found
}

/// The second pass at work: the program so far, the diagnostics, the
/// conditions that an `IT` block still asks for, and the errors that ended
/// the pass early, if an `IT` statement was refused.
pub struct Assembly {
    pub program: ProgramView,
    pub errors: Diagnostics,
    pub pending: Seq<ConditionCode>,
    pub stopped: Option<Seq<Seq<char>>>,
}

impl Assembly {
    pub open spec fn with_message(self, message: Seq<char>) -> Assembly {
        Assembly { errors: self.errors.with_message(message), ..self }
    }

    /// What the pass returns: the errors that ended it early, else all
    /// errors that it gathered, else success.
    pub open spec fn outcome(self) -> Result<(), Seq<Seq<char>>> {
        match self.stopped {
            Some(errors) => Err(errors),
            None => if self.errors.errors.len() == 0 {
                Ok(())
            } else {
                Err(self.errors.errors)
            },
        }
    }
}

/// The second pass after an instruction line whose mnemonic was found: the
/// `IT` block is checked, the operands are compiled, and either a line is
/// appended to the program or the errors of the instruction are gathered.
pub open spec fn assembled_instruction(
    at: Assembly,
    table: LabelTable,
    strings: Map<Seq<char>, usize>,
    file_name: Seq<char>,
    index: nat,
    l: Seq<char>,
    name: Seq<char>,
    found: MnemonicExtension,
    is_breakpoint: bool,
) -> Assembly {
    let check = it_check(at.pending, found.cc);
    let checked = Assembly {
        errors: match check.1 {
            Some(m) => at.errors.with_message(m),
            None => at.errors,
        },
        pending: if at.pending.len() == 0 {
            at.pending
        } else {
            at.pending.skip(1)
        },
        ..at
    };
    let extension = MnemonicExtension { it_status: check.0, ..found };
    match compiled_operands(name, extension, l, lowercase(l), table, strings) {
        Some(Ok(operands)) => Assembly {
            program: ProgramView {
                lines: checked.program.lines.push(
                    LineView {
                        mnemonic: name,
                        file_name,
                        line_number: index + 1,
                        extension,
                        is_breakpoint,
                        operands,
                    },
                ),
                ..checked.program
            },
            ..checked
        },
        Some(Err(errors)) => Assembly {
            errors: Diagnostics {
                errors: checked.errors.errors + located_all(
                    checked.errors.current_file,
                    checked.errors.line_number,
                    errors,
                ),
                ..checked.errors
            },
            ..checked
        },
        None => Assembly {
            errors: Diagnostics {
                errors: checked.errors.errors + located_all(
                    checked.errors.current_file,
                    checked.errors.line_number,
                    seq![invalid_instruction_message()],
                ),
                ..checked.errors
            },
            ..checked
        },
    }
}

/// The second pass after one more line, whose index in the file, counted
/// from zero, is `index`. Empty lines, labels and directives are passed
/// over; a line that starts with `it` is an `IT` statement or no
/// instruction at all; every other line is an instruction.
pub open spec fn assembled_line(
    a: Assembly,
    table: LabelTable,
    strings: Map<Seq<char>, usize>,
    file_name: Seq<char>,
    index: nat,
    raw: Seq<char>,
    is_breakpoint: bool,
) -> Assembly {
    let l = preprocessed(raw);
    let low = lowercase(l);
    let at = Assembly { errors: Diagnostics { line_number: index + 1, ..a.errors }, ..a };
    if a.stopped is Some {
        a
    } else if l.len() == 0 || ":"@.is_suffix_of(l) || "."@.is_prefix_of(l) {
        at
    } else if "it"@.is_prefix_of(low) {
        if regex_matches(it_pattern(), low) {
            match it_statement(at.pending, low) {
                Ok(conditions) => Assembly { pending: conditions, ..at },
                Err(m) => Assembly { stopped: Some(at.errors.with_message(m).errors), ..at },
            }
        } else {
            at.with_message(invalid_instruction_message())
        }
    } else {
        match found_mnemonic(low) {
            None => at.with_message(invalid_instruction_message()),
            Some((name, found)) => assembled_instruction(
                at,
                table,
                strings,
                file_name,
                index,
                l,
                name,
                found,
                is_breakpoint,
            ),
        }
    }
}

/// The second pass after the first `n` lines of a file.
pub open spec fn assembled_lines(
    a: Assembly,
    table: LabelTable,
    strings: Map<Seq<char>, usize>,
    file_name: Seq<char>,
    lines: Seq<Seq<char>>,
    breakpoints: Seq<(Seq<char>, Seq<usize>)>,
) -> Assembly
    decreases lines.len(),
{
    if lines.len() == 0 {
        a
    } else {
        assembled_line(
            assembled_lines(a, table, strings, file_name, lines.drop_last(), breakpoints),
            table,
            strings,
            file_name,
            (lines.len() - 1) as nat,
            lines.last(),
            breakpoint_at(breakpoints, file_name, lines.len()),
        )
    }
}

/// What the second pass keeps between the lines of a file, as the
/// invariants of the assembler see it: the program names instructions and
/// registers that exist, every label points at most at `limit`, every
/// string label names a literal of the pool, and the program has at most
/// `counted` lines, and exactly as many while no error was found.
pub open spec fn in_step(
    program: ProgramView,
    errors: Diagnostics,
    table: LabelTable,
    strings: Map<Seq<char>, usize>,
    limit: nat,
    counted: nat,
) -> bool {
    &&& program.wf()
    &&& program.targets_within(limit)
    &&& table.within(limit)
    &&& strings_within(strings, program.strings.len())
    &&& program.lines.len() <= counted
    &&& errors.errors.len() == 0 ==> program.lines.len() == counted
}

/// Compiles one line of a file in the second pass. `index` is the index of
/// the line in the file, counted from zero. An `IT` statement that is
/// refused ends the pass: all errors are returned at once.
fn compile_line(
    program: &mut Program,
    errors: CompileErr,
    it_block: &mut VecDeque<ConditionCode>,
    labels: &Labels,
    string_labels: &StringHashMap<usize>,
    file_name: &String,
    index: usize,
    raw: &str,
    is_breakpoint: bool,
    Ghost(limit): Ghost<nat>,
    Ghost(counted): Ghost<nat>,
) -> (r: Result<CompileErr, Vec<String>>)
    requires
        index < usize::MAX,
        in_step(old(program)@, errors@, labels@, string_labels@, limit, counted),
    ensures
        ({
            let next = assembled_line(
                Assembly {
                    program: old(program)@,
                    errors: errors@,
                    pending: old(it_block)@,
                    stopped: None,
                },
                labels@,
                string_labels@,
                file_name@,
                index as nat,
                raw@,
                is_breakpoint,
            );
            &&& final(program)@ == next.program
            &&& match r {
                Ok(e) => next.stopped is None && e@ == next.errors && final(it_block)@
                    == next.pending && e@.errors.len() >= errors@.errors.len() && in_step(
                    final(program)@,
                    e@,
                    labels@,
                    string_labels@,
                    limit,
                    counted + (if is_counted(raw@) {
                        1nat
                    } else {
                        0nat
                    }),
                ),
                Err(v) => next.stopped == Some(texts(v@)) && v@.len() > 0,
            }
            &&& final(program)@.wf()
        }),
{
    let mut errors = errors;
    errors.update_line_number(index);
    let original_line = preprocess_line(raw);
    let line = to_lowercase(original_line);
    if original_line.unicode_len() == 0 || ends_with(original_line, ":") || starts_with(
        original_line,
        ".",
    ) {
        return Ok(errors);
    }
    if starts_with(line.as_str(), "it") {
        if is_if_then_block(line.as_str()) {
            let ghost before = errors@;
            return match errors.handle_it_instruction(it_block, line) {
                Ok(e) => Ok(e),
                Err(v) => {
                    assert(texts(v@).len() == v@.len());
                    assert(texts(v@).len() > 0);
                    Err(v)
                },
            };
        }
        errors.push_message("Invalid instruction.");
        return Ok(errors);
    }
    match program.find_mnemonic(&line) {
        None => {
            errors.push_message("Invalid instruction.");
            Ok(errors)
        },
        Some((mnemonic, found)) => {
            let it_status = errors.get_it_status(it_block, found.cc);
            let extension = MnemonicExtension {
                cc: found.cc,
                s: found.s,
                w: found.w,
                it_status,
            };
            proof {
                lemma_compiled_operands_within(
                    mnemonic@,
                    extension,
                    original_line@,
                    line@,
                    labels@,
                    string_labels@,
                    limit,
                    program@.strings.len(),
                );
            }
            match program.compile_instruction(
                mnemonic,
                file_name,
                index + 1,
                extension,
                is_breakpoint,
                original_line,
                &line,
                labels,
                string_labels,
            ) {
                Ok(()) => {},
                Err(e) => {
                    assert(texts(e@).len() == e@.len());
                    errors.extend(e);
                },
            }
            Ok(errors)
        },
    }
}

/// Once the second pass has stopped, the lines that follow change nothing.
pub proof fn lemma_assembled_lines_stopped(
    a: Assembly,
    table: LabelTable,
    strings: Map<Seq<char>, usize>,
    file_name: Seq<char>,
    lines: Seq<Seq<char>>,
    breakpoints: Seq<(Seq<char>, Seq<usize>)>,
    n: int,
)
    requires
        0 <= n <= lines.len(),
        assembled_lines(a, table, strings, file_name, lines.take(n), breakpoints).stopped is Some,
    ensures
        assembled_lines(a, table, strings, file_name, lines, breakpoints) == assembled_lines(
            a,
            table,
            strings,
            file_name,
            lines.take(n),
            breakpoints,
        ),
    decreases lines.len() - n,
{
    if n == lines.len() {
        assert(lines.take(n) =~= lines);
    } else {
        assert(lines.drop_last().take(n) =~= lines.take(n));
        lemma_assembled_lines_stopped(
            a,
            table,
            strings,
            file_name,
            lines.drop_last(),
            breakpoints,
            n,
        );
    }
}

/// Compiles the lines of a file in the second pass.
fn compile_lines(
    program: &mut Program,
    errors: CompileErr,
    it_block: &mut VecDeque<ConditionCode>,
    labels: &Labels,
    string_labels: &StringHashMap<usize>,
    file_name: &String,
    all: &Vec<String>,
    breakpoints: &Vec<(String, Vec<usize>)>,
    Ghost(limit): Ghost<nat>,
    Ghost(counted): Ghost<nat>,
) -> (r: Result<CompileErr, Vec<String>>)
    requires
        in_step(old(program)@, errors@, labels@, string_labels@, limit, counted),
    ensures
        ({
            let done = assembled_lines(
                Assembly {
                    program: old(program)@,
                    errors: errors@,
                    pending: old(it_block)@,
                    stopped: None,
                },
                labels@,
                string_labels@,
                file_name@,
                texts(all@),
                breakpoints_view(breakpoints@),
            );
            &&& final(program)@ == done.program
            &&& match r {
                Ok(e) => done.stopped is None && e@ == done.errors && final(it_block)@
                    == done.pending && e@.errors.len() >= errors@.errors.len() && in_step(
                    final(program)@,
                    e@,
                    labels@,
                    string_labels@,
                    limit,
                    counted + instruction_count(texts(all@)),
                ),
                Err(v) => done.stopped == Some(texts(v@)) && v@.len() > 0,
            }
            &&& final(program)@.wf()
        }),
{
    let ghost start = Assembly {
        program: old(program)@,
        errors: errors@,
        pending: old(it_block)@,
        stopped: None,
    };
    let mut gathered = errors;
    let ghost source = texts(all@);
    let ghost stops = breakpoints_view(breakpoints@);
    let mut i: usize = 0;
    assert(source.take(0) =~= Seq::<Seq<char>>::empty());
    while i < all.len()
        invariant
            i <= all@.len(),
            source == texts(all@),
            stops == breakpoints_view(breakpoints@),
            start == (Assembly {
                program: old(program)@,
                errors: errors@,
                pending: old(it_block)@,
                stopped: None,
            }),
            assembled_lines(start, labels@, string_labels@, file_name@, source.take(i as int), stops)
                == (Assembly {
                program: program@,
                errors: gathered@,
                pending: it_block@,
                stopped: None,
            }),
            gathered@.errors.len() >= errors@.errors.len(),
            in_step(
                program@,
                gathered@,
                labels@,
                string_labels@,
                limit,
                counted + instruction_count(source.take(i as int)),
            ),
        decreases all@.len() - i,
    {
        assert(source.take(i + 1).drop_last() =~= source.take(i as int));
        assert(source.take(i + 1).last() == all@[i as int]@);
        let stop = is_breakpoint(breakpoints, file_name.as_str(), i + 1);
        let ghost prev = Assembly {
            program: program@,
            errors: gathered@,
            pending: it_block@,
            stopped: None,
        };
        assert(assembled_lines(
            start,
            labels@,
            string_labels@,
            file_name@,
            source.take(i + 1),
            stops,
        ) == assembled_line(
            prev,
            labels@,
            string_labels@,
            file_name@,
            i as nat,
            all@[i as int]@,
            stop,
        ));
        match compile_line(
            program,
            gathered,
            it_block,
            labels,
            string_labels,
            file_name,
            i,
            all[i].as_str(),
            stop,
            Ghost(limit),
            Ghost(counted + instruction_count(source.take(i as int))),
        ) {
            Ok(e) => {
                gathered = e;
            },
            Err(v) => {
                proof {
                    lemma_assembled_lines_stopped(
                        start,
                        labels@,
                        string_labels@,
                        file_name@,
                        source,
                        stops,
                        i + 1,
                    );
                }
                return Err(v);
            },
        }
        i += 1;
    }
    assert(source.take(all@.len() as int) =~= source);
    Ok(gathered)
}

/// The string labels with those of one more file, whose literals stand in
/// the pool from index `base` on.
pub open spec fn bound_strings(
    strings: Map<Seq<char>, usize>,
    labels: Seq<(Seq<char>, usize)>,
    base: nat,
) -> Map<Seq<char>, usize>
    decreases labels.len(),
{
    if labels.len() == 0 {
        strings
    } else {
        bound_strings(strings, labels.drop_last(), base).insert(
            labels.last().0,
            (labels.last().1 + base) as usize,
        )
    }
}

/// Binds the string labels of a file to the indices of their literals in
/// the pool.
fn bind_strings(
    string_labels: &mut StringHashMap<usize>,
    new_labels: Vec<(String, usize)>,
    base: usize,
    Ghost(pool): Ghost<nat>,
)
    requires
        pool <= usize::MAX,
        strings_within(old(string_labels)@, pool),
        forall|i: int|
            0 <= i < new_labels@.len() ==> (#[trigger] bindings(new_labels@)[i]).1 + base < pool,
    ensures
        final(string_labels)@ == bound_strings(old(string_labels)@, bindings(new_labels@), base as nat),
        strings_within(final(string_labels)@, pool),
{
    let ghost all = bindings(new_labels@);
    let ghost start = string_labels@;
    let mut i: usize = 0;
    assert(all.take(0) =~= Seq::<(Seq<char>, usize)>::empty());
    while i < new_labels.len()
        invariant
            i <= new_labels@.len(),
            all == bindings(new_labels@),
            pool <= usize::MAX,
            forall|k: int| 0 <= k < all.len() ==> (#[trigger] all[k]).1 + base < pool,
            string_labels@ == bound_strings(start, all.take(i as int), base as nat),
            strings_within(string_labels@, pool),
        decreases new_labels@.len() - i,
    {
        assert(all.take(i + 1).drop_last() =~= all.take(i as int));
        assert(all.take(i + 1).last() == all[i as int]);
        assert(all[i as int] == (new_labels@[i as int].0@, new_labels@[i as int].1));
        let name = new_labels[i].0.clone();
        let index = new_labels[i].1 + base;
        string_labels.insert(name, index);
        i += 1;
    }
    assert(all.take(new_labels@.len() as int) =~= all);
}

/// The second pass between two files: the assembly, the label table, the
/// string labels, and the position of the next instruction.
pub struct Pass {
    pub assembly: Assembly,
    pub table: LabelTable,
    pub strings: Map<Seq<char>, usize>,
    pub pc: nat,
}

/// The second pass after one more file: its labels replace the local ones,
/// its literals go to the pool, its lines are compiled, and an `IT` block
/// that is still open at its end is an error.
pub open spec fn assembled_file(
    p: Pass,
    file_name: Seq<char>,
    content: Seq<char>,
    breakpoints: Seq<(Seq<char>, Seq<usize>)>,
) -> Pass {
    if p.assembly.stopped is Some {
        p
    } else {
        let found = scan(
            lines(content),
            Scan::start(p.pc, Diagnostics { current_file: file_name, ..p.assembly.errors }),
        );
        let table = LabelTable { local: found.labels, ..p.table };
        let strings = bound_strings(
            p.strings,
            found.string_labels,
            p.assembly.program.strings.len(),
        );
        let start = Assembly {
            program: ProgramView {
                strings: p.assembly.program.strings + found.strings,
                ..p.assembly.program
            },
            errors: found.errors,
            pending: Seq::empty(),
            stopped: None,
        };
        let done = assembled_lines(start, table, strings, file_name, lines(content), breakpoints);
        let closed = if done.stopped is None && done.pending.len() > 0 {
            done.with_message(open_it_message())
        } else {
            done
        };
        Pass { assembly: closed, table, strings, pc: found.pc }
    }
}

/// The second pass after a list of files.
pub open spec fn assembled_files(
    p: Pass,
    files: Seq<(Seq<char>, Seq<char>)>,
    breakpoints: Seq<(Seq<char>, Seq<usize>)>,
) -> Pass
    decreases files.len(),
{
    if files.len() == 0 {
        p
    } else {
        assembled_file(
            assembled_files(p, files.drop_last(), breakpoints),
            files.last().0,
            files.last().1,
            breakpoints,
        )
    }
}

/// Once the second pass has stopped, the files that follow change nothing.
pub proof fn lemma_assembled_files_stopped(
    p: Pass,
    files: Seq<(Seq<char>, Seq<char>)>,
    breakpoints: Seq<(Seq<char>, Seq<usize>)>,
    n: int,
)
    requires
        0 <= n <= files.len(),
        assembled_files(p, files.take(n), breakpoints).assembly.stopped is Some,
    ensures
        assembled_files(p, files, breakpoints) == assembled_files(p, files.take(n), breakpoints),
    decreases files.len() - n,
{
    if n == files.len() {
        assert(files.take(n) =~= files);
    } else {
        assert(files.drop_last().take(n) =~= files.take(n));
        lemma_assembled_files_stopped(p, files.drop_last(), breakpoints, n);
    }
}

/// What the second pass needs to know of the next file: the first pass did
/// not overflow on it, its instructions are counted after those of the files
/// before it, and the pass goes on from where these files left it.
pub proof fn lemma_next_file(
    p: Pass,
    files: Seq<(Seq<char>, Seq<char>)>,
    breakpoints: Seq<(Seq<char>, Seq<usize>)>,
    k: int,
)
    requires
        0 <= k < files.len(),
        first_pass(files) is Ok,
    ensures
        !overflows(total_instructions(files.take(k)), files[k].1),
        total_instructions(files.take(k + 1)) == total_instructions(files.take(k))
            + instruction_count(lines(files[k].1)),
        total_instructions(files.take(k + 1)) <= total_instructions(files),
        assembled_files(p, files.take(k + 1), breakpoints) == assembled_file(
            assembled_files(p, files.take(k), breakpoints),
            files[k].0,
            files[k].1,
            breakpoints,
        ),
{
    assert(files.take(k + 1).drop_last() =~= files.take(k));
    assert(files.take(k + 1).last() == files[k]);
    lemma_first_pass_prefix(files, k + 1);
    lemma_first_pass(files.take(k + 1));
    lemma_first_pass(files.take(k));
}

/// What compiling a list of files gives: the program, and success or the
/// errors. An error of the first pass leaves the program empty.
pub open spec fn assembled(
    files: Seq<(Seq<char>, Seq<char>)>,
    breakpoints: Seq<(Seq<char>, Seq<usize>)>,
    delay: u16,
) -> (ProgramView, Result<(), Seq<Seq<char>>>) {
    match first_pass(files) {
        Err(e) => (ProgramView::empty(delay), Err(one_message(e))),
        Ok((table, total)) => {
            let end = assembled_files(Pass::initial(table, delay), files, breakpoints);
            (end.assembly.program, end.assembly.outcome())
        },
    }
}

impl Pass {
    /// The second pass before the first file: an empty program, no error,
    /// and the global labels that the first pass has found.
    pub open spec fn initial(table: LabelTable, delay: u16) -> Pass {
        Pass {
            assembly: Assembly {
                program: ProgramView::empty(delay),
                errors: Diagnostics {
                    errors: Seq::empty(),
                    line_number: 1,
                    current_file: "main.s"@,
                },
                pending: Seq::empty(),
                stopped: None,
            },
            table: LabelTable { local: Map::empty(), ..table },
            strings: Map::empty(),
            pc: 0,
        }
    }
}

/// Compiles all files in the second pass.
fn compile_files(
    program: &mut Program,
    labels: Labels,
    sources: &Vec<(String, String)>,
    breakpoint_map: &Vec<(String, Vec<usize>)>,
    Ghost(table): Ghost<LabelTable>,
) -> (r: Result<(), Vec<String>>)
    requires
        first_pass(sources_view(sources@)) is Ok,
        first_pass(sources_view(sources@))->Ok_0.0 == table,
        labels@ == (LabelTable { local: Map::empty(), ..table }),
        old(program)@ == ProgramView::empty(old(program)@.delay),
    ensures
        ({
            let end = assembled_files(
                Pass::initial(table, old(program)@.delay),
                sources_view(sources@),
                breakpoints_view(breakpoint_map@),
            );
            &&& final(program)@ == end.assembly.program
            &&& result_view(r) == end.assembly.outcome()
            &&& final(program)@.wf()
            &&& r is Ok ==> final(program)@.resolved()
        }),
{
    let mut labels = labels;
    let ghost files = sources_view(sources@);
    let ghost stops = breakpoints_view(breakpoint_map@);
    let ghost limit = total_instructions(files);
    let ghost start = Pass::initial(table, program@.delay);
    proof {
        lemma_first_pass(files);
    }
    let mut it_block: VecDeque<ConditionCode> = VecDeque::new();
    let mut pc: usize = 0;
    let mut errors = CompileErr::new();
    let mut string_labels: StringHashMap<usize> = StringHashMap::new();
    let mut k: usize = 0;
    assert(files.take(0) =~= Seq::<(Seq<char>, Seq<char>)>::empty());
    while k < sources.len()
        invariant
            k <= sources@.len(),
            files == sources_view(sources@),
            stops == breakpoints_view(breakpoint_map@),
            first_pass(files) is Ok,
            limit == total_instructions(files),
            start == Pass::initial(table, old(program)@.delay),
            pc == total_instructions(files.take(k as int)),
            assembled_files(start, files.take(k as int), stops) == (Pass {
                assembly: Assembly {
                    program: program@,
                    errors: errors@,
                    pending: it_block@,
                    stopped: None,
                },
                table: labels@,
                strings: string_labels@,
                pc: pc as nat,
            }),
            in_step(program@, errors@, labels@, string_labels@, limit, pc as nat),
        decreases sources@.len() - k,
    {
        assert(files[k as int] == (sources@[k as int].0@, sources@[k as int].1@));
        proof {
            lemma_next_file(start, files, stops, k as int);
        }
        match compile_file(
            program,
            errors,
            &mut it_block,
            &mut labels,
            &mut string_labels,
            &mut pc,
            &sources[k].0,
            &sources[k].1,
            breakpoint_map,
            Ghost(limit),
        ) {
            Ok(e) => {
                errors = e;
            },
            Err(v) => {
                proof {
                    lemma_assembled_files_stopped(start, files, stops, k + 1);
                }
                return Err(v);
            },
        }
        k += 1;
    }
    assert(files.take(sources@.len() as int) =~= files);
    errors.result()
}

/// Compiles one file in the second pass.
fn compile_file(
    program: &mut Program,
    errors: CompileErr,
    it_block: &mut VecDeque<ConditionCode>,
    labels: &mut Labels,
    string_labels: &mut StringHashMap<usize>,
    pc: &mut usize,
    file_name: &String,
    content: &String,
    breakpoints: &Vec<(String, Vec<usize>)>,
    Ghost(limit): Ghost<nat>,
) -> (r: Result<CompileErr, Vec<String>>)
    requires
        *old(pc) + lines(content@).len() <= usize::MAX,
        *old(pc) + instruction_count(lines(content@)) <= limit,
        in_step(
            old(program)@,
            errors@,
            old(labels)@,
            old(string_labels)@,
            limit,
            *old(pc) as nat,
        ),
    ensures
        ({
            let next = assembled_file(
                Pass {
                    assembly: Assembly {
                        program: old(program)@,
                        errors: errors@,
                        pending: old(it_block)@,
                        stopped: None,
                    },
                    table: old(labels)@,
                    strings: old(string_labels)@,
                    pc: *old(pc) as nat,
                },
                file_name@,
                content@,
                breakpoints_view(breakpoints@),
            );
            &&& final(program)@ == next.assembly.program
            &&& match r {
                Ok(e) => next.assembly.stopped is None && e@ == next.assembly.errors && final(it_block)@ == next.assembly.pending && final(labels)@ == next.table && final(string_labels)@ == next.strings && *final(pc) == next.pc && *final(pc) == *old(pc)
                    + instruction_count(lines(content@)) && in_step(
                    final(program)@,
                    e@,
                    final(labels)@,
                    final(string_labels)@,
                    limit,
                    *final(pc) as nat,
                ),
                Err(v) => next.assembly.stopped == Some(texts(v@)) && v@.len() > 0,
            }
            &&& final(program)@.wf()
        }),
{
    let mut errors = errors;
    errors.update_current_file(file_name.clone());
    it_block.clear();
    proof {
        lemma_scan_bounds(lines(content@), *pc as nat, errors@);
    }
    let (new_strings, new_string_labels) = labels.get_local_labels(content, pc, &mut errors);
    let base = program.pool_size();
    program.add_strings(new_strings);
    let pool = program.pool_size();
    bind_strings(string_labels, new_string_labels, base, Ghost(pool as nat));
    let all = split_lines(content.as_str());
    let compiled = compile_lines(
        program,
        errors,
        it_block,
        labels,
        string_labels,
        file_name,
        &all,
        breakpoints,
        Ghost(limit),
        Ghost(*old(pc) as nat),
    );
    match compiled {
        Err(v) => Err(v),
        Ok(e) => {
            let mut errors = e;
            if it_block.len() > 0 {
                errors.push_message("IT block does not have all conditions covered.");
            }
            Ok(errors)
        },
    }
}

/// Assembles a set of source files into the program, which is emptied first
/// and gets the delay. The files are read in two passes: the first binds the
/// labels, the second compiles the lines. `sources` holds the name and the
/// text of each file, `breakpoint_map` the numbers of the lines of each file
/// that hold a breakpoint. Returns the compile-time errors if there are any.
/// A program that compiles is resolved: its registers exist, its branches go
/// to a predefined subroutine or to a position of the program, and the
/// strings that it loads are in the pool.
pub fn assemble(
    program: &mut Program,
    delay: u16,
    sources: &Vec<(String, String)>,
    breakpoint_map: &Vec<(String, Vec<usize>)>,
) -> (r: Result<(), Vec<String>>)
    ensures
        final(program)@ == assembled(
            sources_view(sources@),
            breakpoints_view(breakpoint_map@),
            delay,
        ).0,
        result_view(r) == assembled(
            sources_view(sources@),
            breakpoints_view(breakpoint_map@),
            delay,
        ).1,
        final(program)@.wf(),
        r is Ok ==> final(program)@.resolved(),
{
    program.reset(delay);
    let labels = match Labels::get_global_labels(sources) {
        Ok(labels) => labels,
        Err(e) => {
            return Err(e);
        },
    };
    let ghost table = first_pass(sources_view(sources@))->Ok_0.0;
    compile_files(program, labels, sources, breakpoint_map, Ghost(table))
}

/// Compiles a set of source files: resets the processor and the kill
/// switch, and assembles the files into the program.
pub fn compile(
    processor: &mut Processor,
    program: &mut Program,
    kill_switch: &mut bool,
    delay: u16,
    sources: &Vec<(String, String)>,
    breakpoint_map: &Vec<(String, Vec<usize>)>,
) -> (r: Result<(), Vec<String>>)
    ensures
        final(processor)@ == Machine::initial(),
        !*final(kill_switch),
        final(program)@ == assembled(
            sources_view(sources@),
            breakpoints_view(breakpoint_map@),
            delay,
        ).0,
        result_view(r) == assembled(
            sources_view(sources@),
            breakpoints_view(breakpoint_map@),
            delay,
        ).1,
        final(program)@.wf(),
        r is Ok ==> final(program)@.resolved(),
{
    processor.reset();
    *kill_switch = false;
    assemble(program, delay, sources, breakpoint_map)
}

} // verus!
