//! From a line of source to a compiled line: the mnemonic with its
//! extensions, and the operands of the instructions that the label tables
//! resolve.
use vstd::prelude::*;
use vstd::hash_map::StringHashMap;
use crate::arm7::{
    one_message, result_view, unknown_label_message, ConditionCode, ITStatus, MnemonicExtension,
    Operands,
};
use crate::error::{
    invalid_args, invalid_args_message, invalid_label_message, CompileErr, InstructionCompileErr,
};
use crate::instructions::{is_instruction, is_instruction_name, operands_of, read_operands};
use crate::labels::{LabelTable, Labels};
use crate::pattern::{find_first, is_match, regex_first, regex_matches};
use crate::program::{operands_within, LineView, Program, ProgramView};
use crate::text::{ends_with, head_of, split_words, str_eq, tail_of, texts, words};
use crate::utils::{branch_pattern, condition_codes, condition_codes_pattern, is_label};

verus! {

/// The extension with nothing but a condition code, the `s` flag and the
/// `.w` suffix.
pub open spec fn extended(cc: Option<ConditionCode>, s: bool, w: bool) -> MnemonicExtension {
    MnemonicExtension { cc, s, w, it_status: ITStatus::OUT }
}

/// A token without its last `n` characters.
pub open spec fn without_last(t: Seq<char>, n: int) -> Seq<char> {
    if 0 <= n <= t.len() {
        t.take(t.len() - n)
    } else {
        t
    }
}

/// A token that ends in a condition code: the mnemonic before it, or the
/// mnemonic before an `s` and the code.
pub open spec fn with_condition(t: Seq<char>, w: bool) -> Option<(Seq<char>, MnemonicExtension)> {
    if t.len() > 2 {
        let code = t.skip(t.len() - 2);
        let base = t.take(t.len() - 2);
        match ConditionCode::named(code) {
            Some(cc) => if !regex_matches(condition_codes_pattern(), code) {
                None
            } else if is_instruction_name(base) {
                Some((base, extended(Some(cc), false, w)))
            } else if "s"@.is_suffix_of(base) && is_instruction_name(without_last(base, 1)) {
                Some((without_last(base, 1), extended(Some(cc), true, w)))
            } else {
                None
            },
            None => None,
        }
    } else {
        None
    }
}

/// The mnemonic and the extensions of a token. Tried in this order: the
/// bare token; the token without `.w`; without a condition code; without a
/// condition code and the `s` before it; without an `s`; without an `s` and
/// the condition code before it.
pub open spec fn mnemonic_of(token: Seq<char>) -> Option<(Seq<char>, MnemonicExtension)> {
    if is_instruction_name(token) {
        Some((token, extended(None, false, false)))
    } else {
        let w = ".w"@.is_suffix_of(token);
        let t = if w {
            without_last(token, 2)
        } else {
            token
        };
        if w && is_instruction_name(t) {
            Some((t, extended(None, false, true)))
        } else {
            match with_condition(t, w) {
                Some(found) => Some(found),
                None => if t.len() > 1 && "s"@.is_suffix_of(t) {
                    let base = without_last(t, 1);
                    if is_instruction_name(base) {
                        Some((base, extended(None, true, w)))
                    } else {
                        match with_condition(base, w) {
                            Some((name, extension)) => if extension.s {
                                None
                            } else {
                                Some((name, extended(extension.cc, true, w)))
                            },
                            None => None,
                        }
                    }
                } else {
                    None
                },
            }
        }
    }
}

/// The mnemonic and the extensions of a line: those of its first word.
pub open spec fn found_mnemonic(line: Seq<char>) -> Option<(Seq<char>, MnemonicExtension)> {
    if words(line).len() == 0 {
        None
    } else {
        mnemonic_of(words(line)[0])
    }
}

/// What `find_mnemonic` found, by the text of the mnemonic.
pub open spec fn mnemonic_view(r: Option<(String, MnemonicExtension)>) -> Option<
    (Seq<char>, MnemonicExtension),
> {
    match r {
        Some((name, extension)) => Some((name@, extension)),
        None => None,
    }
}

/// Exec counterpart of `with_condition`.
fn strip_condition(t: &str, w: bool) -> (r: Option<(String, MnemonicExtension)>)
    ensures
        mnemonic_view(r) == with_condition(t@, w),
{
    let n = t.unicode_len();
    if n <= 2 {
        return None;
    }
    let code = tail_of(t, n - 2);
    let base = head_of(t, n - 2);
    if !is_match(condition_codes(), code) {
        return None;
    }
    let cc = match ConditionCode::from_str(code) {
        Ok(cc) => cc,
        Err(_) => {
            return None;
        },
    };
    if is_instruction(base) {
        Some((base.to_owned(), MnemonicExtension { cc: Some(cc), s: false, w, it_status: ITStatus::OUT }))
    } else if ends_with(base, "s") {
        let shorter = head_of(base, n - 3);
        if is_instruction(shorter) {
            Some(
                (
                    shorter.to_owned(),
                    MnemonicExtension { cc: Some(cc), s: true, w, it_status: ITStatus::OUT },
                ),
            )
        } else {
            None
        }
    } else {
        None
    }
}

/// The mnemonic and the extensions of a token.
pub fn split_mnemonic(token: &str) -> (r: Option<(String, MnemonicExtension)>)
    ensures
        mnemonic_view(r) == mnemonic_of(token@),
        r matches Some((name, extension)) ==> is_instruction_name(name@) && extension.it_status
            == ITStatus::OUT,
{
    if is_instruction(token) {
        return Some((token.to_owned(), MnemonicExtension::new()));
    }
    let w = ends_with(token, ".w");
    proof {
        reveal_strlit(".w");
    }
    let t = if w {
        head_of(token, token.unicode_len() - 2)
    } else {
        token
    };
    if w && is_instruction(t) {
        return Some(
            (t.to_owned(), MnemonicExtension { cc: None, s: false, w: true, it_status: ITStatus::OUT }),
        );
    }
    match strip_condition(t, w) {
        Some(found) => {
            return Some(found);
        },
        None => {},
    }
    let n = t.unicode_len();
    if n > 1 && ends_with(t, "s") {
        let base = head_of(t, n - 1);
        if is_instruction(base) {
            return Some(
                (base.to_owned(), MnemonicExtension { cc: None, s: true, w, it_status: ITStatus::OUT }),
            );
        }
        match strip_condition(base, w) {
            Some((name, extension)) => {
                if extension.s {
                    None
                } else {
                    Some(
                        (
                            name,
                            MnemonicExtension {
                                cc: extension.cc,
                                s: true,
                                w,
                                it_status: ITStatus::OUT,
                            },
                        ),
                    )
                }
            },
            None => None,
        }
    } else {
        None
    }
}

pub open spec fn branch_s_message() -> Seq<char> {
    "A branch instruction cannot have the S flag set."@
}

pub open spec fn invalid_branch_message() -> Seq<char> {
    "Invalid branch instruction."@
}

pub open spec fn invalid_instruction_message() -> Seq<char> {
    "Invalid instruction."@
}

/// The pattern of the word at the end of a line.
pub open spec fn last_word_pattern() -> Seq<char> {
    r"\w+$"@
}

/// The operands of a branch: the label that the name at the end of the line
/// stands for. `shaped` says whether the line has the shape of a branch,
/// `name` is the word at its end.
pub open spec fn branch_operands(
    s: bool,
    shaped: bool,
    name: Option<Seq<char>>,
    table: LabelTable,
) -> Result<Operands, Seq<Seq<char>>> {
    if s {
        Err(one_message(branch_s_message()))
    } else if !shaped {
        Err(one_message(invalid_branch_message()))
    } else {
        match name {
            None => Err(one_message(invalid_branch_message())),
            Some(n) => match table.lookup(n) {
                Some(label) => Ok(Operands::label { label }),
                None => Err(one_message(unknown_label_message(n))),
            },
        }
    }
}

/// The operands of `ldr`: a memory reference as every load takes it, an
/// immediate value, or the index of the string that the name at the end of
/// the line stands for.
pub open spec fn ldr_operands(
    operands: Operands,
    name: Option<Seq<char>>,
    strings: Map<Seq<char>, usize>,
    line: Seq<char>,
) -> Result<Operands, Seq<Seq<char>>> {
    match operands {
        Operands::Rt_imm { .. } => Ok(operands),
        Operands::Rt_label { Rt, .. } => match name {
            Some(n) => if strings.contains_key(n) {
                Ok(Operands::Rt_label { Rt, label: strings[n] })
            } else {
                Err(one_message(invalid_label_message(n)))
            },
            None => Err(one_message(invalid_args_message(line))),
        },
        _ => Operands::memory_checked(operands, line),
    }
}

/// The operands of a line for the instruction of a mnemonic. The branches
/// and `ldr` read the line as it was written, every other instruction reads
/// it in lower case. Nothing for a name that is no mnemonic.
pub open spec fn compiled_operands(
    mnemonic: Seq<char>,
    extension: MnemonicExtension,
    original_line: Seq<char>,
    line: Seq<char>,
    table: LabelTable,
    strings: Map<Seq<char>, usize>,
) -> Option<Result<Operands, Seq<Seq<char>>>> {
    if mnemonic == "b"@ || mnemonic == "bl"@ {
        Some(
            branch_operands(
                extension.s,
                regex_matches(branch_pattern(), original_line),
                regex_first(last_word_pattern(), original_line),
                table,
            ),
        )
    } else if mnemonic == "ldr"@ {
        Some(
            match Operands::parsed(original_line) {
                Err(e) => Err(e),
                Ok(o) => ldr_operands(
                    o,
                    regex_first(last_word_pattern(), original_line),
                    strings,
                    original_line,
                ),
            },
        )
    } else {
        operands_of(mnemonic, extension, line)
    }
}

/// Every string label names a literal of a pool of `pool` strings.
pub open spec fn strings_within(strings: Map<Seq<char>, usize>, pool: nat) -> bool {
    forall|k: Seq<char>| strings.contains_key(k) ==> #[trigger] strings[k] < pool
}

/// Operands that were compiled from label tables within their bounds are
/// within these bounds.
pub proof fn lemma_compiled_operands_within(
    mnemonic: Seq<char>,
    extension: MnemonicExtension,
    original_line: Seq<char>,
    line: Seq<char>,
    table: LabelTable,
    strings: Map<Seq<char>, usize>,
    limit: nat,
    pool: nat,
)
    requires
        table.within(limit),
        strings_within(strings, pool),
    ensures
        compiled_operands(mnemonic, extension, original_line, line, table, strings) matches Some(
            Ok(o),
        ) ==> operands_within(o, limit, pool),
{
    if mnemonic == "b"@ || mnemonic == "bl"@ {
    } else if mnemonic == "ldr"@ {
    } else {
        reveal_strlit("mov");
        reveal_strlit("add");
        reveal_strlit("cmp");
        reveal_strlit("str");
        reveal_strlit("strb");
        reveal_strlit("strh");
        reveal_strlit("ldrb");
        reveal_strlit("ldrh");
        reveal_strlit("ldr");
        reveal_strlit("b");
        reveal_strlit("bl");
    }
}

/// The word at the end of a line.
fn last_word(line: &str) -> (r: Option<String>)
    ensures
        r.deep_view() == regex_first(last_word_pattern(), line@),
{
    find_first(r"\w+$", line)
}

impl Program {
    /// The mnemonic of a line and the extensions attached to it, if the
    /// first word of the line holds a mnemonic. The line is expected in
    /// lower case.
    pub fn find_mnemonic(&self, line: &String) -> (r: Option<(String, MnemonicExtension)>)
        ensures
            mnemonic_view(r) == found_mnemonic(line@),
            r matches Some((name, extension)) ==> is_instruction_name(name@) && extension.it_status
                == ITStatus::OUT,
    {
        let ws = split_words(line.as_str());
        if ws.len() == 0 {
            return None;
        }
        assert(texts(ws@)[0] == ws@[0]@);
        split_mnemonic(ws[0].as_str())
    }

    /// Resolves the label of a branch. `shaped` says whether the line has
    /// the shape of a branch, `name` is the word at its end.
    pub fn resolve_branch(s: bool, shaped: bool, name: Option<String>, labels: &Labels) -> (r:
        Result<Operands, Vec<String>>)
        ensures
            result_view(r) == branch_operands(s, shaped, name.deep_view(), labels@),
            r matches Ok(o) ==> o.registers_valid(),
    {
        if s {
            return Err(
                CompileErr::message(
                    String::from_str("A branch instruction cannot have the S flag set."),
                ),
            );
        }
        if !shaped {
            return Err(CompileErr::message(String::from_str("Invalid branch instruction.")));
        }
        match name {
            None => Err(CompileErr::message(String::from_str("Invalid branch instruction."))),
            Some(n) => match labels.get(n.as_str()) {
                Ok(label) => Ok(Operands::label { label }),
                Err(e) => Err(e),
            },
        }
    }

    /// Compiles a branch instruction.
    pub fn compile_branch_instruction(
        &mut self,
        extension: &MnemonicExtension,
        line: &str,
        labels: &Labels,
    ) -> (r: Result<Operands, Vec<String>>)
        ensures
            result_view(r) == branch_operands(
                extension.s,
                regex_matches(branch_pattern(), line@),
                regex_first(last_word_pattern(), line@),
                labels@,
            ),
            r matches Ok(o) ==> o.registers_valid(),
            final(self)@ == old(self)@,
    {
        let shaped = is_label(line);
        let name = last_word(line);
        Program::resolve_branch(extension.s, shaped, name, labels)
    }

    /// Resolves the operands of `ldr`. `name` is the word at the end of the
    /// line.
    pub fn resolve_ldr(
        operands: Operands,
        name: Option<String>,
        string_labels: &StringHashMap<usize>,
        line: &str,
    ) -> (r: Result<Operands, Vec<String>>)
        requires
            operands.registers_valid(),
        ensures
            result_view(r) == ldr_operands(operands, name.deep_view(), string_labels@, line@),
            r matches Ok(o) ==> o.registers_valid(),
    {
        match operands {
            Operands::Rt_imm { .. } => Ok(operands),
            Operands::Rt_label { Rt, .. } => match name {
                Some(n) => match string_labels.get(n.as_str()) {
                    Some(index) => Ok(Operands::Rt_label { Rt, label: *index }),
                    None => Err(InstructionCompileErr::invalid_label(n.as_str())),
                },
                None => Err(invalid_args(line)),
            },
            _ => Operands::check_memory_operands(operands, line),
        }
    }

    /// Compiles an `ldr` instruction.
    pub fn compile_ldr_instruction(
        &mut self,
        extension: &MnemonicExtension,
        line: &str,
        string_labels: &StringHashMap<usize>,
    ) -> (r: Result<Operands, Vec<String>>)
        ensures
            result_view(r) == (match Operands::parsed(line@) {
                Err(e) => Err(e),
                Ok(o) => ldr_operands(
                    o,
                    regex_first(last_word_pattern(), line@),
                    string_labels@,
                    line@,
                ),
            }),
            r matches Ok(o) ==> o.registers_valid(),
            final(self)@ == old(self)@,
    {
        match Operands::from_str(line) {
            Err(e) => Err(e),
            Ok(operands) => {
                let name = last_word(line);
                Program::resolve_ldr(operands, name, string_labels, line)
            },
        }
    }

    /// Compiles an instruction and appends it to the program; returns the
    /// compile-time errors if the instruction is not valid, and leaves the
    /// program as it is then. `original_line` is the line as it was
    /// written, `line` the same in lower case.
    pub fn compile_instruction(
        &mut self,
        mnemonic: String,
        file_name: &String,
        line_number: usize,
        extension: MnemonicExtension,
        is_breakpoint: bool,
        original_line: &str,
        line: &String,
        labels: &Labels,
        string_labels: &StringHashMap<usize>,
    ) -> (r: Result<(), Vec<String>>)
        ensures
            match compiled_operands(
                mnemonic@,
                extension,
                original_line@,
                line@,
                labels@,
                string_labels@,
            ) {
                Some(Ok(operands)) => r is Ok && final(self)@ == (ProgramView {
                    lines: old(self)@.lines.push(
                        LineView {
                            mnemonic: mnemonic@,
                            file_name: file_name@,
                            line_number: line_number as nat,
                            extension,
                            is_breakpoint,
                            operands,
                        },
                    ),
                    ..old(self)@
                }) && operands.registers_valid() && is_instruction_name(mnemonic@),
                Some(Err(errors)) => r matches Err(e) && texts(e@) == errors && final(self)@
                    == old(self)@,
                None => r matches Err(e) && texts(e@) == one_message(invalid_instruction_message())
                    && final(self)@ == old(self)@,
            },
    {
        let name = mnemonic.as_str();
        let compiled = if str_eq(name, "b") || str_eq(name, "bl") {
            self.compile_branch_instruction(&extension, original_line, labels)
        } else if str_eq(name, "ldr") {
            self.compile_ldr_instruction(&extension, original_line, string_labels)
        } else {
            match read_operands(name, &extension, line.as_str()) {
                Some(read) => read,
                None => {
                    return Err(CompileErr::message(String::from_str("Invalid instruction.")));
                },
            }
        };
        match compiled {
            Err(e) => Err(e),
            Ok(operands) => {
                self.push_line(
                    mnemonic,
                    file_name,
                    line_number,
                    extension,
                    is_breakpoint,
                    operands,
                );
                Ok(())
            },
        }
    }
}

} // verus!
