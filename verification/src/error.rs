//! Compile-time diagnostics, gathered per file and line, the checks that an
//! instruction makes of its operands, and the run-time error messages.
use vstd::prelude::*;
use std::collections::VecDeque;
use crate::arm7::{
    one_message, result_view, unknown_condition_message, ConditionCode, ITStatus, MemSize,
    Operands,
};
use crate::bits::word_index;
use crate::numeral::{decimal, decimal_string};
use crate::text::{
    chars_of, push_text, skip_spaces, skip_word, split_words, texts, words, words_from,
};

verus! {

/// A message with the file and line that it is about in front.
pub open spec fn located(file: Seq<char>, line_number: nat, message: Seq<char>) -> Seq<char> {
    "\""@ + file + "\" line "@ + decimal(line_number) + ": "@ + message
}

/// Each message of a list with the same file and line in front.
pub open spec fn located_all(file: Seq<char>, line_number: nat, messages: Seq<Seq<char>>) -> Seq<
    Seq<char>,
> {
    Seq::new(messages.len(), |i: int| located(file, line_number, messages[i]))
}

/// Exec counterpart of `located`.
pub fn locate(file: &str, line_number: usize, message: &str) -> (r: String)
    ensures
        r@ == located(file@, line_number as nat, message@),
{
    let number = decimal_string(line_number as u64);
    String::from_str("\"").concat(file).concat("\" line ").concat(number.as_str()).concat(
        ": ",
    ).concat(message)
}

/// What a `CompileErr` holds.
pub struct Diagnostics {
    pub errors: Seq<Seq<char>>,
    pub line_number: nat,
    pub current_file: Seq<char>,
}

impl Diagnostics {
    /// The diagnostics with one more message, located at the current file
    /// and line.
    pub open spec fn with_message(self, message: Seq<char>) -> Diagnostics {
        Diagnostics {
            errors: self.errors.push(located(self.current_file, self.line_number, message)),
            ..self
        }
    }
}

/// The compile-time errors gathered so far, with the file and line that the
/// next one will be reported at.
pub struct CompileErr {
    errors: Vec<String>,
    line_number: usize,
    current_file: String,
}

impl View for CompileErr {
    type V = Diagnostics;

    closed spec fn view(&self) -> Diagnostics {
        Diagnostics {
            errors: texts(self.errors@),
            line_number: self.line_number as nat,
            current_file: self.current_file@,
        }
    }
}

pub open spec fn nested_it_message() -> Seq<char> {
    "IT statement cannot be inside another IT block."@
}

pub open spec fn missing_base_message() -> Seq<char> {
    "IT statement must have a base condition."@
}

pub open spec fn too_many_conditions_message() -> Seq<char> {
    "An IT statement can only have conditions for 4 instructions."@
}

pub open spec fn wrong_condition_message() -> Seq<char> {
    "The condition code must be the same or opposite of the IT block's condition code."@
}

pub open spec fn missing_condition_message() -> Seq<char> {
    "Instruction inside an IT block must have a condition code."@
}

/// The conditions that the letters after the `i` of an `IT` mnemonic ask
/// for: the base condition for a `t`, its opposite for any other letter.
pub open spec fn it_conditions(letters: Seq<char>, base: ConditionCode) -> Seq<ConditionCode> {
    Seq::new(
        letters.len(),
        |i: int|
            if letters[i] == 't' {
                base
            } else {
                base.opposite()
            },
    )
}

/// What an `IT` statement does: the message it is refused with, or the
/// conditions that the instructions after it must carry.
pub open spec fn it_statement(pending: Seq<ConditionCode>, line: Seq<char>) -> Result<
    Seq<ConditionCode>,
    Seq<char>,
> {
    let ws = words(line);
    if pending.len() > 0 {
        Err(nested_it_message())
    } else if ws.len() < 2 {
        Err(missing_base_message())
    } else {
        match ConditionCode::named(ws[1]) {
            None => Err(unknown_condition_message(ws[1])),
            Some(base) => if ws[0].len() > 5 {
                Err(too_many_conditions_message())
            } else {
                Ok(it_conditions(ws[0].skip(1), base))
            },
        }
    }
}

/// An `IT` statement is accepted only outside an `IT` block, and then asks
/// for at most four conditions, each of them the base condition or its
/// opposite.
pub proof fn lemma_it_statement(pending: Seq<ConditionCode>, line: Seq<char>)
    ensures
        it_statement(pending, line) matches Ok(conditions) ==> {
            &&& pending.len() == 0
            &&& conditions.len() <= 4
            &&& ConditionCode::named(words(line)[1]) matches Some(base) && forall|i: int|
                0 <= i < conditions.len() ==> #[trigger] conditions[i] == base || conditions[i]
                    == base.opposite()
        },
{
    let ws = words(line);
    if it_statement(pending, line) is Ok {
        let a = skip_spaces(line, 0);
        let b = skip_word(line, a);
        assert(ws.len() >= 2);
        assert(ws == seq![line.subrange(a, b)] + words_from(line, b));
        assert(ws[0] == line.subrange(a, b));
        assert(ws[0].len() >= 1);
    }
}

/// What the next instruction meets in an `IT` block whose pending conditions
/// are `pending`: its place, and the message if its condition is wrong.
pub open spec fn it_check(pending: Seq<ConditionCode>, cc: Option<ConditionCode>) -> (
    ITStatus,
    Option<Seq<char>>,
) {
    if pending.len() == 0 {
        (ITStatus::OUT, None)
    } else {
        let status = if pending.len() == 1 {
            ITStatus::LAST
        } else {
            ITStatus::IN
        };
        match cc {
            None => (status, Some(missing_condition_message())),
            Some(c) => if c == pending[0] || c == pending[0].opposite() {
                (status, None)
            } else {
                (status, Some(wrong_condition_message()))
            },
        }
    }
}

impl CompileErr {
    pub fn new() -> (r: Self)
        ensures
            r@ == (Diagnostics { errors: Seq::empty(), line_number: 1, current_file: "main.s"@ }),
    {
        let r = CompileErr {
            errors: Vec::new(),
            line_number: 1,
            current_file: String::from_str("main.s"),
        };
        assert(texts(r.errors@) =~= Seq::<Seq<char>>::empty());
        r
    }

    /// `Ok` if no error was gathered, else the errors.
    pub fn result(self) -> (r: Result<(), Vec<String>>)
        ensures
            result_view(r) == (if self@.errors.len() == 0 {
                Ok::<(), Seq<Seq<char>>>(())
            } else {
                Err(self@.errors)
            }),
    {
        if self.errors.len() == 0 {
            Ok(())
        } else {
            Err(self.errors)
        }
    }

    /// The errors gathered so far, as a failure.
    pub fn early_return(self) -> (r: Result<(), Vec<String>>)
        ensures
            result_view(r) == Err::<(), Seq<Seq<char>>>(self@.errors),
    {
        Err(self.errors)
    }

    /// Whether no error was gathered.
    pub fn is_clean(&self) -> (r: bool)
        ensures
            r == (self@.errors.len() == 0),
    {
        self.errors.len() == 0
    }

    /// Sets the line of the next messages from the index of the line,
    /// counted from zero.
    pub fn update_line_number(&mut self, line_number: usize)
        requires
            line_number < usize::MAX,
        ensures
            final(self)@ == (Diagnostics { line_number: (line_number + 1) as nat, ..old(self)@ }),
    {
        self.line_number = line_number + 1;
    }

    /// Sets the file of the next messages.
    pub fn update_current_file(&mut self, file_name: String)
        ensures
            final(self)@ == (Diagnostics { current_file: file_name@, ..old(self)@ }),
    {
        self.current_file = file_name;
    }

    /// Adds a message, with the current file and line in front.
    pub fn push_message(&mut self, message: &str)
        ensures
            final(self)@ == old(self)@.with_message(message@),
    {
        let m = locate(self.current_file.as_str(), self.line_number, message);
        push_text(&mut self.errors, m);
    }

    /// Adds a list of messages, each with the current file and line in
    /// front.
    pub fn extend(&mut self, errors: Vec<String>)
        ensures
            final(self)@ == (Diagnostics {
                errors: old(self)@.errors + located_all(
                    old(self)@.current_file,
                    old(self)@.line_number,
                    texts(errors@),
                ),
                ..old(self)@
            }),
    {
        let ghost before = self@;
        let ghost all = located_all(before.current_file, before.line_number, texts(errors@));
        let mut i: usize = 0;
        assert(self@.errors =~= before.errors + all.take(0));
        while i < errors.len()
            invariant
                i <= errors@.len(),
                all == located_all(before.current_file, before.line_number, texts(errors@)),
                self@ == (Diagnostics { errors: before.errors + all.take(i as int), ..before }),
            decreases errors@.len() - i,
        {
            let m = locate(self.current_file.as_str(), self.line_number, errors[i].as_str());
            push_text(&mut self.errors, m);
            assert(before.errors + all.take(i + 1) =~= (before.errors + all.take(i as int)).push(
                m@,
            ));
            i += 1;
        }
        assert(all.take(errors@.len() as int) =~= all);
    }

    /// One message as a list of errors.
    pub fn message(error: String) -> (r: Vec<String>)
        ensures
            texts(r@) == one_message(error@),
    {
        let r = vec![error];
        assert(texts(r@) =~= one_message(error@));
        r
    }

    /// Handles an `IT` statement: fills the queue of pending conditions, or
    /// returns all errors gathered so far with the reason for refusing the
    /// statement at their end. The instructions of a refused block cannot
    /// be checked, so the errors are returned at once.
    pub fn handle_it_instruction(
        self,
        it_block: &mut VecDeque<ConditionCode>,
        line: String,
    ) -> (r: Result<Self, Vec<String>>)
        ensures
            match it_statement(old(it_block)@, line@) {
                Ok(conditions) => r matches Ok(e) && e@ == self@ && final(it_block)@ == conditions,
                Err(m) => r matches Err(errors) && texts(errors@) == self@.with_message(m).errors
                    && final(it_block)@ == old(it_block)@,
            },
    {
        let mut this = self;
        if it_block.len() > 0 {
            this.push_message("IT statement cannot be inside another IT block.");
            return Err(this.errors);
        }
        let ws = split_words(line.as_str());
        if ws.len() < 2 {
            this.push_message("IT statement must have a base condition.");
            return Err(this.errors);
        }
        assert(texts(ws@)[0] == ws@[0]@ && texts(ws@)[1] == ws@[1]@);
        let base = match ConditionCode::from_str(ws[1].as_str()) {
            Ok(cc) => cc,
            Err(err) => {
                this.push_message(err.as_str());
                return Err(this.errors);
            },
        };
        let letters = chars_of(ws[0].as_str());
        if letters.len() > 5 {
            this.push_message("An IT statement can only have conditions for 4 instructions.");
            return Err(this.errors);
        }
        let ghost wanted = it_conditions(letters@.skip(1), base);
        let mut i: usize = 1;
        assert(it_block@ =~= wanted.take(0));
        while i < letters.len()
            invariant
                1 <= i,
                letters@.len() == 0 || i <= letters@.len(),
                wanted == it_conditions(letters@.skip(1), base),
                it_block@ == wanted.take(i - 1),
            decreases letters@.len() - i,
        {
            if letters[i] == 't' {
                it_block.push_back(base);
            } else {
                it_block.push_back(base.opposite_condition());
            }
            assert(wanted.take(i as int) =~= wanted.take(i - 1).push(wanted[i - 1]));
            i += 1;
        }
        assert(wanted.take(wanted.len() as int) =~= wanted);
        Ok(this)
    }

    /// The place of the next instruction with respect to the `IT` block,
    /// taking its condition off the queue; an error is added if the
    /// instruction's condition code is missing or does not fit the block.
    pub fn get_it_status(
        &mut self,
        it_block: &mut VecDeque<ConditionCode>,
        cc: Option<ConditionCode>,
    ) -> (status: ITStatus)
        ensures
            status == it_check(old(it_block)@, cc).0,
            final(it_block)@ == (if old(it_block)@.len() == 0 {
                old(it_block)@
            } else {
                old(it_block)@.skip(1)
            }),
            final(self)@ == (match it_check(old(it_block)@, cc).1 {
                Some(m) => old(self)@.with_message(m),
                None => old(self)@,
            }),
    {
        match it_block.pop_front() {
            Some(correct_cc) => {
                match cc {
                    Some(c) => {
                        if c != correct_cc && c != correct_cc.opposite_condition() {
                            self.push_message(
                                "The condition code must be the same or opposite of the IT block's condition code.",
                            );
                        }
                    },
                    None => {
                        self.push_message(
                            "Instruction inside an IT block must have a condition code.",
                        );
                    },
                }
                if it_block.len() == 0 {
                    ITStatus::LAST
                } else {
                    ITStatus::IN
                }
            },
            None => ITStatus::OUT,
        }
    }
}

pub open spec fn imm8_message() -> Seq<char> {
    "Immediate value must be within 8 bits."@
}

pub open spec fn imm12_message() -> Seq<char> {
    "Immediate value must be within 12 bits."@
}

pub open spec fn sp_message(reg: Seq<char>) -> Seq<char> {
    reg + " is not allowed to be stack pointer."@
}

pub open spec fn pc_message(reg: Seq<char>) -> Seq<char> {
    reg + " is not allowed to be program counter."@
}

pub open spec fn s_extension_message() -> Seq<char> {
    "S extension is not allowed for this instruction."@
}

pub open spec fn left_shift_message() -> Seq<char> {
    "Left shift must be between 0 and 3 bits."@
}

pub open spec fn invalid_label_message(label: Seq<char>) -> Seq<char> {
    "String label \""@ + label + "\" is not defined."@
}

pub open spec fn invalid_args_message(line: Seq<char>) -> Seq<char> {
    "\""@ + line + "\" contains invalid arguments"@
}

pub open spec fn invalid_operands_message() -> Seq<char> {
    "Wrong arguments given."@
}

pub open spec fn out_of_bounds_message(address: u32) -> Seq<char> {
    "Memory address "@ + decimal(address as nat) + " is out of bounds."@
}

/// `list` with `message` at its end if `wrong` holds.
pub open spec fn add_if(list: Seq<Seq<char>>, wrong: bool, message: Seq<char>) -> Seq<Seq<char>> {
    if wrong {
        list.push(message)
    } else {
        list
    }
}

/// The errors that the constraint checks of one instruction have found.
pub struct InstructionCompileErr(Vec<String>);

impl View for InstructionCompileErr {
    type V = Seq<Seq<char>>;

    closed spec fn view(&self) -> Seq<Seq<char>> {
        texts(self.0@)
    }
}

impl InstructionCompileErr {
    pub fn new() -> (r: Self)
        ensures
            r@ == Seq::<Seq<char>>::empty(),
    {
        let r = InstructionCompileErr(Vec::new());
        assert(texts(r.0@) =~= Seq::<Seq<char>>::empty());
        r
    }

    /// The operands if no check failed, else the errors.
    pub fn result(self, operands: Operands) -> (r: Result<Operands, Vec<String>>)
        ensures
            result_view(r) == (if self@.len() == 0 {
                Ok::<Operands, Seq<Seq<char>>>(operands)
            } else {
                Err(self@)
            }),
    {
        if self.0.len() == 0 {
            Ok(operands)
        } else {
            Err(self.0)
        }
    }

    /// An error if the immediate value does not fit 8 bits.
    pub fn check_imm8(&mut self, immed: u32)
        ensures
            final(self)@ == add_if(old(self)@, immed > 255, imm8_message()),
    {
        if immed > 255 {
            push_text(&mut self.0, String::from_str("Immediate value must be within 8 bits."));
        }
    }

    /// An error if the immediate value does not fit 12 bits.
    pub fn check_imm12(&mut self, immed: u32)
        ensures
            final(self)@ == add_if(old(self)@, immed > 4095, imm12_message()),
    {
        if immed > 4095 {
            push_text(&mut self.0, String::from_str("Immediate value must be within 12 bits."));
        }
    }

    /// An error if the register is the stack pointer; `reg` is the name of
    /// the operand (`Rd`, `Rm`, ...).
    pub fn check_sp(&mut self, r: u8, reg: &str)
        ensures
            final(self)@ == add_if(old(self)@, r == 13, sp_message(reg@)),
    {
        if r == 13 {
            push_text(
                &mut self.0,
                String::from_str(reg).concat(" is not allowed to be stack pointer."),
            );
        }
    }

    /// An error if the register is the program counter.
    pub fn check_pc(&mut self, r: u8, reg: &str)
        ensures
            final(self)@ == add_if(old(self)@, r == 15, pc_message(reg@)),
    {
        if r == 15 {
            push_text(
                &mut self.0,
                String::from_str(reg).concat(" is not allowed to be program counter."),
            );
        }
    }

    /// An error if the register is the program counter or the stack
    /// pointer.
    pub fn check_sp_or_pc(&mut self, r: u8, reg: &str)
        ensures
            final(self)@ == add_if(
                add_if(old(self)@, r == 15, pc_message(reg@)),
                r == 13,
                sp_message(reg@),
            ),
    {
        self.check_pc(r, reg);
        self.check_sp(r, reg);
    }

    /// An error if the `s` flag is set.
    pub fn invalid_s_extension(&mut self, s: bool)
        ensures
            final(self)@ == add_if(old(self)@, s, s_extension_message()),
    {
        if s {
            push_text(
                &mut self.0,
                String::from_str("S extension is not allowed for this instruction."),
            );
        }
    }

    /// An error if a left shift of a register offset is given and is more
    /// than 3 bits.
    pub fn check_mem_left_shift(&mut self, shift: Option<u8>)
        ensures
            final(self)@ == add_if(
                old(self)@,
                shift matches Some(k) && k > 3,
                left_shift_message(),
            ),
    {
        match shift {
            Some(k) => {
                if k > 3 {
                    push_text(
                        &mut self.0,
                        String::from_str("Left shift must be between 0 and 3 bits."),
                    );
                }
            },
            None => {},
        }
    }

    /// The error for a label that names no string.
    pub fn invalid_label(label: &str) -> (r: Vec<String>)
        ensures
            texts(r@) == one_message(invalid_label_message(label@)),
    {
        let m = String::from_str("String label \"").concat(label).concat("\" is not defined.");
        let r = vec![m];
        assert(texts(r@) =~= one_message(invalid_label_message(label@)));
        r
    }
}

/// The error for operands that do not fit the instruction.
pub fn invalid_args(line: &str) -> (r: Vec<String>)
    ensures
        texts(r@) == one_message(invalid_args_message(line@)),
{
    let m = String::from_str("\"").concat(line).concat("\" contains invalid arguments");
    let r = vec![m];
    assert(texts(r@) =~= one_message(invalid_args_message(line@)));
    r
}

/// The run-time error for operands of a shape that the instruction does not
/// take.
pub fn invalid_operands() -> (r: String)
    ensures
        r@ == invalid_operands_message(),
{
    String::from_str("Wrong arguments given.")
}

/// Whether an access of `size` bytes at `address` lies within a memory of
/// `len` bytes.
pub open spec fn in_bounds(address: u32, len: nat, size: MemSize) -> bool {
    address + size.size() <= len
}

/// The address as an index if the whole access lies within memory, else the
/// run-time error.
pub fn check_memory_bounds(address: u32, len: usize, size: MemSize) -> (r: Result<usize, String>)
    ensures
        match r {
            Ok(a) => in_bounds(address, len as nat, size) && a == address,
            Err(e) => !in_bounds(address, len as nat, size) && e@ == out_of_bounds_message(address),
        },
{
    let a = word_index(address);
    let n = size.bytes();
    if n <= len && a <= len - n {
        Ok(a)
    } else {
        let number = decimal_string(address as u64);
        Err(
            String::from_str("Memory address ").concat(number.as_str()).concat(
                " is out of bounds.",
            ),
        )
    }
}

} // verus!
