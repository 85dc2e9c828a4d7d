//! The instruction set: for each mnemonic, what operands it accepts and what
//! executing it does to the machine.
use vstd::prelude::*;
use crate::arm7::{
    one_message, result_view, Label, Machine, MemSize, MnemonicExtension, Operands, Outcome,
    Processor,
};
use crate::bits::{
    fits_signed, index_of, low_word, signed, to_signed, wrap32, wrapping_difference, wrapping_sum,
};
use crate::error::{
    add_if, imm12_message, imm8_message, invalid_args, invalid_args_message, invalid_operands,
    invalid_operands_message, pc_message, s_extension_message, sp_message, InstructionCompileErr,
};
use crate::text::{push_text, str_eq, texts};
use crate::utils::{load_bytes, load_outcome, set_nz_flags, store_bytes, store_outcome};

verus! {

/// The mnemonics of the instruction set.
pub open spec fn instruction_names() -> Seq<Seq<char>> {
    seq![
        "mov"@,
        "add"@,
        "cmp"@,
        "b"@,
        "bl"@,
        "strb"@,
        "strh"@,
        "str"@,
        "ldrb"@,
        "ldrh"@,
        "ldr"@,
    ]
}

/// Whether a name is the mnemonic of an instruction.
pub open spec fn is_instruction_name(name: Seq<char>) -> bool {
    name == "mov"@ || name == "add"@ || name == "cmp"@ || name == "b"@ || name == "bl"@ || name
        == "strb"@ || name == "strh"@ || name == "str"@ || name == "ldrb"@ || name == "ldrh"@
        || name == "ldr"@
}

/// The mnemonics of all instructions.
pub fn all_instructions() -> (r: Vec<String>)
    ensures
        texts(r@) == instruction_names(),
{
    let mut r: Vec<String> = Vec::new();
    assert(texts(r@) =~= Seq::<Seq<char>>::empty());
    push_text(&mut r, String::from_str("mov"));
    push_text(&mut r, String::from_str("add"));
    push_text(&mut r, String::from_str("cmp"));
    push_text(&mut r, String::from_str("b"));
    push_text(&mut r, String::from_str("bl"));
    push_text(&mut r, String::from_str("strb"));
    push_text(&mut r, String::from_str("strh"));
    push_text(&mut r, String::from_str("str"));
    push_text(&mut r, String::from_str("ldrb"));
    push_text(&mut r, String::from_str("ldrh"));
    push_text(&mut r, String::from_str("ldr"));
    assert(texts(r@) =~= instruction_names());
    r
}

/// Whether a name is the mnemonic of an instruction.
pub fn is_instruction(name: &str) -> (r: bool)
    ensures
        r == is_instruction_name(name@),
{
    str_eq(name, "mov") || str_eq(name, "add") || str_eq(name, "cmp") || str_eq(name, "b")
        || str_eq(name, "bl") || str_eq(name, "strb") || str_eq(name, "strh") || str_eq(
        name,
        "str",
    ) || str_eq(name, "ldrb") || str_eq(name, "ldrh") || str_eq(name, "ldr")
}

/// The operands that a line gives an instruction which checks what it reads:
/// the errors of reading the line, or what the check makes of the bundle.
pub open spec fn read_then(
    line: Seq<char>,
    check: spec_fn(Operands) -> Result<Operands, Seq<Seq<char>>>,
) -> Result<Operands, Seq<Seq<char>>> {
    match Operands::parsed(line) {
        Err(e) => Err(e),
        Ok(o) => check(o),
    }
}

/// The bundle if no check failed, else the errors.
pub open spec fn unless_errors(operands: Operands, errors: Seq<Seq<char>>) -> Result<
    Operands,
    Seq<Seq<char>>,
> {
    if errors.len() == 0 {
        Ok(operands)
    } else {
        Err(errors)
    }
}

/// An instruction: its mnemonic, the operands that it accepts at compile
/// time, and what it does at run time.
pub trait Instruction {
    /// The mnemonic, in lower case.
    spec fn name(&self) -> Seq<char>;

    /// What `get_operands` makes of a line.
    spec fn operands_for(&self, extension: MnemonicExtension, line: Seq<char>) -> Result<
        Operands,
        Seq<Seq<char>>,
    >;

    /// What `execute` does.
    spec fn outcome(&self, s_suffix: bool, operands: Operands, m: Machine) -> Outcome;

    fn mnemonic(&self) -> (r: &'static str)
        ensures
            r@ == self.name(),
    ;

    /// Reads and checks the operands of a line for this instruction.
    fn get_operands(&self, extension: &MnemonicExtension, line: &str) -> (r: Result<
        Operands,
        Vec<String>,
    >)
        ensures
            result_view(r) == self.operands_for(*extension, line@),
            r matches Ok(o) ==> o.registers_valid(),
    ;

    /// Executes the instruction on the processor.
    fn execute(&self, s_suffix: bool, operands: &Operands, chip: &mut Processor) -> (r: Result<
        (),
        String,
    >)
        requires
            operands.registers_valid(),
        ensures
            final(chip)@ == self.outcome(s_suffix, *operands, old(chip)@).machine,
            self.outcome(s_suffix, *operands, old(chip)@).reported_by(r),
    ;
}

/// The machine after a value went to a register, with `N` and `Z` set from
/// the value if the `s` flag asks for it.
pub open spec fn moved(s_suffix: bool, rd: u8, value: u32, m: Machine) -> Machine {
    (if s_suffix {
        m.with_nz(value)
    } else {
        m
    }).with_register(rd as int, value)
}

/// The machine after the sum of `a` and `b` went to a register. With the `s`
/// flag, `N` and `Z` are set from the sum, `C` says whether the unsigned sum
/// overflows, and `V` whether the signed sum does.
pub open spec fn added(s_suffix: bool, rd: u8, a: u32, b: u32, m: Machine) -> Machine {
    (if s_suffix {
        Machine {
            C: a + b >= 0x1_0000_0000,
            V: !fits_signed(signed(a) + signed(b)),
            ..m.with_nz(wrap32(a + b))
        }
    } else {
        m
    }).with_register(rd as int, wrap32(a + b))
}

/// The machine after `a` was compared with `b`: the flags are those of the
/// difference, which is thrown away. `C` says that there was no borrow, `V`
/// that the signed difference overflows.
pub open spec fn compared(a: u32, b: u32, m: Machine) -> Machine {
    Machine { C: a >= b, V: !fits_signed(signed(a) - signed(b)), ..m.with_nz(wrap32(a - b)) }
}

/// `mov`: moves an immediate value or a register to a register.
pub struct MOV;

impl MOV {
    /// What `mov` accepts: an immediate value of at most 12 bits or a
    /// register, and no stack pointer or program counter.
    pub open spec fn checked(operands: Operands, line: Seq<char>) -> Result<
        Operands,
        Seq<Seq<char>>,
    > {
        match operands {
            Operands::Rd_immed { Rd, immed } => unless_errors(
                operands,
                add_if(
                    add_if(
                        add_if(Seq::empty(), Rd == 15, pc_message("Rd"@)),
                        Rd == 13,
                        sp_message("Rd"@),
                    ),
                    immed > 4095,
                    imm12_message(),
                ),
            ),
            Operands::Rd_Rm { Rd, Rm, .. } => unless_errors(
                operands,
                add_if(
                    add_if(
                        add_if(
                            add_if(Seq::empty(), Rd == 15, pc_message("Rd"@)),
                            Rd == 13,
                            sp_message("Rd"@),
                        ),
                        Rm == 15,
                        pc_message("Rm"@),
                    ),
                    Rm == 13,
                    sp_message("Rm"@),
                ),
            ),
            _ => Err(one_message(invalid_args_message(line))),
        }
    }

    /// The value that `mov` moves.
    pub open spec fn transferred(operands: Operands, m: Machine) -> Option<u32> {
        match operands {
            Operands::Rd_immed { immed, .. } => Some(immed),
            Operands::Rd_Rm { Rm, .. } => Some(m.R[Rm as int]),
            _ => None,
        }
    }

    /// Checks a bundle for `mov`.
    pub fn check_operands(operands: Operands, line: &str) -> (r: Result<Operands, Vec<String>>)
        ensures
            result_view(r) == MOV::checked(operands, line@),
            r matches Ok(o) ==> o == operands,
    {
        let mut errors = InstructionCompileErr::new();
        match operands {
            Operands::Rd_immed { Rd, immed } => {
                errors.check_sp_or_pc(Rd, "Rd");
                errors.check_imm12(immed);
            },
            Operands::Rd_Rm { Rd, Rm, .. } => {
                errors.check_sp_or_pc(Rd, "Rd");
                errors.check_sp_or_pc(Rm, "Rm");
            },
            _ => {
                return Err(invalid_args(line));
            },
        }
        errors.result(operands)
    }
}

impl Instruction for MOV {
    open spec fn name(&self) -> Seq<char> {
        "mov"@
    }

    open spec fn operands_for(&self, extension: MnemonicExtension, line: Seq<char>) -> Result<
        Operands,
        Seq<Seq<char>>,
    > {
        read_then(line, |o: Operands| MOV::checked(o, line))
    }

    open spec fn outcome(&self, s_suffix: bool, operands: Operands, m: Machine) -> Outcome {
        match operands {
            Operands::Rd_immed { Rd, immed } => Outcome::done(moved(s_suffix, Rd, immed, m)),
            Operands::Rd_Rm { Rd, Rm, .. } => Outcome::done(
                moved(s_suffix, Rd, m.R[Rm as int], m),
            ),
            _ => Outcome::failed(m, invalid_operands_message()),
        }
    }

    fn mnemonic(&self) -> (r: &'static str) {
        "mov"
    }

    fn get_operands(&self, extension: &MnemonicExtension, line: &str) -> (r: Result<
        Operands,
        Vec<String>,
    >) {
        match Operands::from_str(line) {
            Err(e) => Err(e),
            Ok(operands) => MOV::check_operands(operands, line),
        }
    }

    fn execute(&self, s_suffix: bool, operands: &Operands, chip: &mut Processor) -> (r: Result<
        (),
        String,
    >) {
        let (index, value) = match *operands {
            Operands::Rd_immed { Rd, immed } => (index_of(Rd), immed),
            Operands::Rd_Rm { Rd, Rm, .. } => (index_of(Rd), chip.R[index_of(Rm)]),
            _ => {
                return Err(invalid_operands());
            },
        };
        if s_suffix {
            set_nz_flags(value, chip);
        }
        chip.R[index] = value;
        Ok(())
    }
}

/// `add`: adds an immediate value or a register to a register.
pub struct ADD;

impl ADD {
    /// What `add` accepts: two or three operands, the last a register or an
    /// immediate value of at most 12 bits.
    pub open spec fn checked(operands: Operands, line: Seq<char>) -> Result<
        Operands,
        Seq<Seq<char>>,
    > {
        match operands {
            Operands::Rd_immed { immed, .. } => unless_errors(
                operands,
                add_if(Seq::empty(), immed > 4095, imm12_message()),
            ),
            Operands::Rd_Rm { .. } => Ok(operands),
            Operands::Rd_Rn_Rm { .. } => Ok(operands),
            Operands::Rd_Rn_immed { immed, .. } => unless_errors(
                operands,
                add_if(Seq::empty(), immed > 4095, imm12_message()),
            ),
            _ => Err(one_message(invalid_args_message(line))),
        }
    }

    /// The register that gets the sum, and the two numbers that are added.
    pub open spec fn terms(operands: Operands, m: Machine) -> Option<(u8, u32, u32)> {
        match operands {
            Operands::Rd_immed { Rd, immed } => Some((Rd, m.R[Rd as int], immed)),
            Operands::Rd_Rm { Rd, Rm, .. } => Some((Rd, m.R[Rd as int], m.R[Rm as int])),
            Operands::Rd_Rn_immed { Rd, Rn, immed } => Some((Rd, m.R[Rn as int], immed)),
            Operands::Rd_Rn_Rm { Rd, Rn, Rm, .. } => Some((Rd, m.R[Rn as int], m.R[Rm as int])),
            _ => None,
        }
    }

    /// Checks a bundle for `add`.
    pub fn check_operands(operands: Operands, line: &str) -> (r: Result<Operands, Vec<String>>)
        ensures
            result_view(r) == ADD::checked(operands, line@),
            r matches Ok(o) ==> o == operands,
    {
        let mut errors = InstructionCompileErr::new();
        match operands {
            Operands::Rd_immed { immed, .. } => {
                errors.check_imm12(immed);
            },
            Operands::Rd_Rm { .. } => {},
            Operands::Rd_Rn_Rm { .. } => {},
            Operands::Rd_Rn_immed { immed, .. } => {
                errors.check_imm12(immed);
            },
            _ => {
                return Err(invalid_args(line));
            },
        }
        errors.result(operands)
    }
}

impl Instruction for ADD {
    open spec fn name(&self) -> Seq<char> {
        "add"@
    }

    open spec fn operands_for(&self, extension: MnemonicExtension, line: Seq<char>) -> Result<
        Operands,
        Seq<Seq<char>>,
    > {
        read_then(line, |o: Operands| ADD::checked(o, line))
    }

    open spec fn outcome(&self, s_suffix: bool, operands: Operands, m: Machine) -> Outcome {
        match ADD::terms(operands, m) {
            Some((rd, a, b)) => Outcome::done(added(s_suffix, rd, a, b, m)),
            None => Outcome::failed(m, invalid_operands_message()),
        }
    }

    fn mnemonic(&self) -> (r: &'static str) {
        "add"
    }

    fn get_operands(&self, extension: &MnemonicExtension, line: &str) -> (r: Result<
        Operands,
        Vec<String>,
    >) {
        match Operands::from_str(line) {
            Err(e) => Err(e),
            Ok(operands) => ADD::check_operands(operands, line),
        }
    }

    fn execute(&self, s_suffix: bool, operands: &Operands, chip: &mut Processor) -> (r: Result<
        (),
        String,
    >) {
        let (index, a, b) = match *operands {
            Operands::Rd_immed { Rd, immed } => (index_of(Rd), chip.R[index_of(Rd)], immed),
            Operands::Rd_Rm { Rd, Rm, .. } => (
                index_of(Rd),
                chip.R[index_of(Rd)],
                chip.R[index_of(Rm)],
            ),
            Operands::Rd_Rn_immed { Rd, Rn, immed } => (index_of(Rd), chip.R[index_of(Rn)], immed),
            Operands::Rd_Rn_Rm { Rd, Rn, Rm, .. } => (
                index_of(Rd),
                chip.R[index_of(Rn)],
                chip.R[index_of(Rm)],
            ),
            _ => {
                return Err(invalid_operands());
            },
        };
        let rd = wrapping_sum(a, b);
        if s_suffix {
            set_nz_flags(rd, chip);
            chip.C = a > u32::MAX - b;
            let wide: i64 = to_signed(a) + to_signed(b);
            chip.V = wide < -0x8000_0000 || wide > 0x7FFF_FFFF;
        }
        chip.R[index] = rd;
        Ok(())
    }
}

/// `cmp`: compares a register with an immediate value or a register.
pub struct CMP;

impl CMP {
    /// What `cmp` accepts: a register that is not the program counter,
    /// compared with an immediate value of at most 8 bits (any, with `.w`)
    /// or with a register that is neither the program counter nor the stack
    /// pointer; and no `s` flag.
    pub open spec fn checked(
        extension: MnemonicExtension,
        operands: Operands,
        line: Seq<char>,
    ) -> Result<Operands, Seq<Seq<char>>> {
        let start = add_if(Seq::empty(), extension.s, s_extension_message());
        match operands {
            Operands::Rd_immed { Rd, immed } => unless_errors(
                operands,
                add_if(
                    add_if(start, !extension.w && immed > 255, imm8_message()),
                    Rd == 15,
                    pc_message("Rd"@),
                ),
            ),
            Operands::Rd_Rm { Rd, Rm, .. } => unless_errors(
                operands,
                add_if(
                    add_if(add_if(start, Rd == 15, pc_message("Rd"@)), Rm == 15, pc_message("Rm"@)),
                    Rm == 13,
                    sp_message("Rm"@),
                ),
            ),
            _ => Err(one_message(invalid_args_message(line))),
        }
    }

    /// The two numbers that are compared.
    pub open spec fn terms(operands: Operands, m: Machine) -> Option<(u32, u32)> {
        match operands {
            Operands::Rd_immed { Rd, immed } => Some((m.R[Rd as int], immed)),
            Operands::Rd_Rm { Rd, Rm, .. } => Some((m.R[Rd as int], m.R[Rm as int])),
            _ => None,
        }
    }

    /// Checks a bundle for `cmp`.
    pub fn check_operands(extension: &MnemonicExtension, operands: Operands, line: &str) -> (r:
        Result<Operands, Vec<String>>)
        ensures
            result_view(r) == CMP::checked(*extension, operands, line@),
            r matches Ok(o) ==> o == operands,
    {
        let mut errors = InstructionCompileErr::new();
        errors.invalid_s_extension(extension.s);
        match operands {
            Operands::Rd_immed { Rd, immed } => {
                if !extension.w {
                    errors.check_imm8(immed);
                }
                errors.check_pc(Rd, "Rd");
            },
            Operands::Rd_Rm { Rd, Rm, .. } => {
                errors.check_pc(Rd, "Rd");
                errors.check_sp_or_pc(Rm, "Rm");
            },
            _ => {
                return Err(invalid_args(line));
            },
        }
        errors.result(operands)
    }
}

impl Instruction for CMP {
    open spec fn name(&self) -> Seq<char> {
        "cmp"@
    }

    open spec fn operands_for(&self, extension: MnemonicExtension, line: Seq<char>) -> Result<
        Operands,
        Seq<Seq<char>>,
    > {
        read_then(line, |o: Operands| CMP::checked(extension, o, line))
    }

    open spec fn outcome(&self, s_suffix: bool, operands: Operands, m: Machine) -> Outcome {
        match CMP::terms(operands, m) {
            Some((a, b)) => Outcome::done(compared(a, b, m)),
            None => Outcome::failed(m, invalid_operands_message()),
        }
    }

    fn mnemonic(&self) -> (r: &'static str) {
        "cmp"
    }

    fn get_operands(&self, extension: &MnemonicExtension, line: &str) -> (r: Result<
        Operands,
        Vec<String>,
    >) {
        match Operands::from_str(line) {
            Err(e) => Err(e),
            Ok(operands) => CMP::check_operands(extension, operands, line),
        }
    }

    fn execute(&self, s_suffix: bool, operands: &Operands, chip: &mut Processor) -> (r: Result<
        (),
        String,
    >) {
        let (a, b) = match *operands {
            Operands::Rd_immed { Rd, immed } => (chip.R[index_of(Rd)], immed),
            Operands::Rd_Rm { Rd, Rm, .. } => (chip.R[index_of(Rd)], chip.R[index_of(Rm)]),
            _ => {
                return Err(invalid_operands());
            },
        };
        let c = wrapping_difference(a, b);
        set_nz_flags(c, chip);
        chip.C = a >= b;
        let wide: i64 = to_signed(a) - to_signed(b);
        chip.V = wide < -0x8000_0000 || wide > 0x7FFF_FFFF;
        Ok(())
    }
}

/// The bundle that the branch instructions report for any line: they are
/// compiled from the label table instead.
pub open spec fn branch_placeholder() -> Operands {
    Operands::label { label: Label::Index(0) }
}

/// `b`: branches to a label.
pub struct B;

impl Instruction for B {
    open spec fn name(&self) -> Seq<char> {
        "b"@
    }

    open spec fn operands_for(&self, extension: MnemonicExtension, line: Seq<char>) -> Result<
        Operands,
        Seq<Seq<char>>,
    > {
        Ok(branch_placeholder())
    }

    /// A branch to a line sets the program counter; a branch to a predefined
    /// subroutine leaves the machine alone.
    open spec fn outcome(&self, s_suffix: bool, operands: Operands, m: Machine) -> Outcome {
        match operands {
            Operands::label { label } => match label {
                Label::Index(i) => Outcome::done(m.with_register(15, wrap32(i as int))),
                _ => Outcome::done(m),
            },
            _ => Outcome::failed(m, invalid_operands_message()),
        }
    }

    fn mnemonic(&self) -> (r: &'static str) {
        "b"
    }

    fn get_operands(&self, extension: &MnemonicExtension, line: &str) -> (r: Result<
        Operands,
        Vec<String>,
    >) {
        Ok(Operands::label { label: Label::Index(0) })
    }

    fn execute(&self, s_suffix: bool, operands: &Operands, chip: &mut Processor) -> (r: Result<
        (),
        String,
    >) {
        match *operands {
            Operands::label { label } => match label {
                Label::Index(i) => {
                    chip.R[15] = low_word(i);
                },
                _ => {},
            },
            _ => {
                return Err(invalid_operands());
            },
        }
        Ok(())
    }
}

/// `bl`: branches to a label and keeps the address to return to.
pub struct BL;

impl Instruction for BL {
    open spec fn name(&self) -> Seq<char> {
        "bl"@
    }

    open spec fn operands_for(&self, extension: MnemonicExtension, line: Seq<char>) -> Result<
        Operands,
        Seq<Seq<char>>,
    > {
        Ok(branch_placeholder())
    }

    /// The link register gets the program counter, which holds the address
    /// of the next line; a branch to a line then sets the program counter.
    open spec fn outcome(&self, s_suffix: bool, operands: Operands, m: Machine) -> Outcome {
        match operands {
            Operands::label { label } => match label {
                Label::Index(i) => Outcome::done(
                    m.with_register(14, m.R[15]).with_register(15, wrap32(i as int)),
                ),
                _ => Outcome::done(m.with_register(14, m.R[15])),
            },
            _ => Outcome::failed(m, invalid_operands_message()),
        }
    }

    fn mnemonic(&self) -> (r: &'static str) {
        "bl"
    }

    fn get_operands(&self, extension: &MnemonicExtension, line: &str) -> (r: Result<
        Operands,
        Vec<String>,
    >) {
        Ok(Operands::label { label: Label::Index(0) })
    }

    fn execute(&self, s_suffix: bool, operands: &Operands, chip: &mut Processor) -> (r: Result<
        (),
        String,
    >) {
        match *operands {
            Operands::label { label } => {
                chip.R[14] = chip.R[15];
                match label {
                    Label::Index(i) => {
                        chip.R[15] = low_word(i);
                    },
                    _ => {},
                }
            },
            _ => {
                return Err(invalid_operands());
            },
        }
        Ok(())
    }
}

/// What a line gives a memory instruction.
pub open spec fn memory_operands_for(line: Seq<char>) -> Result<Operands, Seq<Seq<char>>> {
    read_then(line, |o: Operands| Operands::memory_checked(o, line))
}

/// `strb`: stores the low byte of a register.
pub struct STRB;

impl Instruction for STRB {
    open spec fn name(&self) -> Seq<char> {
        "strb"@
    }

    open spec fn operands_for(&self, extension: MnemonicExtension, line: Seq<char>) -> Result<
        Operands,
        Seq<Seq<char>>,
    > {
        memory_operands_for(line)
    }

    open spec fn outcome(&self, s_suffix: bool, operands: Operands, m: Machine) -> Outcome {
        store_outcome(operands, m, MemSize::BYTE)
    }

    fn mnemonic(&self) -> (r: &'static str) {
        "strb"
    }

    fn get_operands(&self, extension: &MnemonicExtension, line: &str) -> (r: Result<
        Operands,
        Vec<String>,
    >) {
        Operands::is_memory_operands(line)
    }

    fn execute(&self, s_suffix: bool, operands: &Operands, chip: &mut Processor) -> (r: Result<
        (),
        String,
    >) {
        store_bytes(operands, chip, MemSize::BYTE)
    }
}

/// `strh`: stores the low halfword of a register.
pub struct STRH;

impl Instruction for STRH {
    open spec fn name(&self) -> Seq<char> {
        "strh"@
    }

    open spec fn operands_for(&self, extension: MnemonicExtension, line: Seq<char>) -> Result<
        Operands,
        Seq<Seq<char>>,
    > {
        memory_operands_for(line)
    }

    open spec fn outcome(&self, s_suffix: bool, operands: Operands, m: Machine) -> Outcome {
        store_outcome(operands, m, MemSize::HALFWORD)
    }

    fn mnemonic(&self) -> (r: &'static str) {
        "strh"
    }

    fn get_operands(&self, extension: &MnemonicExtension, line: &str) -> (r: Result<
        Operands,
        Vec<String>,
    >) {
        Operands::is_memory_operands(line)
    }

    fn execute(&self, s_suffix: bool, operands: &Operands, chip: &mut Processor) -> (r: Result<
        (),
        String,
    >) {
        store_bytes(operands, chip, MemSize::HALFWORD)
    }
}

/// `str`: stores a register.
pub struct STR;

impl Instruction for STR {
    open spec fn name(&self) -> Seq<char> {
        "str"@
    }

    open spec fn operands_for(&self, extension: MnemonicExtension, line: Seq<char>) -> Result<
        Operands,
        Seq<Seq<char>>,
    > {
        memory_operands_for(line)
    }

    open spec fn outcome(&self, s_suffix: bool, operands: Operands, m: Machine) -> Outcome {
        store_outcome(operands, m, MemSize::WORD)
    }

    fn mnemonic(&self) -> (r: &'static str) {
        "str"
    }

    fn get_operands(&self, extension: &MnemonicExtension, line: &str) -> (r: Result<
        Operands,
        Vec<String>,
    >) {
        Operands::is_memory_operands(line)
    }

    fn execute(&self, s_suffix: bool, operands: &Operands, chip: &mut Processor) -> (r: Result<
        (),
        String,
    >) {
        store_bytes(operands, chip, MemSize::WORD)
    }
}

/// `ldrb`: loads a byte.
pub struct LDRB;

impl Instruction for LDRB {
    open spec fn name(&self) -> Seq<char> {
        "ldrb"@
    }

    open spec fn operands_for(&self, extension: MnemonicExtension, line: Seq<char>) -> Result<
        Operands,
        Seq<Seq<char>>,
    > {
        memory_operands_for(line)
    }

    open spec fn outcome(&self, s_suffix: bool, operands: Operands, m: Machine) -> Outcome {
        load_outcome(operands, m, MemSize::BYTE)
    }

    fn mnemonic(&self) -> (r: &'static str) {
        "ldrb"
    }

    fn get_operands(&self, extension: &MnemonicExtension, line: &str) -> (r: Result<
        Operands,
        Vec<String>,
    >) {
        Operands::is_memory_operands(line)
    }

    fn execute(&self, s_suffix: bool, operands: &Operands, chip: &mut Processor) -> (r: Result<
        (),
        String,
    >) {
        load_bytes(operands, chip, MemSize::BYTE)
    }
}

/// `ldrh`: loads a halfword.
pub struct LDRH;

impl Instruction for LDRH {
    open spec fn name(&self) -> Seq<char> {
        "ldrh"@
    }

    open spec fn operands_for(&self, extension: MnemonicExtension, line: Seq<char>) -> Result<
        Operands,
        Seq<Seq<char>>,
    > {
        memory_operands_for(line)
    }

    open spec fn outcome(&self, s_suffix: bool, operands: Operands, m: Machine) -> Outcome {
        load_outcome(operands, m, MemSize::HALFWORD)
    }

    fn mnemonic(&self) -> (r: &'static str) {
        "ldrh"
    }

    fn get_operands(&self, extension: &MnemonicExtension, line: &str) -> (r: Result<
        Operands,
        Vec<String>,
    >) {
        Operands::is_memory_operands(line)
    }

    fn execute(&self, s_suffix: bool, operands: &Operands, chip: &mut Processor) -> (r: Result<
        (),
        String,
    >) {
        load_bytes(operands, chip, MemSize::HALFWORD)
    }
}

/// `ldr`: loads a word, the index of a string, or an immediate value.
pub struct LDR;

impl Instruction for LDR {
    open spec fn name(&self) -> Seq<char> {
        "ldr"@
    }

    open spec fn operands_for(&self, extension: MnemonicExtension, line: Seq<char>) -> Result<
        Operands,
        Seq<Seq<char>>,
    > {
        memory_operands_for(line)
    }

    /// `ldr Rt, =label` loads the index of a string, `ldr Rt, =#imm` the
    /// value itself, and every other form a word from memory.
    open spec fn outcome(&self, s_suffix: bool, operands: Operands, m: Machine) -> Outcome {
        match operands {
            Operands::Rt_label { Rt, label } => Outcome::done(
                m.with_register(Rt as int, wrap32(label as int)),
            ),
            Operands::Rt_imm { Rt, label } => Outcome::done(m.with_register(Rt as int, label)),
            _ => load_outcome(operands, m, MemSize::WORD),
        }
    }

    fn mnemonic(&self) -> (r: &'static str) {
        "ldr"
    }

    fn get_operands(&self, extension: &MnemonicExtension, line: &str) -> (r: Result<
        Operands,
        Vec<String>,
    >) {
        Operands::is_memory_operands(line)
    }

    fn execute(&self, s_suffix: bool, operands: &Operands, chip: &mut Processor) -> (r: Result<
        (),
        String,
    >) {
        match *operands {
            Operands::Rt_label { Rt, label } => {
                chip.R[index_of(Rt)] = low_word(label);
                Ok(())
            },
            Operands::Rt_imm { Rt, label } => {
                chip.R[index_of(Rt)] = label;
                Ok(())
            },
            _ => load_bytes(operands, chip, MemSize::WORD),
        }
    }
}

/// What the instruction of a mnemonic does; a name that is no mnemonic does
/// nothing.
pub open spec fn outcome_of(name: Seq<char>, s_suffix: bool, operands: Operands, m: Machine) -> Outcome {
    if name == "mov"@ {
        MOV.outcome(s_suffix, operands, m)
    } else if name == "add"@ {
        ADD.outcome(s_suffix, operands, m)
    } else if name == "cmp"@ {
        CMP.outcome(s_suffix, operands, m)
    } else if name == "b"@ {
        B.outcome(s_suffix, operands, m)
    } else if name == "bl"@ {
        BL.outcome(s_suffix, operands, m)
    } else if name == "strb"@ {
        STRB.outcome(s_suffix, operands, m)
    } else if name == "strh"@ {
        STRH.outcome(s_suffix, operands, m)
    } else if name == "str"@ {
        STR.outcome(s_suffix, operands, m)
    } else if name == "ldrb"@ {
        LDRB.outcome(s_suffix, operands, m)
    } else if name == "ldrh"@ {
        LDRH.outcome(s_suffix, operands, m)
    } else if name == "ldr"@ {
        LDR.outcome(s_suffix, operands, m)
    } else {
        Outcome::done(m)
    }
}

/// What reading the operands of a line gives the instruction of a mnemonic;
/// nothing for a name that is no mnemonic.
pub open spec fn operands_of(name: Seq<char>, extension: MnemonicExtension, line: Seq<char>) -> Option<
    Result<Operands, Seq<Seq<char>>>,
> {
    if name == "mov"@ {
        Some(MOV.operands_for(extension, line))
    } else if name == "add"@ {
        Some(ADD.operands_for(extension, line))
    } else if name == "cmp"@ {
        Some(CMP.operands_for(extension, line))
    } else if name == "b"@ {
        Some(B.operands_for(extension, line))
    } else if name == "bl"@ {
        Some(BL.operands_for(extension, line))
    } else if name == "strb"@ {
        Some(STRB.operands_for(extension, line))
    } else if name == "strh"@ {
        Some(STRH.operands_for(extension, line))
    } else if name == "str"@ {
        Some(STR.operands_for(extension, line))
    } else if name == "ldrb"@ {
        Some(LDRB.operands_for(extension, line))
    } else if name == "ldrh"@ {
        Some(LDRH.operands_for(extension, line))
    } else if name == "ldr"@ {
        Some(LDR.operands_for(extension, line))
    } else {
        None
    }
}

/// Executes the instruction of a mnemonic.
pub fn execute_instruction(
    name: &str,
    s_suffix: bool,
    operands: &Operands,
    chip: &mut Processor,
) -> (r: Result<(), String>)
    requires
        operands.registers_valid(),
    ensures
        final(chip)@ == outcome_of(name@, s_suffix, *operands, old(chip)@).machine,
        outcome_of(name@, s_suffix, *operands, old(chip)@).reported_by(r),
{
    if str_eq(name, "mov") {
        MOV.execute(s_suffix, operands, chip)
    } else if str_eq(name, "add") {
        ADD.execute(s_suffix, operands, chip)
    } else if str_eq(name, "cmp") {
        CMP.execute(s_suffix, operands, chip)
    } else if str_eq(name, "b") {
        B.execute(s_suffix, operands, chip)
    } else if str_eq(name, "bl") {
        BL.execute(s_suffix, operands, chip)
    } else if str_eq(name, "strb") {
        STRB.execute(s_suffix, operands, chip)
    } else if str_eq(name, "strh") {
        STRH.execute(s_suffix, operands, chip)
    } else if str_eq(name, "str") {
        STR.execute(s_suffix, operands, chip)
    } else if str_eq(name, "ldrb") {
        LDRB.execute(s_suffix, operands, chip)
    } else if str_eq(name, "ldrh") {
        LDRH.execute(s_suffix, operands, chip)
    } else if str_eq(name, "ldr") {
        LDR.execute(s_suffix, operands, chip)
    } else {
        Ok(())
    }
}

/// Reads and checks the operands of a line for the instruction of a
/// mnemonic.
pub fn read_operands(name: &str, extension: &MnemonicExtension, line: &str) -> (r: Option<
    Result<Operands, Vec<String>>,
>)
    ensures
        match r {
            Some(x) => operands_of(name@, *extension, line@) == Some(result_view(x)),
            None => operands_of(name@, *extension, line@) is None,
        },
        r matches Some(Ok(o)) ==> o.registers_valid(),
        r is Some == is_instruction_name(name@),
{
    if str_eq(name, "mov") {
        Some(MOV.get_operands(extension, line))
    } else if str_eq(name, "add") {
        Some(ADD.get_operands(extension, line))
    } else if str_eq(name, "cmp") {
        Some(CMP.get_operands(extension, line))
    } else if str_eq(name, "b") {
        Some(B.get_operands(extension, line))
    } else if str_eq(name, "bl") {
        Some(BL.get_operands(extension, line))
    } else if str_eq(name, "strb") {
        Some(STRB.get_operands(extension, line))
    } else if str_eq(name, "strh") {
        Some(STRH.get_operands(extension, line))
    } else if str_eq(name, "str") {
        Some(STR.get_operands(extension, line))
    } else if str_eq(name, "ldrb") {
        Some(LDRB.get_operands(extension, line))
    } else if str_eq(name, "ldrh") {
        Some(LDRH.get_operands(extension, line))
    } else if str_eq(name, "ldr") {
        Some(LDR.get_operands(extension, line))
    } else {
        None
    }
}

/// With the `s` flag, `mov` sets `N` exactly when bit 31 of the value moved
/// is set and `Z` exactly when the value is zero; it never changes `C` or
/// `V`, with or without the flag.
pub proof fn lemma_mov_flags(s_suffix: bool, operands: Operands, m: Machine)
    ensures
        MOV.outcome(s_suffix, operands, m).machine.C == m.C,
        MOV.outcome(s_suffix, operands, m).machine.V == m.V,
        MOV::transferred(operands, m) matches Some(value) ==> {
            &&& MOV.outcome(true, operands, m).machine.N == (value & 0x8000_0000 != 0)
            &&& MOV.outcome(true, operands, m).machine.Z == (value == 0)
            &&& MOV.outcome(false, operands, m).machine.N == m.N
            &&& MOV.outcome(false, operands, m).machine.Z == m.Z
        },
{
    match MOV::transferred(operands, m) {
        Some(value) => {
            assert((value >= 0x8000_0000) == (value & 0x8000_0000 != 0)) by (bit_vector);
        },
        None => {},
    }
}

/// `add` writes the sum modulo 2^32 to its register. With the `s` flag, `C`
/// says that the sum is at least 2^32, and `V` that the sum of the two
/// numbers read as signed does not fit a signed 32-bit number.
pub proof fn lemma_add_result(s_suffix: bool, operands: Operands, m: Machine)
    requires
        operands.registers_valid(),
        m.wf(),
    ensures
        ADD::terms(operands, m) matches Some((rd, a, b)) ==> {
            let after = ADD.outcome(s_suffix, operands, m).machine;
            &&& after.R[rd as int] == (a + b) % 0x1_0000_0000
            &&& forall|i: int| 0 <= i < 16 && i != rd ==> after.R[i] == m.R[i]
            &&& after.memory == m.memory
            &&& s_suffix ==> after.C == (a + b >= 0x1_0000_0000)
            &&& s_suffix ==> after.V == !(-0x8000_0000 <= signed(a) + signed(b) <= 0x7FFF_FFFF)
            &&& s_suffix ==> after.N == ((a + b) % 0x1_0000_0000 >= 0x8000_0000)
            &&& s_suffix ==> after.Z == ((a + b) % 0x1_0000_0000 == 0)
            &&& !s_suffix ==> after.N == m.N && after.Z == m.Z && after.C == m.C && after.V == m.V
        },
{
}

/// `cmp` changes no register and no byte of memory, whatever the `s` flag
/// says, and sets the flags as a subtraction would: `N` and `Z` from the
/// difference modulo 2^32, `C` when there is no borrow, `V` when the signed
/// difference does not fit.
pub proof fn lemma_cmp_effect(s_suffix: bool, operands: Operands, m: Machine)
    ensures
        CMP.outcome(s_suffix, operands, m).machine.R == m.R,
        CMP.outcome(s_suffix, operands, m).machine.memory == m.memory,
        CMP.outcome(s_suffix, operands, m) == CMP.outcome(!s_suffix, operands, m),
        CMP::terms(operands, m) matches Some((a, b)) ==> {
            let after = CMP.outcome(s_suffix, operands, m).machine;
            &&& after.N == (wrap32(a - b) >= 0x8000_0000)
            &&& after.Z == (a == b)
            &&& after.C == (a >= b)
            &&& after.V == !fits_signed(signed(a) - signed(b))
        },
{
}

} // verus!
