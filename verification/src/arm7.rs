//! The data of the simulated machine and of a compiled program: operand
//! bundles, condition codes, mnemonic extensions, labels, and the processor
//! with its registers, flags and memory.
use vstd::prelude::*;
use crate::text::{str_eq, texts};

verus! {

/// The number of bytes of memory.
pub const MEMORY_SIZE: usize = 1024;

/// A list of messages, by the text of each.
pub open spec fn result_view<T>(r: Result<T, Vec<String>>) -> Result<T, Seq<Seq<char>>> {
    match r {
        Ok(t) => Ok(t),
        Err(e) => Err(texts(e@)),
    }
}

/// One message as a list.
pub open spec fn one_message(m: Seq<char>) -> Seq<Seq<char>> {
    seq![m]
}

/// The size of a memory access.
#[derive(Debug, Clone, Copy, PartialEq, Eq, Structural)]
pub enum MemSize {
    BYTE,
    HALFWORD,
    WORD,
}

impl MemSize {
    /// The number of bytes of an access of this size.
    pub open spec fn size(self) -> nat {
        match self {
            MemSize::BYTE => 1,
            MemSize::HALFWORD => 2,
            MemSize::WORD => 4,
        }
    }

    /// The number of bytes of an access of this size.
    pub fn bytes(&self) -> (n: usize)
        ensures
            n == self.size(),
    {
        match *self {
            MemSize::BYTE => 1,
            MemSize::HALFWORD => 2,
            MemSize::WORD => 4,
        }
    }
}

/// A shift applied to a register operand, by a number of bits.
#[derive(Debug, Clone, Copy, PartialEq, Eq)]
pub enum Shift {
    LSL(u8),
    LSR(u8),
    ASR(u8),
    ROR(u8),
    RRX,
}

/// Where an instruction stands with respect to an `IT` block.
#[derive(Debug, Clone, Copy, PartialEq, Eq, Structural)]
pub enum ITStatus {
    OUT,
    IN,
    LAST,
}

/// Where a program stands after a command.
#[derive(Debug, Clone, Copy, PartialEq, Eq, Structural)]
pub enum DebugStatus {
    /// No more instructions to run.
    END,
    CONTINUE,
    BREAKPOINT,
    RUNNING,
}

/// The input that a program asks for.
#[derive(Debug, Clone, Copy, PartialEq, Eq, Structural)]
pub enum InputStatus {
    GetChar,
    GetNumber,
    /// No input is asked for.
    NoInput,
}

/// The target of a branch: a position in the compiled lines, or one of the
/// predefined subroutines.
#[derive(Debug, Clone, Copy, PartialEq, Eq, Structural)]
pub enum Label {
    Index(usize),
    CR,
    VALUE,
    PRINTF,
    PRINTCHAR,
    GetChar,
    GetNumber,
}

/// The message for a label that nothing defines.
pub open spec fn unknown_label_message(label: Seq<char>) -> Seq<char> {
    "Label \""@ + label + "\" may not exist."@
}

impl Label {
    /// The predefined subroutine of a name, if it names one.
    pub open spec fn predefined(label: Seq<char>) -> Option<Label> {
        if label == "cr"@ {
            Some(Label::CR)
        } else if label == "value"@ {
            Some(Label::VALUE)
        } else if label == "printchar"@ {
            Some(Label::PRINTCHAR)
        } else if label == "getchar"@ {
            Some(Label::GetChar)
        } else if label == "getnumber"@ {
            Some(Label::GetNumber)
        } else if label == "printf"@ {
            Some(Label::PRINTF)
        } else {
            None
        }
    }

    /// Whether the label is a predefined subroutine.
    pub open spec fn is_sentinel(self) -> bool {
        !(self is Index)
    }

    /// The predefined subroutine of a name, or the error that names the
    /// label.
    pub fn from_str(label: &str) -> (r: Result<Self, Vec<String>>)
        ensures
            result_view(r) == (match Label::predefined(label@) {
                Some(l) => Ok::<Label, Seq<Seq<char>>>(l),
                None => Err(one_message(unknown_label_message(label@))),
            }),
            r matches Ok(l) ==> l.is_sentinel(),
    {
        if str_eq(label, "cr") {
            Ok(Label::CR)
        } else if str_eq(label, "value") {
            Ok(Label::VALUE)
        } else if str_eq(label, "printchar") {
            Ok(Label::PRINTCHAR)
        } else if str_eq(label, "getchar") {
            Ok(Label::GetChar)
        } else if str_eq(label, "getnumber") {
            Ok(Label::GetNumber)
        } else if str_eq(label, "printf") {
            Ok(Label::PRINTF)
        } else {
            let m = String::from_str("Label \"").concat(label).concat("\" may not exist.");
            let e = vec![m];
            assert(texts(e@) =~= one_message(unknown_label_message(label@)));
            Err(e)
        }
    }
}

/// The operands of an instruction, by the shape in which they were written.
#[derive(Debug, Clone, Copy, PartialEq)]
#[allow(non_camel_case_types, non_snake_case)]
pub enum Operands {
    Rd_immed { Rd: u8, immed: u32 },
    Rd_Rm { Rd: u8, Rm: u8, shift: Option<Shift> },
    Rd_Rn_immed { Rd: u8, Rn: u8, immed: u32 },
    Rd_Rn_Rm { Rd: u8, Rn: u8, Rm: u8, shift: Option<Shift> },
    label { label: Label },
    Rt_Rn_imm { Rt: u8, Rn: u8, imm: Option<i32> },
    Rt_Rn_imm_post { Rt: u8, Rn: u8, imm: i32 },
    Rt_Rn_imm_pre { Rt: u8, Rn: u8, imm: i32 },
    Rt_Rn_Rm { Rt: u8, Rn: u8, Rm: u8, shift: Option<u8> },
    Rt_label { Rt: u8, label: usize },
    Rt_imm { Rt: u8, label: u32 },
}

impl Operands {
    /// Every register that the operands name is one of the sixteen.
    pub open spec fn registers_valid(self) -> bool {
        match self {
            Operands::Rd_immed { Rd, .. } => Rd <= 15,
            Operands::Rd_Rm { Rd, Rm, .. } => Rd <= 15 && Rm <= 15,
            Operands::Rd_Rn_immed { Rd, Rn, .. } => Rd <= 15 && Rn <= 15,
            Operands::Rd_Rn_Rm { Rd, Rn, Rm, .. } => Rd <= 15 && Rn <= 15 && Rm <= 15,
            Operands::label { .. } => true,
            Operands::Rt_Rn_imm { Rt, Rn, .. } => Rt <= 15 && Rn <= 15,
            Operands::Rt_Rn_imm_post { Rt, Rn, .. } => Rt <= 15 && Rn <= 15,
            Operands::Rt_Rn_imm_pre { Rt, Rn, .. } => Rt <= 15 && Rn <= 15,
            Operands::Rt_Rn_Rm { Rt, Rn, Rm, .. } => Rt <= 15 && Rn <= 15 && Rm <= 15,
            Operands::Rt_label { Rt, .. } => Rt <= 15,
            Operands::Rt_imm { Rt, .. } => Rt <= 15,
        }
    }

    /// Exec counterpart of `registers_valid`.
    pub fn has_valid_registers(&self) -> (r: bool)
        ensures
            r == self.registers_valid(),
    {
        match *self {
            Operands::Rd_immed { Rd, .. } => Rd <= 15,
            Operands::Rd_Rm { Rd, Rm, .. } => Rd <= 15 && Rm <= 15,
            Operands::Rd_Rn_immed { Rd, Rn, .. } => Rd <= 15 && Rn <= 15,
            Operands::Rd_Rn_Rm { Rd, Rn, Rm, .. } => Rd <= 15 && Rn <= 15 && Rm <= 15,
            Operands::label { .. } => true,
            Operands::Rt_Rn_imm { Rt, Rn, .. } => Rt <= 15 && Rn <= 15,
            Operands::Rt_Rn_imm_post { Rt, Rn, .. } => Rt <= 15 && Rn <= 15,
            Operands::Rt_Rn_imm_pre { Rt, Rn, .. } => Rt <= 15 && Rn <= 15,
            Operands::Rt_Rn_Rm { Rt, Rn, Rm, .. } => Rt <= 15 && Rn <= 15 && Rm <= 15,
            Operands::Rt_label { Rt, .. } => Rt <= 15,
            Operands::Rt_imm { Rt, .. } => Rt <= 15,
        }
    }
}

/// Condition codes.
#[derive(Debug, Clone, Copy, PartialEq, Eq, Structural)]
pub enum ConditionCode {
    EQ,
    NE,
    CS,
    CC,
    MI,
    PL,
    VS,
    VC,
    HI,
    LS,
    GE,
    LT,
    GT,
    LE,
    AL,
}

/// The message for a text that names no condition code.
pub open spec fn unknown_condition_message(s: Seq<char>) -> Seq<char> {
    s + " is not a condition code"@
}

impl ConditionCode {
    /// Whether the condition holds of the four flags.
    #[allow(non_snake_case)]
    pub open spec fn holds(self, N: bool, Z: bool, C: bool, V: bool) -> bool {
        match self {
            ConditionCode::EQ => Z,
            ConditionCode::NE => !Z,
            ConditionCode::CS => C,
            ConditionCode::CC => !C,
            ConditionCode::MI => N,
            ConditionCode::PL => !N,
            ConditionCode::VS => V,
            ConditionCode::VC => !V,
            ConditionCode::HI => C && !Z,
            ConditionCode::LS => !C || Z,
            ConditionCode::GE => N == V,
            ConditionCode::LT => N != V,
            ConditionCode::GT => !Z && N == V,
            ConditionCode::LE => Z || N != V,
            ConditionCode::AL => true,
        }
    }

    /// The condition that holds exactly when this one does not; `AL` has
    /// none and stands for itself.
    pub open spec fn opposite(self) -> ConditionCode {
        match self {
            ConditionCode::EQ => ConditionCode::NE,
            ConditionCode::NE => ConditionCode::EQ,
            ConditionCode::CS => ConditionCode::CC,
            ConditionCode::CC => ConditionCode::CS,
            ConditionCode::MI => ConditionCode::PL,
            ConditionCode::PL => ConditionCode::MI,
            ConditionCode::VS => ConditionCode::VC,
            ConditionCode::VC => ConditionCode::VS,
            ConditionCode::HI => ConditionCode::LS,
            ConditionCode::LS => ConditionCode::HI,
            ConditionCode::GE => ConditionCode::LT,
            ConditionCode::LT => ConditionCode::GE,
            ConditionCode::GT => ConditionCode::LE,
            ConditionCode::LE => ConditionCode::GT,
            ConditionCode::AL => ConditionCode::AL,
        }
    }

    /// The condition code that a two-letter name stands for; `hs` and `lo`
    /// are other names of `cs` and `cc`.
    pub open spec fn named(s: Seq<char>) -> Option<ConditionCode> {
        if s == "eq"@ {
            Some(ConditionCode::EQ)
        } else if s == "ne"@ {
            Some(ConditionCode::NE)
        } else if s == "cs"@ || s == "hs"@ {
            Some(ConditionCode::CS)
        } else if s == "cc"@ || s == "lo"@ {
            Some(ConditionCode::CC)
        } else if s == "mi"@ {
            Some(ConditionCode::MI)
        } else if s == "pl"@ {
            Some(ConditionCode::PL)
        } else if s == "vs"@ {
            Some(ConditionCode::VS)
        } else if s == "vc"@ {
            Some(ConditionCode::VC)
        } else if s == "hi"@ {
            Some(ConditionCode::HI)
        } else if s == "ls"@ {
            Some(ConditionCode::LS)
        } else if s == "ge"@ {
            Some(ConditionCode::GE)
        } else if s == "lt"@ {
            Some(ConditionCode::LT)
        } else if s == "gt"@ {
            Some(ConditionCode::GT)
        } else if s == "le"@ {
            Some(ConditionCode::LE)
        } else if s == "al"@ {
            Some(ConditionCode::AL)
        } else {
            None
        }
    }

    /// Whether the condition holds of the four flags.
    #[allow(non_snake_case)]
    pub fn condition_test(&self, N: bool, Z: bool, C: bool, V: bool) -> (r: bool)
        ensures
            r == self.holds(N, Z, C, V),
    {
        match *self {
            Self::EQ => Z,
            Self::NE => !Z,
            Self::CS => C,
            Self::CC => !C,
            Self::MI => N,
            Self::PL => !N,
            Self::VS => V,
            Self::VC => !V,
            Self::HI => C && !Z,
            Self::LS => !C || Z,
            Self::GE => (N && V) || (!N && !V),
            Self::LT => (N && !V) || (!N && V),
            Self::GT => !Z && ((N && V) || (!N && !V)),
            Self::LE => Z || (N && !V) || (!N && V),
            Self::AL => true,
        }
    }

    /// The condition that holds exactly when this one does not.
    pub fn opposite_condition(&self) -> (r: Self)
        ensures
            r == self.opposite(),
    {
        match *self {
            Self::EQ => Self::NE,
            Self::NE => Self::EQ,
            Self::CS => Self::CC,
            Self::CC => Self::CS,
            Self::MI => Self::PL,
            Self::PL => Self::MI,
            Self::VS => Self::VC,
            Self::VC => Self::VS,
            Self::HI => Self::LS,
            Self::LS => Self::HI,
            Self::GE => Self::LT,
            Self::LT => Self::GE,
            Self::GT => Self::LE,
            Self::LE => Self::GT,
            Self::AL => Self::AL,
        }
    }

    /// The condition code of a two-letter name in lower case.
    pub fn from_str(s: &str) -> (r: Result<Self, String>)
        ensures
            match r {
                Ok(cc) => ConditionCode::named(s@) == Some(cc),
                Err(e) => ConditionCode::named(s@) is None && e@ == unknown_condition_message(s@),
            },
    {
        if str_eq(s, "eq") {
            Ok(ConditionCode::EQ)
        } else if str_eq(s, "ne") {
            Ok(ConditionCode::NE)
        } else if str_eq(s, "cs") || str_eq(s, "hs") {
            Ok(ConditionCode::CS)
        } else if str_eq(s, "cc") || str_eq(s, "lo") {
            Ok(ConditionCode::CC)
        } else if str_eq(s, "mi") {
            Ok(ConditionCode::MI)
        } else if str_eq(s, "pl") {
            Ok(ConditionCode::PL)
        } else if str_eq(s, "vs") {
            Ok(ConditionCode::VS)
        } else if str_eq(s, "vc") {
            Ok(ConditionCode::VC)
        } else if str_eq(s, "hi") {
            Ok(ConditionCode::HI)
        } else if str_eq(s, "ls") {
            Ok(ConditionCode::LS)
        } else if str_eq(s, "ge") {
            Ok(ConditionCode::GE)
        } else if str_eq(s, "lt") {
            Ok(ConditionCode::LT)
        } else if str_eq(s, "gt") {
            Ok(ConditionCode::GT)
        } else if str_eq(s, "le") {
            Ok(ConditionCode::LE)
        } else if str_eq(s, "al") {
            Ok(ConditionCode::AL)
        } else {
            Err(String::from_str(s).concat(" is not a condition code"))
        }
    }
}

/// A condition and its opposite never hold together, and but for `AL` one of
/// the two always holds; taking the opposite twice gives the condition back.
#[allow(non_snake_case)]
pub proof fn lemma_opposite_condition(cc: ConditionCode, N: bool, Z: bool, C: bool, V: bool)
    ensures
        cc.opposite().opposite() == cc,
        cc != ConditionCode::AL ==> cc.opposite().holds(N, Z, C, V) == !cc.holds(N, Z, C, V),
{
}

/// What may be attached to a mnemonic: a condition code, the `s` flag, the
/// `.w` suffix, and the place with respect to an `IT` block.
#[derive(Debug, Clone, Copy, PartialEq)]
pub struct MnemonicExtension {
    pub cc: Option<ConditionCode>,
    pub s: bool,
    pub w: bool,
    pub it_status: ITStatus,
}

impl MnemonicExtension {
    /// No condition, no flag, outside every `IT` block.
    pub open spec fn plain() -> MnemonicExtension {
        MnemonicExtension { cc: None, s: false, w: false, it_status: ITStatus::OUT }
    }

    /// The extension of a bare mnemonic.
    pub fn new() -> (r: Self)
        ensures
            r == MnemonicExtension::plain(),
    {
        MnemonicExtension { cc: None, s: false, w: false, it_status: ITStatus::OUT }
    }
}

/// The state of the machine as contracts speak of it: sixteen registers,
/// four flags, and the bytes of memory.
#[allow(non_snake_case)]
pub struct Machine {
    pub R: Seq<u32>,
    pub N: bool,
    pub Z: bool,
    pub C: bool,
    pub V: bool,
    pub memory: Seq<u8>,
}

impl Machine {
    /// The machine after a reset: all zero, but the stack pointer at the
    /// top of memory.
    pub open spec fn initial() -> Machine {
        Machine {
            R: Seq::new(16, |i: int| if i == 13 { 1023u32 } else { 0u32 }),
            N: false,
            Z: false,
            C: false,
            V: false,
            memory: Seq::new(MEMORY_SIZE as nat, |i: int| 0u8),
        }
    }

    /// There are sixteen registers and 1024 bytes of memory.
    pub open spec fn wf(self) -> bool {
        self.R.len() == 16 && self.memory.len() == MEMORY_SIZE
    }

    /// The machine with one register changed.
    pub open spec fn with_register(self, r: int, v: u32) -> Machine {
        Machine { R: self.R.update(r, v), ..self }
    }

    /// The machine with `N` and `Z` set from a value.
    pub open spec fn with_nz(self, v: u32) -> Machine {
        Machine { N: v >= 0x8000_0000, Z: v == 0, ..self }
    }
}

/// What executing an instruction leads to: the machine after it, and the
/// run-time error if there was one.
pub struct Outcome {
    pub machine: Machine,
    pub error: Option<Seq<char>>,
}

impl Outcome {
    /// The machine, without an error.
    pub open spec fn done(machine: Machine) -> Outcome {
        Outcome { machine, error: None }
    }

    /// The machine, with an error.
    pub open spec fn failed(machine: Machine, error: Seq<char>) -> Outcome {
        Outcome { machine, error: Some(error) }
    }

    /// Whether an executed instruction returned what the outcome says.
    pub open spec fn reported_by(self, r: Result<(), String>) -> bool {
        match r {
            Ok(()) => self.error is None,
            Err(e) => self.error == Some(e@),
        }
    }
}

/// The processor: registers, flags and memory. `R[13]` is the stack pointer,
/// `R[14]` the link register, `R[15]` the program counter.
#[derive(Debug)]
#[allow(non_snake_case)]
pub struct Processor {
    pub R: [u32; 16],
    pub N: bool,
    pub Z: bool,
    pub C: bool,
    pub V: bool,
    pub memory: [u8; 1024],
}

impl View for Processor {
    type V = Machine;

    open spec fn view(&self) -> Machine {
        Machine {
            R: self.R@,
            N: self.N,
            Z: self.Z,
            C: self.C,
            V: self.V,
            memory: self.memory@,
        }
    }
}

impl Processor {
    /// A processor in its initial state.
    pub fn new() -> (p: Self)
        ensures
            p@ == Machine::initial(),
    {
        let mut registers: [u32; 16] = [0u32; 16];
        registers[13] = 1023;
        let p = Processor {
            R: registers,
            N: false,
            Z: false,
            C: false,
            V: false,
            memory: [0u8; 1024],
        };
        assert(p@.R =~= Machine::initial().R);
        assert(p@.memory =~= Machine::initial().memory);
        p
    }

    /// Sets every register, flag and byte of memory back to its initial
    /// value.
    pub fn reset(&mut self)
        ensures
            final(self)@ == Machine::initial(),
    {
        *self = Self::new();
    }
}

} // verus!
