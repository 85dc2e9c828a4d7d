//! From a line of text to its operand bundle.
use vstd::prelude::*;
use crate::arm7::{one_message, result_view, Operands};
use crate::bits::{low_byte, signed, signed_word};
use crate::error::{
    add_if, invalid_args, invalid_args_message, left_shift_message, InstructionCompileErr,
};
use crate::pattern::regex_occurrences;
use crate::utils::{classify, get_all_numbers, numbers_of, shape_of, token_pattern, Shape};

verus! {

/// Whether the first `n` numbers are there and are registers.
pub open spec fn registers_lead(args: Seq<u32>, n: int) -> bool {
    args.len() >= n && forall|i: int| 0 <= i < n ==> #[trigger] args[i] <= 15
}

/// Exec counterpart of `registers_lead`.
pub fn has_leading_registers(args: &Vec<u32>, n: usize) -> (r: bool)
    ensures
        r == registers_lead(args@, n as int),
{
    if args.len() < n {
        return false;
    }
    let mut i: usize = 0;
    while i < n
        invariant
            i <= n <= args@.len(),
            forall|k: int| 0 <= k < i ==> #[trigger] args@[k] <= 15,
        decreases n - i,
    {
        if args[i] > 15 {
            return false;
        }
        i += 1;
    }
    true
}

/// Register `i` of a list of numbers that leads with registers.
fn register_at(args: &Vec<u32>, i: usize) -> (r: u8)
    requires
        i < args@.len(),
        args@[i as int] <= 15,
    ensures
        r == args@[i as int],
{
    low_byte(args[i])
}

impl Operands {
    /// The bundle of a shape, filled from the numbers of the line in order:
    /// first the registers, then the immediate value. Nothing if the shape
    /// is unknown, a number is missing, or a register slot would get a
    /// number above 15.
    pub open spec fn built(shape: Option<Shape>, args: Seq<u32>) -> Option<Operands> {
        match shape {
            None => None,
            Some(Shape::RdImmed) => if registers_lead(args, 1) && args.len() >= 2 {
                Some(Operands::Rd_immed { Rd: args[0] as u8, immed: args[1] })
            } else {
                None
            },
            Some(Shape::RdRm) => if registers_lead(args, 2) {
                Some(Operands::Rd_Rm { Rd: args[0] as u8, Rm: args[1] as u8, shift: None })
            } else {
                None
            },
            Some(Shape::RdRnImmed) => if registers_lead(args, 2) && args.len() >= 3 {
                Some(
                    Operands::Rd_Rn_immed { Rd: args[0] as u8, Rn: args[1] as u8, immed: args[2] },
                )
            } else {
                None
            },
            Some(Shape::RdRnRm) => if registers_lead(args, 3) {
                Some(
                    Operands::Rd_Rn_Rm {
                        Rd: args[0] as u8,
                        Rn: args[1] as u8,
                        Rm: args[2] as u8,
                        shift: None,
                    },
                )
            } else {
                None
            },
            Some(Shape::RtRn) => if registers_lead(args, 2) {
                Some(Operands::Rt_Rn_imm { Rt: args[0] as u8, Rn: args[1] as u8, imm: None })
            } else {
                None
            },
            Some(Shape::RtRnImm) => if registers_lead(args, 2) && args.len() >= 3 {
                Some(
                    Operands::Rt_Rn_imm {
                        Rt: args[0] as u8,
                        Rn: args[1] as u8,
                        imm: Some(signed(args[2]) as i32),
                    },
                )
            } else {
                None
            },
            Some(Shape::RtRnImmPost) => if registers_lead(args, 2) && args.len() >= 3 {
                Some(
                    Operands::Rt_Rn_imm_post {
                        Rt: args[0] as u8,
                        Rn: args[1] as u8,
                        imm: signed(args[2]) as i32,
                    },
                )
            } else {
                None
            },
            Some(Shape::RtRnImmPre) => if registers_lead(args, 2) && args.len() >= 3 {
                Some(
                    Operands::Rt_Rn_imm_pre {
                        Rt: args[0] as u8,
                        Rn: args[1] as u8,
                        imm: signed(args[2]) as i32,
                    },
                )
            } else {
                None
            },
            Some(Shape::RtRnRm) => if registers_lead(args, 3) {
                Some(
                    Operands::Rt_Rn_Rm {
                        Rt: args[0] as u8,
                        Rn: args[1] as u8,
                        Rm: args[2] as u8,
                        shift: None,
                    },
                )
            } else {
                None
            },
            Some(Shape::RtRnRmShift) => if registers_lead(args, 3) && args.len() >= 4 {
                Some(
                    Operands::Rt_Rn_Rm {
                        Rt: args[0] as u8,
                        Rn: args[1] as u8,
                        Rm: args[2] as u8,
                        shift: Some((args[3] % 256) as u8),
                    },
                )
            } else {
                None
            },
            Some(Shape::RtEqualLabel) => if registers_lead(args, 1) {
                Some(Operands::Rt_label { Rt: args[0] as u8, label: 0 })
            } else {
                None
            },
            Some(Shape::RtEqualImmed) => if registers_lead(args, 1) && args.len() >= 2 {
                Some(Operands::Rt_imm { Rt: args[0] as u8, label: args[1] })
            } else {
                None
            },
        }
    }

    /// The bundle of a shape and the numbers of the line, or the error that
    /// names the line.
    pub open spec fn shaped(shape: Option<Shape>, args: Seq<u32>, line: Seq<char>) -> Result<
        Operands,
        Seq<Seq<char>>,
    > {
        match Operands::built(shape, args) {
            Some(o) => Ok(o),
            None => Err(one_message(invalid_args_message(line))),
        }
    }

    /// The bundle that a line is read as: the errors of its numbers if there
    /// are any, else the bundle of its shape.
    pub open spec fn parsed(line: Seq<char>) -> Result<Operands, Seq<Seq<char>>> {
        match numbers_of(regex_occurrences(token_pattern(), line)) {
            Err(e) => Err(e),
            Ok(args) => Operands::shaped(shape_of(line), args, line),
        }
    }

    /// What a memory instruction makes of a bundle: the offset forms pass,
    /// a register offset passes unless its left shift is more than 3, and
    /// every other form is an error that names the line.
    pub open spec fn memory_checked(operands: Operands, line: Seq<char>) -> Result<
        Operands,
        Seq<Seq<char>>,
    > {
        match operands {
            Operands::Rt_Rn_imm { .. }
            | Operands::Rt_Rn_imm_post { .. }
            | Operands::Rt_Rn_imm_pre { .. } => Ok(operands),
            Operands::Rt_Rn_Rm { shift, .. } => if shift matches Some(k) && k > 3 {
                Err(one_message(left_shift_message()))
            } else {
                Ok(operands)
            },
            _ => Err(one_message(invalid_args_message(line))),
        }
    }

    /// Fills the bundle of a shape from the numbers of the line.
    pub fn from_shape(shape: Option<Shape>, args: &Vec<u32>, line: &str) -> (r: Result<
        Self,
        Vec<String>,
    >)
        ensures
            result_view(r) == Operands::shaped(shape, args@, line@),
            r matches Ok(o) ==> o.registers_valid(),
    {
        let built = match shape {
            None => None,
            Some(Shape::RdImmed) => if has_leading_registers(args, 1) && args.len() >= 2 {
                Some(Operands::Rd_immed { Rd: register_at(args, 0), immed: args[1] })
            } else {
                None
            },
            Some(Shape::RdRm) => if has_leading_registers(args, 2) {
                Some(
                    Operands::Rd_Rm {
                        Rd: register_at(args, 0),
                        Rm: register_at(args, 1),
                        shift: None,
                    },
                )
            } else {
                None
            },
            Some(Shape::RdRnImmed) => if has_leading_registers(args, 2) && args.len() >= 3 {
                Some(
                    Operands::Rd_Rn_immed {
                        Rd: register_at(args, 0),
                        Rn: register_at(args, 1),
                        immed: args[2],
                    },
                )
            } else {
                None
            },
            Some(Shape::RdRnRm) => if has_leading_registers(args, 3) {
                Some(
                    Operands::Rd_Rn_Rm {
                        Rd: register_at(args, 0),
                        Rn: register_at(args, 1),
                        Rm: register_at(args, 2),
                        shift: None,
                    },
                )
            } else {
                None
            },
            Some(Shape::RtRn) => if has_leading_registers(args, 2) {
                Some(
                    Operands::Rt_Rn_imm {
                        Rt: register_at(args, 0),
                        Rn: register_at(args, 1),
                        imm: None,
                    },
                )
            } else {
                None
            },
            Some(Shape::RtRnImm) => if has_leading_registers(args, 2) && args.len() >= 3 {
                Some(
                    Operands::Rt_Rn_imm {
                        Rt: register_at(args, 0),
                        Rn: register_at(args, 1),
                        imm: Some(signed_word(args[2])),
                    },
                )
            } else {
                None
            },
            Some(Shape::RtRnImmPost) => if has_leading_registers(args, 2) && args.len() >= 3 {
                Some(
                    Operands::Rt_Rn_imm_post {
                        Rt: register_at(args, 0),
                        Rn: register_at(args, 1),
                        imm: signed_word(args[2]),
                    },
                )
            } else {
                None
            },
            Some(Shape::RtRnImmPre) => if has_leading_registers(args, 2) && args.len() >= 3 {
                Some(
                    Operands::Rt_Rn_imm_pre {
                        Rt: register_at(args, 0),
                        Rn: register_at(args, 1),
                        imm: signed_word(args[2]),
                    },
                )
            } else {
                None
            },
            Some(Shape::RtRnRm) => if has_leading_registers(args, 3) {
                Some(
                    Operands::Rt_Rn_Rm {
                        Rt: register_at(args, 0),
                        Rn: register_at(args, 1),
                        Rm: register_at(args, 2),
                        shift: None,
                    },
                )
            } else {
                None
            },
            Some(Shape::RtRnRmShift) => if has_leading_registers(args, 3) && args.len() >= 4 {
                Some(
                    Operands::Rt_Rn_Rm {
                        Rt: register_at(args, 0),
                        Rn: register_at(args, 1),
                        Rm: register_at(args, 2),
                        shift: Some(low_byte(args[3])),
                    },
                )
            } else {
                None
            },
            Some(Shape::RtEqualLabel) => if has_leading_registers(args, 1) {
                Some(Operands::Rt_label { Rt: register_at(args, 0), label: 0 })
            } else {
                None
            },
            Some(Shape::RtEqualImmed) => if has_leading_registers(args, 1) && args.len() >= 2 {
                Some(Operands::Rt_imm { Rt: register_at(args, 0), label: args[1] })
            } else {
                None
            },
        };
        match built {
            Some(o) => Ok(o),
            None => Err(invalid_args(line)),
        }
    }

    /// Reads the operands of a line: its numbers, put into the bundle of the
    /// first shape that the line matches.
    pub fn from_str(line: &str) -> (r: Result<Self, Vec<String>>)
        ensures
            result_view(r) == Operands::parsed(line@),
            r matches Ok(o) ==> o.registers_valid(),
    {
        match get_all_numbers(line) {
            Err(e) => Err(e),
            Ok(args) => {
                let shape = classify(line);
                Operands::from_shape(shape, &args, line)
            },
        }
    }

    /// Checks a bundle for a memory instruction.
    pub fn check_memory_operands(operands: Operands, line: &str) -> (r: Result<Self, Vec<String>>)
        ensures
            result_view(r) == Operands::memory_checked(operands, line@),
            r matches Ok(o) ==> o == operands,
    {
        let mut errors = InstructionCompileErr::new();
        match operands {
            Operands::Rt_Rn_imm { .. }
            | Operands::Rt_Rn_imm_post { .. }
            | Operands::Rt_Rn_imm_pre { .. } => {},
            Operands::Rt_Rn_Rm { shift, .. } => {
                errors.check_mem_left_shift(shift);
            },
            _ => {
                return Err(invalid_args(line));
            },
        }
        proof {
            assert(add_if(Seq::<Seq<char>>::empty(), true, left_shift_message()) =~= one_message(
                left_shift_message(),
            ));
        }
        errors.result(operands)
    }

    /// Reads the operands of a memory instruction.
    pub fn is_memory_operands(line: &str) -> (r: Result<Self, Vec<String>>)
        ensures
            result_view(r) == (match Operands::parsed(line@) {
                Err(e) => Err(e),
                Ok(o) => Operands::memory_checked(o, line@),
            }),
            r matches Ok(o) ==> o.registers_valid(),
    {
        match Operands::from_str(line) {
            Err(e) => Err(e),
            Ok(operands) => Operands::check_memory_operands(operands, line),
        }
    }
}

} // verus!
