//! The processor as text: registers and memory in the number format that
//! the user chose.
use vstd::prelude::*;
use crate::arm7::Processor;
use crate::bits::{signed, to_signed};
use crate::numeral::{
    decimal, decimal_string, fixed_digits, fixed_digits_string, signed_decimal,
    signed_decimal_string,
};
use crate::text::str_eq;

verus! {

/// A register in a number format: `signed` is the two's complement reading
/// in decimal, `binary` is `0b` and 32 digits, `hexadecimal` is `0x` and 8
/// digits, and every other format is the unsigned number in decimal.
pub open spec fn register_text(r: u32, num_format: Seq<char>) -> Seq<char> {
    if num_format == "signed"@ {
        signed_decimal(signed(r))
    } else if num_format == "binary"@ {
        "0b"@ + fixed_digits(r as nat, 2, 32)
    } else if num_format == "hexadecimal"@ {
        "0x"@ + fixed_digits(r as nat, 16, 8)
    } else {
        decimal(r as nat)
    }
}

/// A byte of memory in a number format: as a register, with 8 binary or 2
/// hexadecimal digits.
pub open spec fn byte_text(b: u8, num_format: Seq<char>) -> Seq<char> {
    if num_format == "signed"@ {
        signed_decimal(
            if b >= 128 {
                b - 256
            } else {
                b as int
            },
        )
    } else if num_format == "binary"@ {
        "0b"@ + fixed_digits(b as nat, 2, 8)
    } else if num_format == "hexadecimal"@ {
        "0x"@ + fixed_digits(b as nat, 16, 2)
    } else {
        decimal(b as nat)
    }
}

/// Writes a register in a number format.
pub fn format_register(r: u32, num_format: &str) -> (s: String)
    ensures
        s@ == register_text(r, num_format@),
{
    if str_eq(num_format, "signed") {
        signed_decimal_string(to_signed(r))
    } else if str_eq(num_format, "binary") {
        String::from_str("0b").concat(fixed_digits_string(r as u64, 2, 32).as_str())
    } else if str_eq(num_format, "hexadecimal") {
        String::from_str("0x").concat(fixed_digits_string(r as u64, 16, 8).as_str())
    } else {
        decimal_string(r as u64)
    }
}

/// Writes a byte of memory in a number format.
pub fn format_byte(b: u8, num_format: &str) -> (s: String)
    ensures
        s@ == byte_text(b, num_format@),
{
    if str_eq(num_format, "signed") {
        let value: i64 = if b >= 128 {
            (b as i64) - 256
        } else {
            b as i64
        };
        signed_decimal_string(value)
    } else if str_eq(num_format, "binary") {
        String::from_str("0b").concat(fixed_digits_string(b as u64, 2, 8).as_str())
    } else if str_eq(num_format, "hexadecimal") {
        String::from_str("0x").concat(fixed_digits_string(b as u64, 16, 2).as_str())
    } else {
        decimal_string(b as u64)
    }
}

/// The registers and the flags of the processor, as they are shown.
#[derive(Debug, Clone, PartialEq)]
#[allow(non_snake_case)]
pub struct CPU {
    pub R: Vec<String>,
    pub N: bool,
    pub Z: bool,
    pub C: bool,
    pub V: bool,
}

/// The sixteen registers in a number format, and the four flags.
pub fn display_cpu(processor: &Processor, num_format: &str) -> (cpu: CPU)
    ensures
        cpu.R@.len() == 16,
        forall|i: int|
            0 <= i < 16 ==> (#[trigger] cpu.R@[i])@ == register_text(processor@.R[i], num_format@),
        cpu.N == processor@.N,
        cpu.Z == processor@.Z,
        cpu.C == processor@.C,
        cpu.V == processor@.V,
{
    let mut registers: Vec<String> = Vec::new();
    let mut i: usize = 0;
    while i < 16
        invariant
            i <= 16,
            registers@.len() == i,
            forall|k: int|
                0 <= k < i ==> (#[trigger] registers@[k])@ == register_text(
                    processor@.R[k],
                    num_format@,
                ),
        decreases 16 - i,
    {
        registers.push(format_register(processor.R[i], num_format));
        i += 1;
    }
    CPU { R: registers, N: processor.N, Z: processor.Z, C: processor.C, V: processor.V }
}

/// The bytes of memory in a number format, and the stack pointer.
pub fn display_memory(processor: &Processor, num_format: &str) -> (r: (Vec<String>, u32))
    ensures
        r.0@.len() == 1024,
        forall|i: int|
            0 <= i < 1024 ==> (#[trigger] r.0@[i])@ == byte_text(
                processor@.memory[i],
                num_format@,
            ),
        r.1 == processor@.R[13],
{
    let mut bytes: Vec<String> = Vec::new();
    let mut i: usize = 0;
    while i < 1024
        invariant
            i <= 1024,
            bytes@.len() == i,
            forall|k: int|
                0 <= k < i ==> (#[trigger] bytes@[k])@ == byte_text(
                    processor@.memory[k],
                    num_format@,
                ),
        decreases 1024 - i,
    {
        bytes.push(format_byte(processor.memory[i], num_format));
        i += 1;
    }
    (bytes, processor.R[13])
}

} // verus!
