//! Lexical utilities: the patterns of registers, immediate values and
//! operand shapes, and the numbers that a line holds.
use vstd::prelude::*;
use crate::arm7::{InputStatus, Label, Machine, MemSize, Operands, Outcome, Processor};
use crate::bits::{
    byte_at, byte_of, byte_weight, index_of, shift_left, shl32, signed, to_signed, weighted_byte,
    word_index, wrap32, wrapping_difference, wrapping_offset, wrapping_sum,
};
use crate::error::{
    check_memory_bounds, in_bounds, invalid_operands, invalid_operands_message,
    out_of_bounds_message,
};
use crate::numeral::{
    decimal, decimal_string, parse_u32, parsed_u32, signed_decimal, signed_decimal_string,
};
use crate::pattern::{find_all, is_match, regex_matches, regex_occurrences};
use crate::text::{
    char_from_u32, lemma_trimmed_twice, push_char, push_text, scalar_value, starts_with, str_eq,
    tail, tail_of, texts, trim, trimmed,
};

verus! {

pub open spec fn condition_codes_pattern() -> Seq<char> {
    r"(eq|ne|cs|hs|cc|lo|mi|pl|vs|vc|hi|ls|ge|lt|gt|le|al)"@
}

pub open spec fn register_pattern() -> Seq<char> {
    r"\s*(r\d+|sp|lr|pc)\s*"@
}

pub open spec fn u_number_pattern() -> Seq<char> {
    r"#(0b[01]+|0x[A-Fa-f\d]+|\d+)"@
}

pub open spec fn i_number_pattern() -> Seq<char> {
    r"\s*#-?(0b[01]+|0x[A-Fa-f\d]+|\d+)\s*"@
}

pub open spec fn label_pattern() -> Seq<char> {
    r"\s*[a-zA-Z_]\w*\s*"@
}

pub open spec fn bin_pattern() -> Seq<char> {
    r"^#-?0b[01]+$"@
}

pub open spec fn hex_pattern() -> Seq<char> {
    r"^#-?0x[A-Fa-f\d]+$"@
}

pub open spec fn dec_pattern() -> Seq<char> {
    r"#-?\d+$"@
}

/// The pattern of one operand token: a register, or an immediate value,
/// well formed or not.
pub open spec fn token_pattern() -> Seq<char> {
    register_pattern() + r"|#[\da-fA-Fx]+|"@ + i_number_pattern()
}

/// The start of every shape that has white space after the mnemonic.
pub open spec fn spaced_start() -> Seq<char> {
    r"^\S+\s+"@
}

/// The start of the shapes that take the mnemonic and the first register
/// without asking for white space between them.
pub open spec fn bare_start() -> Seq<char> {
    r"^\S+"@
}

/// The opening bracket of a memory reference.
pub open spec fn bracket() -> Seq<char> {
    r",\s*\["@
}

pub open spec fn rd_immed_pattern() -> Seq<char> {
    spaced_start() + register_pattern() + ","@ + i_number_pattern() + "$"@
}

pub open spec fn rd_rm_pattern() -> Seq<char> {
    spaced_start() + register_pattern() + ","@ + register_pattern() + "$"@
}

pub open spec fn rd_rn_immed_pattern() -> Seq<char> {
    spaced_start() + register_pattern() + ","@ + register_pattern() + ","@ + i_number_pattern()
        + "$"@
}

pub open spec fn rd_rn_rm_pattern() -> Seq<char> {
    spaced_start() + register_pattern() + ","@ + register_pattern() + ","@ + register_pattern()
        + "$"@
}

pub open spec fn rt_rn_pattern() -> Seq<char> {
    spaced_start() + register_pattern() + bracket() + register_pattern() + "]$"@
}

pub open spec fn rt_rn_imm_pattern() -> Seq<char> {
    spaced_start() + register_pattern() + bracket() + register_pattern() + ","@
        + i_number_pattern() + "]$"@
}

pub open spec fn rt_rn_imm_post_pattern() -> Seq<char> {
    bare_start() + register_pattern() + bracket() + register_pattern() + r"]\s*,"@
        + i_number_pattern() + "$"@
}

pub open spec fn rt_rn_imm_pre_pattern() -> Seq<char> {
    spaced_start() + register_pattern() + bracket() + register_pattern() + ","@
        + i_number_pattern() + "]!$"@
}

pub open spec fn rt_rn_rm_pattern() -> Seq<char> {
    spaced_start() + register_pattern() + bracket() + register_pattern() + ","@
        + register_pattern() + "]$"@
}

pub open spec fn rt_rn_rm_shift_pattern() -> Seq<char> {
    spaced_start() + register_pattern() + bracket() + register_pattern() + ","@
        + register_pattern() + r",\s*lsl\s*"@ + i_number_pattern() + "]$"@
}

pub open spec fn rt_equal_label_pattern() -> Seq<char> {
    bare_start() + register_pattern() + ",="@ + label_pattern() + "$"@
}

pub open spec fn rt_equal_immed_pattern() -> Seq<char> {
    bare_start() + register_pattern() + ",="@ + i_number_pattern() + "*$"@
}

pub open spec fn branch_pattern() -> Seq<char> {
    bare_start() + label_pattern() + "$"@
}

/// The pattern of every condition code.
pub fn condition_codes() -> (r: &'static str)
    ensures
        r@ == condition_codes_pattern(),
{
    r"(eq|ne|cs|hs|cc|lo|mi|pl|vs|vc|hi|ls|ge|lt|gt|le|al)"
}

/// The pattern of a register, with the white space around it.
pub fn register() -> (r: &'static str)
    ensures
        r@ == register_pattern(),
{
    r"\s*(r\d+|sp|lr|pc)\s*"
}

/// The pattern of an unsigned immediate value, such as `#0x12`, `#12` or
/// `#0b1100`.
pub fn u_number() -> (r: &'static str)
    ensures
        r@ == u_number_pattern(),
{
    r"#(0b[01]+|0x[A-Fa-f\d]+|\d+)"
}

/// The pattern of an immediate value with an optional sign, such as `#0x12`,
/// `#-12` or `#-0b1100`, with the white space around it.
pub fn i_number() -> (r: &'static str)
    ensures
        r@ == i_number_pattern(),
{
    r"\s*#-?(0b[01]+|0x[A-Fa-f\d]+|\d+)\s*"
}

/// The pattern of a label, with the white space around it.
pub fn re_label() -> (r: &'static str)
    ensures
        r@ == label_pattern(),
{
    r"\s*[a-zA-Z_]\w*\s*"
}

/// Whether a token is a binary immediate value, such as `#0b101`.
pub fn is_bin(num: &str) -> (r: bool)
    ensures
        r == regex_matches(bin_pattern(), num@),
{
    is_match(r"^#-?0b[01]+$", num)
}

/// Whether a token is a hexadecimal immediate value, such as `#0xff`.
pub fn is_hex(num: &str) -> (r: bool)
    ensures
        r == regex_matches(hex_pattern(), num@),
{
    is_match(r"^#-?0x[A-Fa-f\d]+$", num)
}

/// Whether a token ends in a decimal immediate value, such as `#12`.
pub fn is_dec(num: &str) -> (r: bool)
    ensures
        r == regex_matches(dec_pattern(), num@),
{
    is_match(r"#-?\d+$", num)
}

pub open spec fn register_range_message(n: u32) -> Seq<char> {
    "Register r"@ + decimal(n as nat) + " is invalid, only registers r0 to r15 are allowed."@
}

pub open spec fn register_invalid_message(token: Seq<char>) -> Seq<char> {
    "Register "@ + token + " is invalid, only registers r0 to r15 are allowed."@
}

pub open spec fn immediate_invalid_message(token: Seq<char>) -> Seq<char> {
    token + " is not a valid immediate value."@
}

pub open spec fn immediate_bounds_message(token: Seq<char>) -> Seq<char> {
    "Immediate value "@ + token + " is out of bounds."@
}

/// The radix of an immediate token and the number of characters before its
/// digits, as the three number patterns, tried in the order binary,
/// hexadecimal, decimal, say; nothing if none of them matches.
pub open spec fn immediate_form(bin: bool, hex: bool, dec: bool, negative: bool) -> Option<
    (nat, int),
> {
    let sign: int = if negative {
        1
    } else {
        0
    };
    if bin {
        Some((2, 3 + sign))
    } else if hex {
        Some((16, 3 + sign))
    } else if dec {
        Some((10, 1 + sign))
    } else {
        None
    }
}

/// The value of an immediate token of a known form: its digits read in the
/// radix, negated in two's complement after `#-`; an error if the digits do
/// not fit 32 bits.
pub open spec fn immediate_value(token: Seq<char>, form: Option<(nat, int)>) -> Result<
    u32,
    Seq<char>,
> {
    match form {
        None => Err(immediate_invalid_message(token)),
        Some((radix, skip)) => match parsed_u32(tail(token, skip), radix) {
            Some(n) => Ok(
                if "#-"@.is_prefix_of(token) {
                    wrap32(-n)
                } else {
                    n
                },
            ),
            None => Err(immediate_bounds_message(token)),
        },
    }
}

/// The value of one operand token: `r0` to `r15` give their number, `sp`,
/// `lr` and `pc` give 13, 14 and 15, and an immediate its value.
pub open spec fn token_value(raw: Seq<char>) -> Result<u32, Seq<char>> {
    let token = trimmed(raw);
    if "r"@.is_prefix_of(token) {
        match parsed_u32(tail(token, 1), 10) {
            Some(n) => if n > 15 {
                Err(register_range_message(n))
            } else {
                Ok(n)
            },
            None => Err(register_invalid_message(token)),
        }
    } else if token == "sp"@ {
        Ok(13)
    } else if token == "lr"@ {
        Ok(14)
    } else if token == "pc"@ {
        Ok(15)
    } else {
        immediate_value(
            token,
            immediate_form(
                regex_matches(bin_pattern(), token),
                regex_matches(hex_pattern(), token),
                regex_matches(dec_pattern(), token),
                "#-"@.is_prefix_of(token),
            ),
        )
    }
}

/// The values of the tokens that have one, in order.
pub open spec fn token_numbers(tokens: Seq<Seq<char>>) -> Seq<u32>
    decreases tokens.len(),
{
    if tokens.len() == 0 {
        Seq::empty()
    } else {
        match token_value(tokens.last()) {
            Ok(n) => token_numbers(tokens.drop_last()).push(n),
            Err(_) => token_numbers(tokens.drop_last()),
        }
    }
}

/// The errors of the tokens that have no value, in order.
pub open spec fn token_errors(tokens: Seq<Seq<char>>) -> Seq<Seq<char>>
    decreases tokens.len(),
{
    if tokens.len() == 0 {
        Seq::empty()
    } else {
        match token_value(tokens.last()) {
            Ok(_) => token_errors(tokens.drop_last()),
            Err(e) => token_errors(tokens.drop_last()).push(e),
        }
    }
}

/// The numbers of a list of tokens, or the errors if any token has no value.
pub open spec fn numbers_of(tokens: Seq<Seq<char>>) -> Result<Seq<u32>, Seq<Seq<char>>> {
    if token_errors(tokens).len() == 0 {
        Ok(token_numbers(tokens))
    } else {
        Err(token_errors(tokens))
    }
}

/// The value of a token does not depend on the white space around it.
pub proof fn lemma_token_value_ignores_spaces(raw: Seq<char>)
    ensures
        token_value(trimmed(raw)) == token_value(raw),
{
    lemma_trimmed_twice(raw);
}

/// A register token has a value of at most 15.
pub proof fn lemma_register_token_bound(raw: Seq<char>)
    ensures
        "r"@.is_prefix_of(trimmed(raw)) ==> (token_value(raw) matches Ok(n) ==> n <= 15),
{
}

/// A list of numbers or a list of messages, by what they hold.
pub open spec fn numbers_view(r: Result<Vec<u32>, Vec<String>>) -> Result<
    Seq<u32>,
    Seq<Seq<char>>,
> {
    match r {
        Ok(v) => Ok(v@),
        Err(e) => Err(texts(e@)),
    }
}

/// The value of an immediate token, given which of the three number
/// patterns it matches.
pub fn immediate_from(token: &str, bin: bool, hex: bool, dec: bool) -> (r: Result<u32, String>)
    ensures
        match r {
            Ok(n) => immediate_value(
                token@,
                immediate_form(bin, hex, dec, "#-"@.is_prefix_of(token@)),
            ) == Ok::<u32, Seq<char>>(n),
            Err(e) => immediate_value(
                token@,
                immediate_form(bin, hex, dec, "#-"@.is_prefix_of(token@)),
            ) == Err::<u32, Seq<char>>(e@),
        },
{
    let negative = starts_with(token, "#-");
    let sign: usize = if negative {
        1
    } else {
        0
    };
    let parsed = if bin {
        parse_u32(tail_of(token, 3 + sign), 2)
    } else if hex {
        parse_u32(tail_of(token, 3 + sign), 16)
    } else if dec {
        parse_u32(tail_of(token, 1 + sign), 10)
    } else {
        return Err(String::from_str(token).concat(" is not a valid immediate value."));
    };
    match parsed {
        Some(n) => Ok(
            if negative {
                wrapping_difference(0, n)
            } else {
                n
            },
        ),
        None => Err(
            String::from_str("Immediate value ").concat(token).concat(" is out of bounds."),
        ),
    }
}

/// The value of one operand token.
pub fn number_from_token(raw: &str) -> (r: Result<u32, String>)
    ensures
        match r {
            Ok(n) => token_value(raw@) == Ok::<u32, Seq<char>>(n),
            Err(e) => token_value(raw@) == Err::<u32, Seq<char>>(e@),
        },
{
    let token = trim(raw);
    if starts_with(token, "r") {
        match parse_u32(tail_of(token, 1), 10) {
            Some(n) => {
                if n > 15 {
                    let number = decimal_string(n as u64);
                    Err(
                        String::from_str("Register r").concat(number.as_str()).concat(
                            " is invalid, only registers r0 to r15 are allowed.",
                        ),
                    )
                } else {
                    Ok(n)
                }
            },
            None => Err(
                String::from_str("Register ").concat(token).concat(
                    " is invalid, only registers r0 to r15 are allowed.",
                ),
            ),
        }
    } else if str_eq(token, "sp") {
        Ok(13)
    } else if str_eq(token, "lr") {
        Ok(14)
    } else if str_eq(token, "pc") {
        Ok(15)
    } else {
        let bin = is_bin(token);
        let hex = is_hex(token);
        let dec = is_dec(token);
        immediate_from(token, bin, hex, dec)
    }
}

/// The numbers of a list of operand tokens, in order, or the errors of the
/// tokens that have no value.
pub fn numbers_from_tokens(tokens: &Vec<String>) -> (r: Result<Vec<u32>, Vec<String>>)
    ensures
        numbers_view(r) == numbers_of(texts(tokens@)),
{
    let mut errors: Vec<String> = Vec::new();
    let mut numbers: Vec<u32> = Vec::new();
    let ghost all = texts(tokens@);
    let mut i: usize = 0;
    assert(all.take(0) =~= Seq::<Seq<char>>::empty());
    assert(texts(errors@) =~= Seq::<Seq<char>>::empty());
    while i < tokens.len()
        invariant
            i <= tokens@.len(),
            all == texts(tokens@),
            numbers@ == token_numbers(all.take(i as int)),
            texts(errors@) == token_errors(all.take(i as int)),
        decreases tokens@.len() - i,
    {
        assert(all.take(i + 1).drop_last() =~= all.take(i as int));
        assert(all.take(i + 1).last() == tokens@[i as int]@);
        match number_from_token(tokens[i].as_str()) {
            Ok(n) => {
                numbers.push(n);
            },
            Err(e) => {
                push_text(&mut errors, e);
            },
        }
        i += 1;
    }
    assert(all.take(tokens@.len() as int) =~= all);
    if errors.len() == 0 {
        Ok(numbers)
    } else {
        Err(errors)
    }
}

/// The numbers that a line holds: one for each register and each immediate
/// value, from left to right. Registers beyond `r15` and immediate values
/// that are ill formed or do not fit 32 bits are errors.
pub fn get_all_numbers(line: &str) -> (r: Result<Vec<u32>, Vec<String>>)
    ensures
        numbers_view(r) == numbers_of(regex_occurrences(token_pattern(), line@)),
{
    let pattern = String::from_str(register()).concat(r"|#[\da-fA-Fx]+|").concat(i_number());
    let tokens = find_all(pattern.as_str(), line);
    assert(tokens.deep_view() =~= texts(tokens@));
    numbers_from_tokens(&tokens)
}

/// `mnemonic Rd, #imm`
#[allow(non_snake_case)]
pub fn is_Rd_immed(line: &str) -> (r: bool)
    ensures
        r == regex_matches(rd_immed_pattern(), line@),
{
    let p = String::from_str(r"^\S+\s+").concat(register()).concat(",").concat(i_number()).concat(
        "$",
    );
    is_match(p.as_str(), line)
}

/// `mnemonic Rd, Rm`
#[allow(non_snake_case)]
pub fn is_Rd_Rm(line: &str) -> (r: bool)
    ensures
        r == regex_matches(rd_rm_pattern(), line@),
{
    let p = String::from_str(r"^\S+\s+").concat(register()).concat(",").concat(register()).concat(
        "$",
    );
    is_match(p.as_str(), line)
}

/// `mnemonic Rd, Rn, #imm`
#[allow(non_snake_case)]
pub fn is_Rd_Rn_immed(line: &str) -> (r: bool)
    ensures
        r == regex_matches(rd_rn_immed_pattern(), line@),
{
    let p = String::from_str(r"^\S+\s+").concat(register()).concat(",").concat(register()).concat(
        ",",
    ).concat(i_number()).concat("$");
    is_match(p.as_str(), line)
}

/// `mnemonic Rd, Rn, Rm`
#[allow(non_snake_case)]
pub fn is_Rd_Rn_Rm(line: &str) -> (r: bool)
    ensures
        r == regex_matches(rd_rn_rm_pattern(), line@),
{
    let p = String::from_str(r"^\S+\s+").concat(register()).concat(",").concat(register()).concat(
        ",",
    ).concat(register()).concat("$");
    is_match(p.as_str(), line)
}

/// `mnemonic Rt, [Rn]`
#[allow(non_snake_case)]
pub fn is_Rt_Rn(line: &str) -> (r: bool)
    ensures
        r == regex_matches(rt_rn_pattern(), line@),
{
    let p = String::from_str(r"^\S+\s+").concat(register()).concat(r",\s*\[").concat(
        register(),
    ).concat("]$");
    is_match(p.as_str(), line)
}

/// `mnemonic Rt, [Rn, #imm]`
#[allow(non_snake_case)]
pub fn is_Rt_Rn_imm(line: &str) -> (r: bool)
    ensures
        r == regex_matches(rt_rn_imm_pattern(), line@),
{
    let p = String::from_str(r"^\S+\s+").concat(register()).concat(r",\s*\[").concat(
        register(),
    ).concat(",").concat(i_number()).concat("]$");
    is_match(p.as_str(), line)
}

/// `mnemonic Rt, [Rn], #imm`
#[allow(non_snake_case)]
pub fn is_Rt_Rn_imm_post(line: &str) -> (r: bool)
    ensures
        r == regex_matches(rt_rn_imm_post_pattern(), line@),
{
    let p = String::from_str(r"^\S+").concat(register()).concat(r",\s*\[").concat(
        register(),
    ).concat(r"]\s*,").concat(i_number()).concat("$");
    is_match(p.as_str(), line)
}

/// `mnemonic Rt, [Rn, #imm]!`
#[allow(non_snake_case)]
pub fn is_Rt_Rn_imm_pre(line: &str) -> (r: bool)
    ensures
        r == regex_matches(rt_rn_imm_pre_pattern(), line@),
{
    let p = String::from_str(r"^\S+\s+").concat(register()).concat(r",\s*\[").concat(
        register(),
    ).concat(",").concat(i_number()).concat("]!$");
    is_match(p.as_str(), line)
}

/// `mnemonic Rt, [Rn, Rm]`
#[allow(non_snake_case)]
pub fn is_Rt_Rn_Rm(line: &str) -> (r: bool)
    ensures
        r == regex_matches(rt_rn_rm_pattern(), line@),
{
    let p = String::from_str(r"^\S+\s+").concat(register()).concat(r",\s*\[").concat(
        register(),
    ).concat(",").concat(register()).concat("]$");
    is_match(p.as_str(), line)
}

/// `mnemonic Rt, [Rn, Rm, lsl #imm]`
#[allow(non_snake_case)]
pub fn is_Rt_Rn_Rm_shift(line: &str) -> (r: bool)
    ensures
        r == regex_matches(rt_rn_rm_shift_pattern(), line@),
{
    let p = String::from_str(r"^\S+\s+").concat(register()).concat(r",\s*\[").concat(
        register(),
    ).concat(",").concat(register()).concat(r",\s*lsl\s*").concat(i_number()).concat("]$");
    is_match(p.as_str(), line)
}

/// `mnemonic Rt,=label`
#[allow(non_snake_case)]
pub fn is_Rt_equal_label(line: &str) -> (r: bool)
    ensures
        r == regex_matches(rt_equal_label_pattern(), line@),
{
    let p = String::from_str(r"^\S+").concat(register()).concat(",=").concat(re_label()).concat(
        "$",
    );
    is_match(p.as_str(), line)
}

/// `mnemonic Rt,=#imm`
#[allow(non_snake_case)]
pub fn is_Rt_equal_immed(line: &str) -> (r: bool)
    ensures
        r == regex_matches(rt_equal_immed_pattern(), line@),
{
    let p = String::from_str(r"^\S+").concat(register()).concat(",=").concat(i_number()).concat(
        "*$",
    );
    is_match(p.as_str(), line)
}

/// `mnemonic label`
pub fn is_label(line: &str) -> (r: bool)
    ensures
        r == regex_matches(branch_pattern(), line@),
{
    let p = String::from_str(r"^\S+").concat(re_label()).concat("$");
    is_match(p.as_str(), line)
}

/// The shapes in which operands are written.
#[derive(Debug, Clone, Copy, PartialEq, Eq, Structural)]
pub enum Shape {
    RdImmed,
    RdRm,
    RdRnImmed,
    RdRnRm,
    RtRn,
    RtRnImm,
    RtRnImmPost,
    RtRnImmPre,
    RtRnRm,
    RtRnRmShift,
    RtEqualLabel,
    RtEqualImmed,
}

/// The first shape, in the order of `Shape`, whose pattern the line matches.
pub open spec fn shape_of(line: Seq<char>) -> Option<Shape> {
    if regex_matches(rd_immed_pattern(), line) {
        Some(Shape::RdImmed)
    } else if regex_matches(rd_rm_pattern(), line) {
        Some(Shape::RdRm)
    } else if regex_matches(rd_rn_immed_pattern(), line) {
        Some(Shape::RdRnImmed)
    } else if regex_matches(rd_rn_rm_pattern(), line) {
        Some(Shape::RdRnRm)
    } else if regex_matches(rt_rn_pattern(), line) {
        Some(Shape::RtRn)
    } else if regex_matches(rt_rn_imm_pattern(), line) {
        Some(Shape::RtRnImm)
    } else if regex_matches(rt_rn_imm_post_pattern(), line) {
        Some(Shape::RtRnImmPost)
    } else if regex_matches(rt_rn_imm_pre_pattern(), line) {
        Some(Shape::RtRnImmPre)
    } else if regex_matches(rt_rn_rm_pattern(), line) {
        Some(Shape::RtRnRm)
    } else if regex_matches(rt_rn_rm_shift_pattern(), line) {
        Some(Shape::RtRnRmShift)
    } else if regex_matches(rt_equal_label_pattern(), line) {
        Some(Shape::RtEqualLabel)
    } else if regex_matches(rt_equal_immed_pattern(), line) {
        Some(Shape::RtEqualImmed)
    } else {
        None
    }
}

/// The shape of the operands of a line.
pub fn classify(line: &str) -> (r: Option<Shape>)
    ensures
        r == shape_of(line@),
{
    if is_Rd_immed(line) {
        Some(Shape::RdImmed)
    } else if is_Rd_Rm(line) {
        Some(Shape::RdRm)
    } else if is_Rd_Rn_immed(line) {
        Some(Shape::RdRnImmed)
    } else if is_Rd_Rn_Rm(line) {
        Some(Shape::RdRnRm)
    } else if is_Rt_Rn(line) {
        Some(Shape::RtRn)
    } else if is_Rt_Rn_imm(line) {
        Some(Shape::RtRnImm)
    } else if is_Rt_Rn_imm_post(line) {
        Some(Shape::RtRnImmPost)
    } else if is_Rt_Rn_imm_pre(line) {
        Some(Shape::RtRnImmPre)
    } else if is_Rt_Rn_Rm(line) {
        Some(Shape::RtRnRm)
    } else if is_Rt_Rn_Rm_shift(line) {
        Some(Shape::RtRnRmShift)
    } else if is_Rt_equal_label(line) {
        Some(Shape::RtEqualLabel)
    } else if is_Rt_equal_immed(line) {
        Some(Shape::RtEqualImmed)
    } else {
        None
    }
}

/// Sets the `N` and `Z` flags from a value.
pub fn set_nz_flags(num: u32, chip: &mut Processor)
    ensures
        final(chip)@ == old(chip)@.with_nz(num),
{
    chip.N = num >= 0x8000_0000;
    chip.Z = num == 0;
}

/// What a memory reference addresses: the register to load or store, the
/// address, and the machine after the base register was written back. An
/// offset form leaves the base alone, a post-indexed form uses the base and
/// then moves it, a pre-indexed form moves the base and then uses it, and a
/// register offset adds the second register, shifted left. Nothing for
/// operands that are no memory reference.
pub open spec fn addressed(operands: Operands, m: Machine) -> Option<(u8, u32, Machine)> {
    match operands {
        Operands::Rt_Rn_imm { Rt, Rn, imm } => Some(
            (
                Rt,
                wrap32(
                    m.R[Rn as int] + (match imm {
                        Some(i) => i as int,
                        None => 0,
                    }),
                ),
                m,
            ),
        ),
        Operands::Rt_Rn_imm_post { Rt, Rn, imm } => Some(
            (Rt, m.R[Rn as int], m.with_register(Rn as int, wrap32(m.R[Rn as int] + imm))),
        ),
        Operands::Rt_Rn_imm_pre { Rt, Rn, imm } => Some(
            (
                Rt,
                wrap32(m.R[Rn as int] + imm),
                m.with_register(Rn as int, wrap32(m.R[Rn as int] + imm)),
            ),
        ),
        Operands::Rt_Rn_Rm { Rt, Rn, Rm, shift } => Some(
            (
                Rt,
                wrap32(
                    m.R[Rn as int] + shl32(
                        m.R[Rm as int],
                        (match shift {
                            Some(k) => (k % 32) as nat,
                            None => 0,
                        }),
                    ),
                ),
                m,
            ),
        ),
        _ => None,
    }
}

/// The register and the address of a memory reference; the base register is
/// written back where the form asks for it.
pub fn get_rt_and_address(operands: &Operands, chip: &mut Processor) -> (r: Result<
    (u8, u32),
    String,
>)
    requires
        operands.registers_valid(),
    ensures
        match addressed(*operands, old(chip)@) {
            Some((rt, address, m)) => r matches Ok(p) && p == (rt, address) && final(chip)@ == m,
            None => r matches Err(e) && e@ == invalid_operands_message() && final(chip)@ == old(
                chip,
            )@,
        },
{
    match *operands {
        Operands::Rt_Rn_imm { Rt, Rn, imm } => {
            let offset: i32 = match imm {
                Some(i) => i,
                None => 0,
            };
            Ok((Rt, wrapping_offset(chip.R[index_of(Rn)], offset)))
        },
        Operands::Rt_Rn_imm_post { Rt, Rn, imm } => {
            let address = chip.R[index_of(Rn)];
            chip.R[index_of(Rn)] = wrapping_offset(address, imm);
            Ok((Rt, address))
        },
        Operands::Rt_Rn_imm_pre { Rt, Rn, imm } => {
            let address = wrapping_offset(chip.R[index_of(Rn)], imm);
            chip.R[index_of(Rn)] = address;
            Ok((Rt, address))
        },
        Operands::Rt_Rn_Rm { Rt, Rn, Rm, shift } => {
            let k: u8 = match shift {
                Some(k) => k,
                None => 0,
            };
            Ok((Rt, wrapping_sum(chip.R[index_of(Rn)], shift_left(chip.R[index_of(Rm)], k))))
        },
        _ => Err(invalid_operands()),
    }
}

/// Memory with the `n` low bytes of a word stored from `address` on, least
/// significant byte first.
pub open spec fn stored(memory: Seq<u8>, address: int, v: u32, n: nat) -> Seq<u8>
    decreases n,
{
    if n == 0 {
        memory
    } else {
        stored(memory, address, v, (n - 1) as nat).update(address + n - 1, byte_at(v, n - 1))
    }
}

/// The number that the `n` bytes from `address` on stand for, least
/// significant byte first.
pub open spec fn loaded(memory: Seq<u8>, address: int, n: nat) -> int
    decreases n,
{
    if n == 0 {
        0
    } else {
        loaded(memory, address, (n - 1) as nat) + memory[address + n - 1] * byte_weight(n - 1)
    }
}

/// The number that up to four bytes stand for fits a word.
pub proof fn lemma_loaded_bound(memory: Seq<u8>, address: int, n: nat)
    requires
        n <= 4,
        0 <= address,
        address + n <= memory.len(),
    ensures
        0 <= loaded(memory, address, n) < (if n == 4 {
            0x1_0000_0000
        } else {
            byte_weight(n as int)
        }),
    decreases n,
{
    if n > 0 {
        lemma_loaded_bound(memory, address, (n - 1) as nat);
        let b = memory[address + n - 1];
        let w = byte_weight(n - 1);
        assert(0 <= b * w <= 255 * w) by (nonlinear_arith)
            requires
                0 <= b <= 255,
                w >= 1,
        ;
    }
}

/// What a store of `size` bytes does: the low bytes of the register go to
/// memory at the address, if the whole access lies within memory.
pub open spec fn store_outcome(operands: Operands, m: Machine, size: MemSize) -> Outcome {
    match addressed(operands, m) {
        None => Outcome::failed(m, invalid_operands_message()),
        Some((rt, address, after)) => if in_bounds(address, after.memory.len(), size) {
            Outcome::done(
                Machine {
                    memory: stored(after.memory, address as int, after.R[rt as int], size.size()),
                    ..after
                },
            )
        } else {
            Outcome::failed(after, out_of_bounds_message(address))
        },
    }
}

/// What a load of `size` bytes does: the register gets the bytes at the
/// address, zero-extended, if the whole access lies within memory.
pub open spec fn load_outcome(operands: Operands, m: Machine, size: MemSize) -> Outcome {
    match addressed(operands, m) {
        None => Outcome::failed(m, invalid_operands_message()),
        Some((rt, address, after)) => if in_bounds(address, after.memory.len(), size) {
            Outcome::done(
                after.with_register(
                    rt as int,
                    loaded(after.memory, address as int, size.size()) as u32,
                ),
            )
        } else {
            Outcome::failed(after, out_of_bounds_message(address))
        },
    }
}

/// Stores a byte, halfword or word in memory.
pub fn store_bytes(operands: &Operands, chip: &mut Processor, size: MemSize) -> (r: Result<
    (),
    String,
>)
    requires
        operands.registers_valid(),
    ensures
        final(chip)@ == store_outcome(*operands, old(chip)@, size).machine,
        store_outcome(*operands, old(chip)@, size).reported_by(r),
{
    let (rt, address) = match get_rt_and_address(operands, chip) {
        Ok(p) => p,
        Err(e) => {
            return Err(e);
        },
    };
    let address = match check_memory_bounds(address, chip.memory.len(), size) {
        Ok(a) => a,
        Err(e) => {
            return Err(e);
        },
    };
    let ghost after = chip@;
    let value = chip.R[index_of(rt)];
    let n = size.bytes();
    let mut i: usize = 0;
    while i < n
        invariant
            i <= n <= 4,
            address + n <= 1024,
            chip@ == (Machine {
                memory: stored(after.memory, address as int, value, i as nat),
                ..after
            }),
        decreases n - i,
    {
        chip.memory[address + i] = byte_of(value, i);
        i += 1;
    }
    Ok(())
}

/// Loads a byte, halfword or word from memory, zero-extended.
pub fn load_bytes(operands: &Operands, chip: &mut Processor, size: MemSize) -> (r: Result<
    (),
    String,
>)
    requires
        operands.registers_valid(),
    ensures
        final(chip)@ == load_outcome(*operands, old(chip)@, size).machine,
        load_outcome(*operands, old(chip)@, size).reported_by(r),
{
    let (rt, address) = match get_rt_and_address(operands, chip) {
        Ok(p) => p,
        Err(e) => {
            return Err(e);
        },
    };
    let address = match check_memory_bounds(address, chip.memory.len(), size) {
        Ok(a) => a,
        Err(e) => {
            return Err(e);
        },
    };
    let n = size.bytes();
    let mut value: u32 = 0;
    let mut i: usize = 0;
    while i < n
        invariant
            i <= n <= 4,
            address + n <= 1024,
            value == loaded(chip@.memory, address as int, i as nat),
        decreases n - i,
    {
        proof {
            lemma_loaded_bound(chip@.memory, address as int, (i + 1) as nat);
        }
        value = value + weighted_byte(chip.memory[address + i], i);
        i += 1;
    }
    chip.R[index_of(rt)] = value;
    Ok(())
}

pub open spec fn end_of_line() -> Seq<char> {
    "\n"@
}

pub open spec fn not_a_character_message() -> Seq<char> {
    "Warning. Register value exceeds 255 and cannot be converted to an ascii character."@
}

pub open spec fn no_string_message(file_name: Seq<char>, line_number: nat) -> Seq<char> {
    "\""@ + file_name + "\" line "@ + decimal(line_number)
        + ": Cannot print string pointed to by register r0."@
}

/// What a branch to a predefined subroutine does to the standard output, and
/// the input that it asks for: `cr` writes a line feed, `value` the register
/// `r0` as a signed number, `printchar` the character whose number `r0`
/// holds, `printf` the string whose index `r0` holds, and `getchar` and
/// `getnumber` ask for input. A branch to a line, and operands that are no
/// label, do nothing here.
pub open spec fn subroutine(
    out: Seq<char>,
    r0: u32,
    operands: Operands,
    file_name: Seq<char>,
    line_number: nat,
    strings: Seq<Seq<char>>,
) -> Result<(Seq<char>, Option<InputStatus>), Seq<char>> {
    match operands {
        Operands::label { label } => match label {
            Label::CR => Ok((out + end_of_line(), None)),
            Label::VALUE => Ok((out + signed_decimal(signed(r0)), None)),
            Label::PRINTCHAR => match scalar_value(r0) {
                Some(c) => Ok((out.push(c), None)),
                None => Ok((out + not_a_character_message(), None)),
            },
            Label::PRINTF => if r0 < strings.len() {
                Ok((out + strings[r0 as int], None))
            } else {
                Err(no_string_message(file_name, line_number))
            },
            Label::GetNumber => Ok((out, Some(InputStatus::GetNumber))),
            Label::GetChar => Ok((out, Some(InputStatus::GetChar))),
            Label::Index(_) => Ok((out, None)),
        },
        _ => Ok((out, None)),
    }
}

/// Runs the predefined subroutine that a branch names, if it names one.
pub fn run_branch_instruction(
    std_out: &mut String,
    r0: u32,
    operands: &Operands,
    file_name: &str,
    line_number: usize,
    string_messages: &Vec<String>,
) -> (r: Result<Option<InputStatus>, String>)
    ensures
        match subroutine(
            old(std_out)@,
            r0,
            *operands,
            file_name@,
            line_number as nat,
            texts(string_messages@),
        ) {
            Ok((out, input)) => r == Ok::<Option<InputStatus>, String>(input) && final(std_out)@
                == out,
            Err(e) => r matches Err(m) && m@ == e && final(std_out)@ == old(std_out)@,
        },
{
    match *operands {
        Operands::label { label } => match label {
            Label::CR => {
                std_out.append("\n");
            },
            Label::VALUE => {
                let number = signed_decimal_string(to_signed(r0));
                std_out.append(number.as_str());
            },
            Label::PRINTCHAR => {
                match char_from_u32(r0) {
                    Some(c) => {
                        push_char(std_out, c);
                    },
                    None => {
                        std_out.append(
                            "Warning. Register value exceeds 255 and cannot be converted to an ascii character.",
                        );
                    },
                }
            },
            Label::PRINTF => {
                let i = word_index(r0);
                if i < string_messages.len() {
                    std_out.append(string_messages[i].as_str());
                } else {
                    let number = decimal_string(line_number as u64);
                    return Err(
                        String::from_str("\"").concat(file_name).concat("\" line ").concat(
                            number.as_str(),
                        ).concat(": Cannot print string pointed to by register r0."),
                    );
                }
            },
            Label::GetNumber => {
                return Ok(Some(InputStatus::GetNumber));
            },
            Label::GetChar => {
                return Ok(Some(InputStatus::GetChar));
            },
            Label::Index(_) => {},
        },
        _ => {},
    }
    Ok(None)
}

} // verus!
