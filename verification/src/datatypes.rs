//! The value model: numbers and booleans, how a literal token becomes a
//! value, and arithmetic between two values.
//!
//! A floating-point number is held as the bit pattern of an IEEE 754
//! single-precision number. The library never computes on such a pattern: it
//! decides which operation is due and on which operands, and hands that to a
//! floating-point unit that the caller supplies. A unit is a function from an
//! operator and two numbers to the bit pattern of the result; it widens an
//! integer operand before it operates. Literals with a decimal point are
//! turned into bit patterns by a reader that the caller supplies as well.

use vstd::prelude::*;
use vstd::string::*;
use crate::error::{EvalError, InvalidLiteral};
use crate::operators::{
    unit_answers_once,
    unit_ready,
    AddOperatorTrait,
    BinaryOperator,
    DivideOperatorTrait,
    MultiplyOperatorTrait,
    SubtractOperatorTrait,
};
use crate::token::{Token, TokenView};

verus! {

/// A number: a 32-bit signed integer, or the bit pattern of a
/// single-precision floating-point number.
#[derive(Debug, Clone, Copy, PartialEq, Eq, Structural)]
pub enum NumberType {
    Integer(i32),
    Float(u32),
}

/// A value of the language.
#[derive(Debug, Clone, Copy, PartialEq, Eq, Structural)]
pub enum DataType {
    Number(NumberType),
    Boolean(bool),
}

/// Whether `c` is one of the ten decimal digits.
pub open spec fn is_decimal_digit(c: char) -> bool {
    '0' <= c && c <= '9'
}

/// The number that a text of decimal digits denotes; the empty text denotes 0.
pub open spec fn decimal_value(digits: Seq<char>) -> int
    decreases digits.len(),
{
    if digits.len() == 0 {
        0
    } else {
        10 * decimal_value(digits.drop_last()) + (digits.last() as u32 - '0' as u32)
    }
}

/// Whether `text` starts with a sign.
pub open spec fn has_sign(text: Seq<char>) -> bool {
    text.len() > 0 && (text[0] == '-' || text[0] == '+')
}

/// The digits of an integer literal: the text without its sign.
pub open spec fn digits_of(text: Seq<char>) -> Seq<char> {
    if has_sign(text) {
        text.subrange(1, text.len() as int)
    } else {
        text
    }
}

/// The number that an integer literal denotes, whether or not it fits in 32
/// bits.
pub open spec fn signed_value(text: Seq<char>) -> int {
    if text.len() > 0 && text[0] == '-' {
        -decimal_value(digits_of(text))
    } else {
        decimal_value(digits_of(text))
    }
}

/// The 32-bit signed integer that `text` denotes.
///
/// A text denotes one if it is an optional sign followed by at least one
/// decimal digit and nothing else, and the number fits in 32 bits.
pub open spec fn integer_of(text: Seq<char>) -> Option<i32> {
    if digits_of(text).len() > 0 && (forall|i: int|
        0 <= i < digits_of(text).len() ==> is_decimal_digit(#[trigger] digits_of(text)[i]))
        && i32::MIN <= signed_value(text) <= i32::MAX {
        Some(signed_value(text) as i32)
    } else {
        None
    }
}

/// Whether `text` is read as a floating-point literal: it holds a decimal point.
pub open spec fn is_float_text(text: Seq<char>) -> bool {
    exists|i: int| 0 <= i < text.len() && text[i] == '.'
}

/// The reader accepts every text that holds a decimal point.
pub open spec fn reader_ready<R: Fn(&str) -> Option<u32>>(read_float: &R) -> bool {
    forall|text: &str| is_float_text(text@) ==> call_requires(*read_float, (text,))
}

/// `answer` is what the reader may return for a text that spells `text`.
pub open spec fn reads<R: Fn(&str) -> Option<u32>>(
    read_float: &R,
    text: Seq<char>,
    answer: Option<u32>,
) -> bool {
    exists|spelling: &str| spelling@ == text && call_ensures(*read_float, (spelling,), answer)
}

/// `outcome` is what [`DataType::from_token`] may return for `token`.
///
/// `true` and `false` are the two booleans. A numeric literal without a
/// decimal point is the integer it denotes. One with a decimal point is the
/// floating-point number that the reader makes of it. Everything else, and
/// every text that denotes no number, is an invalid literal.
pub open spec fn literal_of<R: Fn(&str) -> Option<u32>>(
    token: TokenView,
    read_float: &R,
    outcome: Result<DataType, InvalidLiteral>,
) -> bool {
    match token {
        TokenView::True => outcome == Ok::<DataType, InvalidLiteral>(DataType::Boolean(true)),
        TokenView::False => outcome == Ok::<DataType, InvalidLiteral>(DataType::Boolean(false)),
        TokenView::Number(text) => if is_float_text(text) {
            match outcome {
                Ok(value) => value matches DataType::Number(NumberType::Float(bits)) && reads(
                    read_float,
                    text,
                    Some(bits),
                ),
                Err(_) => reads(read_float, text, None),
            }
        } else {
            outcome == match integer_of(text) {
                Some(value) => Ok::<DataType, InvalidLiteral>(
                    DataType::Number(NumberType::Integer(value)),
                ),
                None => Err(InvalidLiteral),
            }
        },
        _ => outcome == Err::<DataType, InvalidLiteral>(InvalidLiteral),
    }
}

/// A longer run of digits denotes no smaller number than its start.
proof fn decimal_value_grows(digits: Seq<char>, k: int)
    requires
        0 <= k <= digits.len(),
        forall|i: int| 0 <= i < digits.len() ==> is_decimal_digit(#[trigger] digits[i]),
    ensures
        0 <= decimal_value(digits.take(k)) <= decimal_value(digits),
    decreases digits.len() - k,
{
    if k == digits.len() {
        assert(digits.take(k) =~= digits);
        decimal_value_nonnegative(digits);
    } else {
        decimal_value_grows(digits, k + 1);
        assert(digits.take(k + 1).drop_last() =~= digits.take(k));
        assert(is_decimal_digit(digits[k]));
        decimal_value_nonnegative(digits.take(k));
    }
}

/// A run of digits denotes no negative number.
proof fn decimal_value_nonnegative(digits: Seq<char>)
    requires
        forall|i: int| 0 <= i < digits.len() ==> is_decimal_digit(#[trigger] digits[i]),
    ensures
        0 <= decimal_value(digits),
    decreases digits.len(),
{
    if digits.len() > 0 {
        decimal_value_nonnegative(digits.drop_last());
        assert(is_decimal_digit(digits[digits.len() - 1]));
    }
}

/// Reads `text` as a 32-bit signed integer in decimal notation.
pub fn read_integer(text: &str) -> (value: Option<i32>)
    ensures
        value == integer_of(text@),
{
    let n = text.unicode_len();
    if n == 0 {
        return None;
    }
    let first = text.get_char(0);
    let negative = first == '-';
    let start: usize = if first == '-' || first == '+' {
        1
    } else {
        0
    };
    if start == n {
        return None;
    }
    let ghost digits = digits_of(text@);
    let mut magnitude: i64 = 0;
    let mut i: usize = start;
    while i < n
        invariant
            n == text@.len(),
            start <= i <= n,
            start == if has_sign(text@) { 1int } else { 0int },
            digits == digits_of(text@),
            digits.len() == n - start,
            forall|j: int| 0 <= j < i - start ==> is_decimal_digit(#[trigger] digits[j]),
            magnitude == decimal_value(digits.take(i - start)),
            0 <= magnitude <= 0x8000_0000,
        decreases n - i,
    {
        let c = text.get_char(i);
        assert(c == digits[i - start]);
        if !('0' <= c && c <= '9') {
            return None;
        }
        let d: i64 = (c as u32 - '0' as u32) as i64;
        magnitude = magnitude * 10 + d;
        proof {
            assert(digits.take(i - start + 1).drop_last() =~= digits.take(i - start));
            if magnitude > 0x8000_0000 && (forall|j: int|
                0 <= j < digits.len() ==> is_decimal_digit(#[trigger] digits[j])) {
                decimal_value_grows(digits, i - start + 1);
            }
        }
        if magnitude > 0x8000_0000 {
            return None;
        }
        i = i + 1;
    }
    assert(digits.take(n - start) =~= digits);
    if negative {
        Some((-magnitude) as i32)
    } else if magnitude <= 0x7fff_ffff {
        Some(magnitude as i32)
    } else {
        None
    }
}

/// Whether `text` holds a decimal point.
fn holds_point(text: &str) -> (r: bool)
    ensures
        r == is_float_text(text@),
{
    let n = text.unicode_len();
    let mut i: usize = 0;
    while i < n
        invariant
            n == text@.len(),
            i <= n,
            forall|j: int| 0 <= j < i ==> text@[j] != '.',
        decreases n - i,
    {
        if text.get_char(i) == '.' {
            return true;
        }
        i = i + 1;
    }
    false
}

impl DataType {
    /// The value of a literal token.
    ///
    /// `read_float` turns the text of a literal with a decimal point into the
    /// bit pattern of a single-precision number, or answers `None` if the text
    /// is no such number.
    pub fn from_token<R: Fn(&str) -> Option<u32>>(t: &Token, read_float: &R) -> (outcome: Result<
        DataType,
        InvalidLiteral,
    >)
        requires
            reader_ready(read_float),
        ensures
            literal_of(t@, read_float, outcome),
    {
        match t {
            Token::TRUE => Ok(DataType::Boolean(true)),
            Token::FALSE => Ok(DataType::Boolean(false)),
            Token::Number(val) => {
                if holds_point(val.as_str()) {
                    match read_float(val.as_str()) {
                        Some(bits) => Ok(DataType::Number(NumberType::Float(bits))),
                        None => Err(InvalidLiteral),
                    }
                } else {
                    match read_integer(val.as_str()) {
                        Some(value) => Ok(DataType::Number(NumberType::Integer(value))),
                        None => Err(InvalidLiteral),
                    }
                }
            },
            _ => Err(InvalidLiteral),
        }
    }
}

/// The 32-bit signed integer that is congruent to `x` modulo 2^32.
pub open spec fn wrap(x: int) -> i32 {
    if x % 0x1_0000_0000 > i32::MAX {
        (x % 0x1_0000_0000 - 0x1_0000_0000) as i32
    } else {
        (x % 0x1_0000_0000) as i32
    }
}

/// The quotient of `a` by `b`, rounded toward zero.
pub open spec fn truncated_quotient(a: int, b: int) -> int
    recommends
        b != 0,
{
    if a >= 0 && b > 0 {
        a / b
    } else if a < 0 && b < 0 {
        (-a) / (-b)
    } else if a < 0 {
        -((-a) / b)
    } else {
        -(a / (-b))
    }
}

/// The result of an arithmetic operator on two integers, in 32-bit
/// two's-complement arithmetic: sums, differences and products wrap around,
/// quotients are rounded toward zero, and there is no quotient by zero.
pub open spec fn integer_result(operator: BinaryOperator, a: i32, b: i32) -> Result<
    DataType,
    EvalError,
> {
    match operator {
        BinaryOperator::Add => Ok(DataType::Number(NumberType::Integer(wrap(a + b)))),
        BinaryOperator::Subtract => Ok(DataType::Number(NumberType::Integer(wrap(a - b)))),
        BinaryOperator::Multiply => Ok(DataType::Number(NumberType::Integer(wrap(a * b)))),
        BinaryOperator::Divide => if b == 0 {
            Err(EvalError::DivisionByZero)
        } else {
            Ok(DataType::Number(NumberType::Integer(wrap(truncated_quotient(a as int, b as int)))))
        },
        _ => Err(EvalError::NotSupported),
    }
}

/// `outcome` is what an arithmetic operator may return for two values.
///
/// Two integers give [`integer_result`]. Two numbers of which at least one is
/// a floating-point number give the floating-point number that the unit makes
/// of the operator and the two numbers as they stand. A boolean on either side
/// is an error that names the operator.
pub open spec fn is_result<U: Fn(BinaryOperator, NumberType, NumberType) -> u32>(
    operator: BinaryOperator,
    left: DataType,
    right: DataType,
    float_unit: &U,
    outcome: Result<DataType, EvalError>,
) -> bool {
    match (left, right) {
        (
            DataType::Number(NumberType::Integer(a)),
            DataType::Number(NumberType::Integer(b)),
        ) => outcome == integer_result(operator, a, b),
        (DataType::Number(a), DataType::Number(b)) => outcome matches Ok(
            DataType::Number(NumberType::Float(bits)),
        ) && call_ensures(*float_unit, (operator, a, b), bits),
        _ => outcome == Err::<DataType, EvalError>(EvalError::NotDefinedForBoolean(operator)),
    }
}

/// The result of an arithmetic operator on two integers.
fn integer_arithmetic(operator: BinaryOperator, a: i32, b: i32) -> (outcome: Result<
    DataType,
    EvalError,
>)
    ensures
        outcome == integer_result(operator, a, b),
{
    match operator {
        BinaryOperator::Add => Ok(DataType::Number(NumberType::Integer(a.wrapping_add(b)))),
        BinaryOperator::Subtract => Ok(DataType::Number(NumberType::Integer(a.wrapping_sub(b)))),
        BinaryOperator::Multiply => Ok(DataType::Number(NumberType::Integer(a.wrapping_mul(b)))),
        BinaryOperator::Divide => {
            if b == 0 {
                Err(EvalError::DivisionByZero)
            } else {
                match a.checked_div(b) {
                    Some(quotient) => Ok(DataType::Number(NumberType::Integer(quotient))),
                    None => Ok(DataType::Number(NumberType::Integer(i32::MIN))),
                }
            }
        },
        _ => Err(EvalError::NotSupported),
    }
}

/// The result of an arithmetic operator on two values.
fn arithmetic<U: Fn(BinaryOperator, NumberType, NumberType) -> u32>(
    operator: BinaryOperator,
    left: DataType,
    right: DataType,
    float_unit: &U,
) -> (outcome: Result<DataType, EvalError>)
    requires
        operator.is_arithmetic(),
        unit_ready(float_unit),
    ensures
        is_result(operator, left, right, float_unit, outcome),
{
    match (left, right) {
        (DataType::Number(NumberType::Integer(a)), DataType::Number(NumberType::Integer(b))) => {
            integer_arithmetic(operator, a, b)
        },
        (DataType::Number(a), DataType::Number(b)) => {
            Ok(DataType::Number(NumberType::Float(float_unit(operator, a, b))))
        },
        _ => Err(EvalError::NotDefinedForBoolean(operator)),
    }
}

impl AddOperatorTrait for DataType {
    /// The sum of two numbers.
    fn add<U: Fn(BinaryOperator, NumberType, NumberType) -> u32>(
        &self,
        other: DataType,
        float_unit: &U,
    ) -> (outcome: Result<DataType, EvalError>)
        ensures
            is_result(BinaryOperator::Add, *self, other, float_unit, outcome),
    {
        arithmetic(BinaryOperator::Add, *self, other, float_unit)
    }
}

impl SubtractOperatorTrait for DataType {
    /// The difference of two numbers.
    fn subtract<U: Fn(BinaryOperator, NumberType, NumberType) -> u32>(
        &self,
        other: DataType,
        float_unit: &U,
    ) -> (outcome: Result<DataType, EvalError>)
        ensures
            is_result(BinaryOperator::Subtract, *self, other, float_unit, outcome),
    {
        arithmetic(BinaryOperator::Subtract, *self, other, float_unit)
    }
}

impl MultiplyOperatorTrait for DataType {
    /// The product of two numbers.
    fn multiply<U: Fn(BinaryOperator, NumberType, NumberType) -> u32>(
        &self,
        other: DataType,
        float_unit: &U,
    ) -> (outcome: Result<DataType, EvalError>)
        ensures
            is_result(BinaryOperator::Multiply, *self, other, float_unit, outcome),
    {
        arithmetic(BinaryOperator::Multiply, *self, other, float_unit)
    }
}

impl DivideOperatorTrait for DataType {
    /// The quotient of two numbers.
    fn divide<U: Fn(BinaryOperator, NumberType, NumberType) -> u32>(
        &self,
        other: DataType,
        float_unit: &U,
    ) -> (outcome: Result<DataType, EvalError>)
        ensures
            is_result(BinaryOperator::Divide, *self, other, float_unit, outcome),
    {
        arithmetic(BinaryOperator::Divide, *self, other, float_unit)
    }
}

/// The quotient and the remainder of non-negative `x` by positive `d`.
proof fn quotient_and_remainder(x: int, d: int)
    requires
        0 <= x,
        0 < d,
    ensures
        0 <= x / d <= x,
        0 <= x - (x / d) * d < d,
{
    vstd::arithmetic::div_mod::lemma_fundamental_div_mod(x, d);
    vstd::arithmetic::div_mod::lemma_mod_pos_bound(x, d);
    vstd::arithmetic::div_mod::lemma_div_pos_is_pos(x, d);
    vstd::arithmetic::div_mod::lemma_div_nonincreasing(x, d);
    assert((x / d) * d == d * (x / d)) by (nonlinear_arith);
}

/// The quotient of two integers is the one rounded toward zero: what is left
/// of the dividend is smaller in magnitude than the divisor and has the sign
/// of the dividend. This holds of every divisor but zero, and of every pair
/// but the least integer divided by -1, whose quotient does not fit in 32 bits.
pub proof fn division_rounds_toward_zero(a: i32, b: i32)
    requires
        b != 0,
        !(a == i32::MIN && b == -1),
    ensures
        integer_result(BinaryOperator::Divide, a, b) == Ok::<DataType, EvalError>(
            DataType::Number(NumberType::Integer(truncated_quotient(a as int, b as int) as i32)),
        ),
        i32::MIN <= truncated_quotient(a as int, b as int) <= i32::MAX,
        a >= 0 ==> 0 <= a - truncated_quotient(a as int, b as int) * b,
        a <= 0 ==> a - truncated_quotient(a as int, b as int) * b <= 0,
        b > 0 ==> -b < a - truncated_quotient(a as int, b as int) * b < b,
        b < 0 ==> b < a - truncated_quotient(a as int, b as int) * b < -b,
{
    let x: int = if a >= 0 { a as int } else { -(a as int) };
    let d: int = if b > 0 { b as int } else { -(b as int) };
    quotient_and_remainder(x, d);
    let q = truncated_quotient(a as int, b as int);
    let whole = (x / d) * d;
    if (a >= 0 && b > 0) || (a < 0 && b < 0) {
        assert(q == x / d);
    } else {
        assert(q == -(x / d));
    }
    assert(q * b == if a >= 0 { whole } else { -whole }) by (nonlinear_arith)
        requires
            whole == (x / d) * d,
            a >= 0 ==> (q == x / d && b == d) || (q == -(x / d) && b == -d),
            a < 0 ==> (q == x / d && b == -d) || (q == -(x / d) && b == d),
    ;
    if d == 1 {
        assert(x / d == x) by {
            vstd::arithmetic::div_mod::lemma_div_basics(x);
        }
    } else {
        assert(x / d < 0x8000_0000) by {
            assert(2 * (x / d) <= (x / d) * d) by (nonlinear_arith)
                requires
                    0 <= x / d,
                    2 <= d,
            ;
        }
    }
}

/// An arithmetic operator on an integer and a floating-point number, in
/// either order, gives a floating-point number: the one that the unit makes of
/// the operator and the two numbers, the integer handed to it as it is.
pub proof fn mixed_operands_give_float<U: Fn(BinaryOperator, NumberType, NumberType) -> u32>(
    operator: BinaryOperator,
    left: NumberType,
    right: NumberType,
    float_unit: &U,
    outcome: Result<DataType, EvalError>,
)
    requires
        left is Integer != right is Integer,
        is_result(operator, DataType::Number(left), DataType::Number(right), float_unit, outcome),
    ensures
        outcome matches Ok(DataType::Number(NumberType::Float(bits))) && call_ensures(
            *float_unit,
            (operator, left, right),
            bits,
        ),
{
}

/// An operator with a boolean on either side gives the error that names the
/// operator, whatever stands on the other side.
pub proof fn boolean_operand_is_an_error<U: Fn(BinaryOperator, NumberType, NumberType) -> u32>(
    operator: BinaryOperator,
    left: DataType,
    right: DataType,
    float_unit: &U,
    outcome: Result<DataType, EvalError>,
)
    requires
        left is Boolean || right is Boolean,
        is_result(operator, left, right, float_unit, outcome),
    ensures
        outcome == Err::<DataType, EvalError>(EvalError::NotDefinedForBoolean(operator)),
{
}

/// The reader has one answer for each text: whatever it may return for two
/// texts of the same characters is the same.
pub open spec fn reader_answers_once<R: Fn(&str) -> Option<u32>>(read_float: &R) -> bool {
    forall|one: &str, other: &str, first: Option<u32>, second: Option<u32>|
        #![trigger
            call_ensures(*read_float, (one,), first),
            call_ensures(*read_float, (other,), second)
        ]
        one@ == other@ && call_ensures(*read_float, (one,), first) && call_ensures(
            *read_float,
            (other,),
            second,
        ) ==> first == second
}

/// The answer of the reader that stands behind the value of a literal with a
/// decimal point.
spec fn answer_in(outcome: Result<DataType, InvalidLiteral>) -> Option<u32> {
    match outcome {
        Ok(DataType::Number(NumberType::Float(bits))) => Some(bits),
        _ => None,
    }
}

/// With a reader that has one answer for each text, a token has one value as
/// a literal, or none.
pub proof fn literals_are_determined<R: Fn(&str) -> Option<u32>>(
    token: TokenView,
    read_float: &R,
    one: Result<DataType, InvalidLiteral>,
    other: Result<DataType, InvalidLiteral>,
)
    requires
        reader_answers_once(read_float),
        literal_of(token, read_float, one),
        literal_of(token, read_float, other),
    ensures
        one == other,
{
    if token is Number && is_float_text(token->Number_0) {
        let text = token->Number_0;
        let first = answer_in(one);
        let second = answer_in(other);
        let spelling = choose|spelling: &str|
            spelling@ == text && call_ensures(*read_float, (spelling,), first);
        let respelling = choose|spelling: &str|
            spelling@ == text && call_ensures(*read_float, (spelling,), second);
        assert(call_ensures(*read_float, (spelling,), first));
        assert(call_ensures(*read_float, (respelling,), second));
        assert(first == second);
    }
    if one is Err && other is Err {
        assert(one->Err_0 == InvalidLiteral);
        assert(other->Err_0 == InvalidLiteral);
    }
}


/// With a unit that has one answer for each operation, an operator has one
/// result for each pair of values.
pub proof fn results_are_determined<U: Fn(BinaryOperator, NumberType, NumberType) -> u32>(
    operator: BinaryOperator,
    left: DataType,
    right: DataType,
    float_unit: &U,
    one: Result<DataType, EvalError>,
    other: Result<DataType, EvalError>,
)
    requires
        unit_answers_once(float_unit),
        is_result(operator, left, right, float_unit, one),
        is_result(operator, left, right, float_unit, other),
    ensures
        one == other,
{
}

} // verus!
