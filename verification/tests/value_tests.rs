use exprlang::datatypes::{read_integer, DataType, NumberType};
use exprlang::error::{EvalError, InvalidLiteral, ParseError};
use exprlang::operators::{
    AddOperatorTrait, BinaryOperator, DivideOperatorTrait, MultiplyOperatorTrait,
    SubtractOperatorTrait, UnaryOperator,
};
use exprlang::token::Token;

fn widen(number: NumberType) -> f32 {
    match number {
        NumberType::Integer(value) => value as f32,
        NumberType::Float(bits) => f32::from_bits(bits),
    }
}

fn unit(operator: BinaryOperator, left: NumberType, right: NumberType) -> u32 {
    let (x, y) = (widen(left), widen(right));
    let result = match operator {
        BinaryOperator::Add => x + y,
        BinaryOperator::Subtract => x - y,
        BinaryOperator::Multiply => x * y,
        BinaryOperator::Divide => x / y,
        _ => unreachable!(),
    };
    result.to_bits()
}

fn read_float(text: &str) -> Option<u32> {
    text.parse::<f32>().ok().map(f32::to_bits)
}

fn integer(value: i32) -> DataType {
    DataType::Number(NumberType::Integer(value))
}

fn float(value: f32) -> DataType {
    DataType::Number(NumberType::Float(value.to_bits()))
}

fn number(text: &str) -> Token {
    Token::Number(text.to_string())
}

#[test]
fn boolean_keywords_are_booleans() {
    assert_eq!(DataType::from_token(&Token::TRUE, &read_float), Ok(DataType::Boolean(true)));
    assert_eq!(DataType::from_token(&Token::FALSE, &read_float), Ok(DataType::Boolean(false)));
}

#[test]
fn a_literal_without_a_point_is_an_integer() {
    assert_eq!(DataType::from_token(&number("5"), &read_float), Ok(integer(5)));
    assert_eq!(DataType::from_token(&number("0"), &read_float), Ok(integer(0)));
    assert_eq!(DataType::from_token(&number("007"), &read_float), Ok(integer(7)));
    assert_eq!(DataType::from_token(&number("2147483647"), &read_float), Ok(integer(i32::MAX)));
    assert_eq!(DataType::from_token(&number("-2147483648"), &read_float), Ok(integer(i32::MIN)));
    assert_eq!(DataType::from_token(&number("-7"), &read_float), Ok(integer(-7)));
    assert_eq!(DataType::from_token(&number("+7"), &read_float), Ok(integer(7)));
}

#[test]
fn a_literal_with_a_point_is_a_float() {
    assert_eq!(DataType::from_token(&number("1.5"), &read_float), Ok(float(1.5)));
    assert_eq!(DataType::from_token(&number("5."), &read_float), Ok(float(5.0)));
    assert_eq!(DataType::from_token(&number("0.25"), &read_float), Ok(float(0.25)));
}

#[test]
fn the_reader_is_asked_only_for_literals_with_a_point() {
    let never = |_: &str| -> Option<u32> { panic!("asked for an integer") };
    assert_eq!(DataType::from_token(&number("12"), &never), Ok(integer(12)));
    assert_eq!(DataType::from_token(&Token::TRUE, &never), Ok(DataType::Boolean(true)));
    assert_eq!(DataType::from_token(&Token::LET, &never), Err(InvalidLiteral));
    let fixed = |_: &str| -> Option<u32> { Some(77) };
    assert_eq!(
        DataType::from_token(&number("1.0"), &fixed),
        Ok(DataType::Number(NumberType::Float(77)))
    );
}

#[test]
fn a_malformed_literal_is_invalid() {
    for text in ["", "2147483648", "-2147483649", "99999999999999999999", "4x", "+", "-", "--1", "٣", " 1"] {
        assert_eq!(DataType::from_token(&number(text), &read_float), Err(InvalidLiteral), "{:?}", text);
    }
    for text in ["1.2.3", ".", "1..2", "1.x"] {
        assert_eq!(DataType::from_token(&number(text), &read_float), Err(InvalidLiteral), "{:?}", text);
    }
}

#[test]
fn a_token_that_is_no_literal_is_invalid() {
    for token in [
        Token::IDENTIFIER("x".to_string()),
        Token::LET,
        Token::EOF,
        Token::ILLEGAL,
        Token::ADD,
        Token::LPAREN,
        Token::SEMICOLON,
    ] {
        assert_eq!(DataType::from_token(&token, &read_float), Err(InvalidLiteral));
    }
}

#[test]
fn read_integer_agrees_with_the_standard_parser() {
    for text in [
        "0", "1", "-1", "+1", "42", "007", "-0", "2147483647", "2147483648", "-2147483648",
        "-2147483649", "", "+", "-", "1a", "a1", "1 ", " 1", "1.0", "٣", "12345678901234567890",
        "+-1", "−1",
    ] {
        assert_eq!(read_integer(text), text.parse::<i32>().ok(), "{:?}", text);
    }
}

#[test]
fn integer_arithmetic_gives_integers() {
    assert_eq!(integer(5).add(integer(3), &unit), Ok(integer(8)));
    assert_eq!(integer(5).subtract(integer(8), &unit), Ok(integer(-3)));
    assert_eq!(integer(-6).multiply(integer(7), &unit), Ok(integer(-42)));
    assert_eq!(integer(42).divide(integer(6), &unit), Ok(integer(7)));
}

#[test]
fn integer_division_rounds_toward_zero() {
    assert_eq!(integer(7).divide(integer(2), &unit), Ok(integer(3)));
    assert_eq!(integer(-7).divide(integer(2), &unit), Ok(integer(-3)));
    assert_eq!(integer(7).divide(integer(-2), &unit), Ok(integer(-3)));
    assert_eq!(integer(-7).divide(integer(-2), &unit), Ok(integer(3)));
    assert_eq!(integer(0).divide(integer(5), &unit), Ok(integer(0)));
    assert_eq!(integer(1).divide(integer(i32::MIN), &unit), Ok(integer(0)));
    assert_eq!(integer(i32::MIN).divide(integer(1), &unit), Ok(integer(i32::MIN)));
    assert_eq!(integer(i32::MAX).divide(integer(-1), &unit), Ok(integer(-i32::MAX)));
    for a in [-9, -8, -1, 0, 1, 8, 9, i32::MAX, i32::MIN + 1] {
        for b in [-3, -1, 1, 2, 3, i32::MAX] {
            assert_eq!(integer(a).divide(integer(b), &unit), Ok(integer(a / b)));
        }
    }
}

#[test]
fn integer_division_by_zero_is_an_error() {
    assert_eq!(integer(1).divide(integer(0), &unit), Err(EvalError::DivisionByZero));
    assert_eq!(integer(0).divide(integer(0), &unit), Err(EvalError::DivisionByZero));
    assert_eq!(integer(i32::MIN).divide(integer(0), &unit), Err(EvalError::DivisionByZero));
}

#[test]
fn integer_arithmetic_wraps_around() {
    assert_eq!(integer(i32::MAX).add(integer(1), &unit), Ok(integer(i32::MIN)));
    assert_eq!(integer(i32::MIN).add(integer(-1), &unit), Ok(integer(i32::MAX)));
    assert_eq!(integer(i32::MIN).subtract(integer(1), &unit), Ok(integer(i32::MAX)));
    assert_eq!(integer(i32::MAX).subtract(integer(-1), &unit), Ok(integer(i32::MIN)));
    assert_eq!(integer(65536).multiply(integer(65536), &unit), Ok(integer(0)));
    assert_eq!(integer(i32::MAX).multiply(integer(2), &unit), Ok(integer(-2)));
    assert_eq!(integer(i32::MIN).multiply(integer(-1), &unit), Ok(integer(i32::MIN)));
    assert_eq!(integer(i32::MIN).divide(integer(-1), &unit), Ok(integer(i32::MIN)));
}

#[test]
fn integer_arithmetic_never_asks_the_unit() {
    let never = |_: BinaryOperator, _: NumberType, _: NumberType| -> u32 { panic!("asked") };
    assert_eq!(integer(2).add(integer(3), &never), Ok(integer(5)));
    assert_eq!(integer(2).subtract(integer(3), &never), Ok(integer(-1)));
    assert_eq!(integer(2).multiply(integer(3), &never), Ok(integer(6)));
    assert_eq!(integer(7).divide(integer(3), &never), Ok(integer(2)));
    assert_eq!(integer(7).divide(integer(0), &never), Err(EvalError::DivisionByZero));
    assert_eq!(
        integer(7).add(DataType::Boolean(true), &never),
        Err(EvalError::NotDefinedForBoolean(BinaryOperator::Add))
    );
}

#[test]
fn an_integer_and_a_float_give_a_float() {
    assert_eq!(integer(3).add(float(1.5), &unit), Ok(float(4.5)));
    assert_eq!(float(1.5).add(integer(3), &unit), Ok(float(4.5)));
    assert_eq!(integer(3).subtract(float(1.5), &unit), Ok(float(1.5)));
    assert_eq!(float(1.5).subtract(integer(3), &unit), Ok(float(-1.5)));
    assert_eq!(integer(3).multiply(float(1.5), &unit), Ok(float(4.5)));
    assert_eq!(float(1.5).multiply(integer(-2), &unit), Ok(float(-3.0)));
    assert_eq!(integer(3).divide(float(1.5), &unit), Ok(float(2.0)));
    assert_eq!(float(1.5).divide(integer(3), &unit), Ok(float(0.5)));
    assert_eq!(integer(16777217).add(float(0.0), &unit), Ok(float(16777217i32 as f32)));
}

#[test]
fn the_unit_gets_the_operator_and_the_operands_as_they_stand() {
    let echo = |operator: BinaryOperator, left: NumberType, right: NumberType| -> u32 {
        assert_eq!(operator, BinaryOperator::Subtract);
        assert_eq!(left, NumberType::Integer(7));
        assert_eq!(right, NumberType::Float(9));
        1234
    };
    assert_eq!(
        integer(7).subtract(DataType::Number(NumberType::Float(9)), &echo),
        Ok(DataType::Number(NumberType::Float(1234)))
    );
}

#[test]
fn two_floats_give_a_float() {
    assert_eq!(float(1.5).add(float(2.25), &unit), Ok(float(3.75)));
    assert_eq!(float(1.5).subtract(float(2.25), &unit), Ok(float(-0.75)));
    assert_eq!(float(1.5).multiply(float(2.0), &unit), Ok(float(3.0)));
    assert_eq!(float(1.5).divide(float(0.5), &unit), Ok(float(3.0)));
    assert_eq!(float(1.0).divide(float(0.0), &unit), Ok(float(f32::INFINITY)));
    assert_eq!(float(1.0).divide(integer(0), &unit), Ok(float(f32::INFINITY)));
}

#[test]
fn a_boolean_operand_is_a_type_error_for_every_operator() {
    let others = [DataType::Boolean(false), integer(1), float(1.0)];
    for other in others {
        let boolean = DataType::Boolean(true);
        assert_eq!(
            boolean.add(other, &unit),
            Err(EvalError::NotDefinedForBoolean(BinaryOperator::Add))
        );
        assert_eq!(
            other.add(boolean, &unit),
            Err(EvalError::NotDefinedForBoolean(BinaryOperator::Add))
        );
        assert_eq!(
            boolean.subtract(other, &unit),
            Err(EvalError::NotDefinedForBoolean(BinaryOperator::Subtract))
        );
        assert_eq!(
            other.subtract(boolean, &unit),
            Err(EvalError::NotDefinedForBoolean(BinaryOperator::Subtract))
        );
        assert_eq!(
            boolean.multiply(other, &unit),
            Err(EvalError::NotDefinedForBoolean(BinaryOperator::Multiply))
        );
        assert_eq!(
            other.multiply(boolean, &unit),
            Err(EvalError::NotDefinedForBoolean(BinaryOperator::Multiply))
        );
        assert_eq!(
            boolean.divide(other, &unit),
            Err(EvalError::NotDefinedForBoolean(BinaryOperator::Divide))
        );
        assert_eq!(
            other.divide(boolean, &unit),
            Err(EvalError::NotDefinedForBoolean(BinaryOperator::Divide))
        );
    }
    assert_eq!(
        DataType::Boolean(true).divide(integer(0), &unit),
        Err(EvalError::NotDefinedForBoolean(BinaryOperator::Divide))
    );
}

#[test]
fn operators_come_from_their_tokens() {
    assert_eq!(BinaryOperator::from_token(&Token::ADD), Some(BinaryOperator::Add));
    assert_eq!(BinaryOperator::from_token(&Token::SUBTRACT), Some(BinaryOperator::Subtract));
    assert_eq!(BinaryOperator::from_token(&Token::MULTIPLICATION), Some(BinaryOperator::Multiply));
    assert_eq!(BinaryOperator::from_token(&Token::DIVISION), Some(BinaryOperator::Divide));
    for token in [
        Token::ASSIGN,
        Token::BANG,
        Token::EQAULITY,
        Token::LESSTHAN,
        Token::EOF,
        Token::SEMICOLON,
        Token::IDENTIFIER("x".to_string()),
        Token::Number("1".to_string()),
    ] {
        assert_eq!(BinaryOperator::from_token(&token), None);
    }
    assert_eq!(UnaryOperator::Not, UnaryOperator::Not);
}

#[test]
fn errors_say_what_went_wrong() {
    assert_eq!(
        EvalError::NotDefinedForBoolean(BinaryOperator::Add).message(),
        "The operation addition is not defined for booleans"
    );
    assert_eq!(
        EvalError::NotDefinedForBoolean(BinaryOperator::Subtract).message(),
        "The operation subtraction is not defined for booleans"
    );
    assert_eq!(
        EvalError::NotDefinedForBoolean(BinaryOperator::Multiply).message(),
        "The operation multiplication is not defined for booleans"
    );
    assert_eq!(
        EvalError::NotDefinedForBoolean(BinaryOperator::Divide).message(),
        "The operation division is not defined for booleans"
    );
    assert_eq!(EvalError::DivisionByZero.message(), "Division by zero");
    assert_eq!(EvalError::UsedWithoutDeclaration.message(), "Variable used without declaration");
    assert_eq!(EvalError::EmptyExpression.message(), "Empty expression called for execution");
    assert_eq!(EvalError::NotSupported.message(), "Not supported yet");
    assert_eq!(InvalidLiteral.message(), "Invalid literal");
    assert_eq!(ParseError::IdentifierExpected.message(), "Identifier expected");
    assert_eq!(ParseError::AssignExpected.message(), "Expected '='");
    assert_eq!(ParseError::InvalidToken.message(), "Invalid token");
    assert_eq!(ParseError::UnhandledToken.message(), "Unhandled token");
    assert_eq!(ParseError::InvalidLiteral.message(), "Invalid literal");
}
