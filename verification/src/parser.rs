//! The parser: from a token sequence to a program.
//!
//! The grammar has no operator precedence. A term is a number, an identifier
//! or an expression in parentheses; a term followed by one of `+ - * /` is the
//! left operand of that operator, and everything to the right of the operator
//! is its right operand. So `a * b + c` is read as `a * (b + c)`.
//!
//! What the parser does is fixed by three relations between a token sequence,
//! a position in it and an outcome: [`parses_expression`], [`parses_let`] and
//! [`parses_program`]. They are relations and no functions because the bit
//! pattern of a literal with a decimal point is whatever the caller's reader
//! makes of its text. With a reader that has one answer for each text, each of
//! them admits one outcome: see [`programs_are_determined`].
//!
//! The parser descends once for each operator and each opening parenthesis of
//! an expression, so the depth of the call stack grows with the length of the
//! expression.

use vstd::prelude::*;
use crate::datatypes::{
    literal_of,
    literals_are_determined,
    reader_answers_once,
    reader_ready,
    DataType,
};
use crate::error::{InvalidLiteral, ParseError};
use crate::expression::{
    is_arithmetic_tree,
    BinaryOperatorExpression,
    Expression,
    ExpressionView,
    SingleValue,
};
use crate::identifier::Identifier;
use crate::operators::{operator_of, BinaryOperator};
use crate::statement::{
    statement_views,
    EndStatement,
    LetStatement,
    ProgramStatement,
    StatementView,
};
use crate::token::{token_views, Token, TokenView};

verus! {

/// The token at `i`, or end-of-input where `i` is outside the sequence.
pub open spec fn token_or_eof(tokens: Seq<TokenView>, i: int) -> TokenView {
    if 0 <= i < tokens.len() {
        tokens[i]
    } else {
        TokenView::Eof
    }
}

/// The token behind the one at `pos`; behind end-of-input there is only
/// end-of-input.
pub open spec fn lookahead(tokens: Seq<TokenView>, pos: int) -> TokenView {
    if token_or_eof(tokens, pos) is Eof {
        TokenView::Eof
    } else {
        token_or_eof(tokens, pos + 1)
    }
}

/// `outcome` is what the parser may make of a number or an identifier that
/// stands as a term: a reference to the variable of that name, or the literal
/// value of the number.
pub open spec fn is_leaf<R: Fn(&str) -> Option<u32>>(
    token: TokenView,
    read_float: &R,
    outcome: Result<ExpressionView, ParseError>,
) -> bool {
    match token {
        TokenView::Identifier(name) => outcome == Ok::<ExpressionView, ParseError>(
            ExpressionView::Reference(name),
        ),
        _ => match outcome {
            Ok(expression) => expression matches ExpressionView::Literal(value) && literal_of(
                token,
                read_float,
                Ok(value),
            ),
            Err(error) => error == ParseError::InvalidLiteral && literal_of(
                token,
                read_float,
                Err(InvalidLiteral),
            ),
        },
    }
}

/// `outcome` is what the parser may make of a number or an identifier at
/// `pos` that ends an expression: the leaf, with the parser on the token
/// behind it.
pub open spec fn is_single<R: Fn(&str) -> Option<u32>>(
    token: TokenView,
    pos: int,
    read_float: &R,
    outcome: Result<(ExpressionView, int), ParseError>,
) -> bool {
    match outcome {
        Ok((expression, next)) => next == pos + 1 && is_leaf(token, read_float, Ok(expression)),
        Err(error) => is_leaf(token, read_float, Err(error)),
    }
}

/// `outcome` is what the parser may make of a number or an identifier that
/// is followed by an operator, once the expression behind the operator has
/// come out as `right`: the failure of `right`, else the failure to read the
/// number, else the operator between the leaf and the right operand.
pub open spec fn joins_leaf<R: Fn(&str) -> Option<u32>>(
    token: TokenView,
    operator: BinaryOperator,
    read_float: &R,
    right: Result<(ExpressionView, int), ParseError>,
    outcome: Result<(ExpressionView, int), ParseError>,
) -> bool {
    match right {
        Err(error) => outcome == Err::<(ExpressionView, int), ParseError>(error),
        Ok((operand, end)) => match outcome {
            Ok((expression, next)) => {
                &&& next == end
                &&& expression matches ExpressionView::Binary { left, right, operator: between }
                &&& between == operator
                &&& *right == operand
                &&& is_leaf(token, read_float, Ok(*left))
            },
            Err(error) => is_leaf(token, read_float, Err(error)),
        },
    }
}

/// The expression in parentheses that came out as `inner` ends at a `)` that
/// is followed by an operator, so that a right operand is due.
pub open spec fn group_goes_on(
    tokens: Seq<TokenView>,
    pos: int,
    inner: Result<(ExpressionView, int), ParseError>,
) -> bool {
    &&& inner matches Ok((_, close))
    &&& pos < close
    &&& token_or_eof(tokens, close) is RParen
    &&& operator_of(token_or_eof(tokens, close + 1)) is Some
}

/// `outcome` is what the parser may make of an expression in parentheses,
/// once the expression inside has come out as `inner` and, where an operator
/// follows the `)`, the expression behind that operator as `right`.
///
/// A failure inside is the failure of the whole. The expression inside must
/// end at a `)`, else the token there is unhandled. Followed by `;` it is the
/// expression, and the parser stops at the `;`. Followed by an operator it is
/// the left operand of that operator, unless `right` failed. Any other token
/// behind the `)` is invalid.
pub open spec fn closes_group(
    tokens: Seq<TokenView>,
    inner: Result<(ExpressionView, int), ParseError>,
    right: Result<(ExpressionView, int), ParseError>,
    outcome: Result<(ExpressionView, int), ParseError>,
) -> bool {
    match inner {
        Err(error) => outcome == Err::<(ExpressionView, int), ParseError>(error),
        Ok((left, close)) => if !(token_or_eof(tokens, close) is RParen) {
            outcome == Err::<(ExpressionView, int), ParseError>(ParseError::UnhandledToken)
        } else if token_or_eof(tokens, close + 1) is Semicolon {
            outcome == Ok::<(ExpressionView, int), ParseError>((left, close + 1))
        } else {
            match operator_of(token_or_eof(tokens, close + 1)) {
                Some(operator) => match right {
                    Err(error) => outcome == Err::<(ExpressionView, int), ParseError>(error),
                    Ok((operand, next)) => outcome == Ok::<(ExpressionView, int), ParseError>(
                        (
                            ExpressionView::Binary {
                                left: Box::new(left),
                                right: Box::new(operand),
                                operator,
                            },
                            next,
                        ),
                    ),
                },
                None => outcome == Err::<(ExpressionView, int), ParseError>(
                    ParseError::InvalidToken,
                ),
            }
        },
    }
}

/// `outcome` is what the parser may make of the expression that starts at
/// `pos`: the expression and the position of the token that ends it, or the
/// first error on the way.
///
/// A number or an identifier followed by `;` or `)` is a leaf, and the parser
/// stops at that `;` or `)`. Followed by an operator it is the left operand of
/// that operator; the right operand is the expression behind the operator, and
/// is parsed before the number is read: see [`joins_leaf`]. Followed by any
/// other token, that token is unhandled. An opening parenthesis is followed by
/// an expression, and [`closes_group`] says how it goes on from there. Any
/// other token that starts an expression is invalid.
pub open spec fn parses_expression<R: Fn(&str) -> Option<u32>>(
    tokens: Seq<TokenView>,
    pos: int,
    read_float: &R,
    outcome: Result<(ExpressionView, int), ParseError>,
) -> bool
    decreases tokens.len() - pos,
{
    let current = token_or_eof(tokens, pos);
    let following = lookahead(tokens, pos);
    if current is Number || current is Identifier {
        if following is Semicolon || following is RParen {
            is_single(current, pos, read_float, outcome)
        } else {
            match operator_of(following) {
                Some(operator) => exists|right: Result<(ExpressionView, int), ParseError>|
                    #![trigger joins_leaf(current, operator, read_float, right, outcome)]
                    {
                        &&& parses_expression(tokens, pos + 2, read_float, right)
                        &&& joins_leaf(current, operator, read_float, right, outcome)
                    },
                None => outcome == Err::<(ExpressionView, int), ParseError>(
                    ParseError::UnhandledToken,
                ),
            }
        }
    } else if current is LParen {
        exists|
            inner: Result<(ExpressionView, int), ParseError>,
            right: Result<(ExpressionView, int), ParseError>,
        |
            #![trigger closes_group(tokens, inner, right, outcome)]
            {
                &&& parses_expression(tokens, pos + 1, read_float, inner)
                &&& group_goes_on(tokens, pos, inner) ==> parses_expression(
                    tokens,
                    inner->Ok_0.1 + 2,
                    read_float,
                    right,
                )
                &&& closes_group(tokens, inner, right, outcome)
            }
    } else {
        outcome == Err::<(ExpressionView, int), ParseError>(ParseError::InvalidToken)
    }
}

/// `outcome` is what the parser may make of a let-statement of the variable
/// `name`, once the expression behind the `=` has come out as `value`: the
/// failure of the expression, else the statement if the expression ends at a
/// `;`, else the token there is unhandled.
pub open spec fn ends_let(
    tokens: Seq<TokenView>,
    name: Seq<char>,
    value: Result<(ExpressionView, int), ParseError>,
    outcome: Result<(StatementView, int), ParseError>,
) -> bool {
    match value {
        Err(error) => outcome == Err::<(StatementView, int), ParseError>(error),
        Ok((expression, next)) => if token_or_eof(tokens, next) is Semicolon {
            outcome == Ok::<(StatementView, int), ParseError>(
                (StatementView::Let { identifier: name, value: expression }, next),
            )
        } else {
            outcome == Err::<(StatementView, int), ParseError>(ParseError::UnhandledToken)
        },
    }
}

/// `outcome` is what the parser may make of the let-statement whose
/// identifier stands at `pos`: the statement and the position of the `;` that
/// ends it, or the first error on the way.
///
/// The identifier must be followed by `=` and an expression, and the
/// expression must end at a `;`.
pub open spec fn parses_let<R: Fn(&str) -> Option<u32>>(
    tokens: Seq<TokenView>,
    pos: int,
    read_float: &R,
    outcome: Result<(StatementView, int), ParseError>,
) -> bool {
    match token_or_eof(tokens, pos) {
        TokenView::Identifier(name) => if lookahead(tokens, pos) is Assign {
            exists|value: Result<(ExpressionView, int), ParseError>|
                #![trigger ends_let(tokens, name, value, outcome)]
                {
                    &&& parses_expression(tokens, pos + 2, read_float, value)
                    &&& ends_let(tokens, name, value, outcome)
                }
        } else {
            outcome == Err::<(StatementView, int), ParseError>(ParseError::AssignExpected)
        },
        _ => outcome == Err::<(StatementView, int), ParseError>(ParseError::IdentifierExpected),
    }
}

/// What becomes of an outcome for the rest of a program when `done` stands
/// before it.
pub open spec fn after(done: Seq<StatementView>, rest: Result<Seq<StatementView>, ParseError>)
    -> Result<Seq<StatementView>, ParseError> {
    match rest {
        Ok(statements) => Ok(done + statements),
        Err(error) => Err(error),
    }
}

/// The let-statement that came out as `statement` went well and ends within
/// the tokens, so that the rest of the program is due.
pub open spec fn program_goes_on(
    tokens: Seq<TokenView>,
    pos: int,
    statement: Result<(StatementView, int), ParseError>,
) -> bool {
    &&& statement matches Ok((_, next))
    &&& pos < next < tokens.len()
}

/// `outcome` is what the parser may make of a program that starts with a
/// `let`, once the let-statement has come out as `statement` and, if that
/// went well, the program behind it as `rest`: the failure of the statement,
/// else the statement before what `rest` is.
pub open spec fn begins_program(
    statement: Result<(StatementView, int), ParseError>,
    rest: Result<Seq<StatementView>, ParseError>,
    outcome: Result<Seq<StatementView>, ParseError>,
) -> bool {
    match statement {
        Err(error) => outcome == Err::<Seq<StatementView>, ParseError>(error),
        Ok((first, _)) => outcome == after(seq![first], rest),
    }
}

/// `outcome` is what the parser may make of the tokens from `pos` on: the
/// statements of the program, or the first error on the way.
///
/// At end-of-input the program is the sentinel alone. A `let` starts a
/// let-statement, and the rest of the program starts behind the `;` that ends
/// it. Any other token is passed over.
pub open spec fn parses_program<R: Fn(&str) -> Option<u32>>(
    tokens: Seq<TokenView>,
    pos: int,
    read_float: &R,
    outcome: Result<Seq<StatementView>, ParseError>,
) -> bool
    decreases tokens.len() - pos,
{
    if token_or_eof(tokens, pos) is Eof {
        outcome == Ok::<Seq<StatementView>, ParseError>(seq![StatementView::End])
    } else if token_or_eof(tokens, pos) is Let {
        exists|
            statement: Result<(StatementView, int), ParseError>,
            rest: Result<Seq<StatementView>, ParseError>,
        |
            #![trigger begins_program(statement, rest, outcome)]
            {
                &&& parses_let(tokens, pos + 1, read_float, statement)
                &&& program_goes_on(tokens, pos, statement) ==> parses_program(
                    tokens,
                    statement->Ok_0.1 + 1,
                    read_float,
                    rest,
                )
                &&& begins_program(statement, rest, outcome)
            }
    } else {
        parses_program(tokens, pos + 1, read_float, outcome)
    }
}

/// A sequence of statements ends with the sentinel and holds no other.
pub open spec fn ends_with_sentinel(statements: Seq<StatementView>) -> bool {
    &&& statements.len() > 0
    &&& statements.last() is End
    &&& forall|i: int| 0 <= i < statements.len() - 1 ==> (#[trigger] statements[i]) is Let
}

/// A cursor over a token sequence that ends in end-of-input.
pub struct Parser {
    tokens: Vec<Token>,
    pos: usize,
    peek: usize,
}

/// An ordered sequence of statements.
#[derive(Debug, PartialEq, Eq)]
pub struct Program {
    statements: Vec<ProgramStatement>,
}

impl Parser {
    /// The token sequence.
    pub closed spec fn tokens(&self) -> Seq<TokenView> {
        token_views(self.tokens@)
    }

    /// The position of the current token.
    pub closed spec fn position(&self) -> int {
        self.pos as int
    }

    /// The tokens end in end-of-input, the cursor lies on a token, and the
    /// lookahead is one token ahead of it.
    pub closed spec fn well_formed(&self) -> bool {
        &&& self.tokens.len() > 0
        &&& self.tokens[self.tokens.len() - 1] is EOF
        &&& self.pos < self.tokens.len()
        &&& self.peek == self.pos + 1
    }

    /// In a well-formed parser the cursor lies on a token and the last token
    /// is end-of-input.
    pub proof fn well_formed_bounds(&self)
        requires
            self.well_formed(),
        ensures
            0 <= self.position() < self.tokens().len(),
            self.tokens().last() is Eof,
    {
    }

    /// A cursor at the start of `tokens`. A sequence that does not end in
    /// end-of-input is read as if it did.
    pub fn new(tokens: Vec<Token>) -> (parser: Parser)
        ensures
            parser.well_formed(),
            parser.position() == 0,
            parser.tokens() == if tokens@.len() > 0 && tokens@.last() is EOF {
                token_views(tokens@)
            } else {
                token_views(tokens@).push(TokenView::Eof)
            },
    {
        let mut tokens = tokens;
        let ghost given = tokens@;
        let complete = tokens.len() > 0 && match tokens[tokens.len() - 1] {
            Token::EOF => true,
            _ => false,
        };
        if !complete {
            tokens.push(Token::EOF);
        }
        let parser = Parser { tokens, pos: 0, peek: 1 };
        proof {
            if complete {
                assert(parser.tokens() =~= token_views(given));
            } else {
                assert(parser.tokens() =~= token_views(given).push(TokenView::Eof));
            }
        }
        parser
    }

    /// The token under the cursor.
    pub fn current_token(&self) -> (token: &Token)
        requires
            self.well_formed(),
        ensures
            token@ == token_or_eof(self.tokens(), self.position()),
    {
        &self.tokens[self.pos]
    }

    /// Moves the cursor one token on; on the last token it stays.
    pub fn next(&mut self)
        requires
            old(self).well_formed(),
        ensures
            final(self).well_formed(),
            final(self).tokens() == old(self).tokens(),
            final(self).position() == if old(self).position() + 1 < old(self).tokens().len() {
                old(self).position() + 1
            } else {
                old(self).position()
            },
    {
        if self.peek < self.tokens.len() {
            self.pos = self.peek;
            self.peek = self.peek + 1;
        }
    }

    /// Whether the token under the cursor is end-of-input.
    pub fn at_end(&self) -> (r: bool)
        requires
            self.well_formed(),
        ensures
            r == (token_or_eof(self.tokens(), self.position()) is Eof),
    {
        match self.tokens[self.pos] {
            Token::EOF => true,
            _ => false,
        }
    }

    /// The token behind the one under the cursor; behind end-of-input there
    /// is only end-of-input.
    pub fn peek_token(&self) -> (token: &Token)
        requires
            self.well_formed(),
        ensures
            token@ == lookahead(self.tokens(), self.position()),
    {
        match self.tokens[self.pos] {
            Token::EOF => &self.tokens[self.pos],
            _ => &self.tokens[self.peek],
        }
    }
}

impl Program {
    /// A program of the given statements.
    pub fn new_from_vec(statements: Vec<ProgramStatement>) -> (program: Program)
        ensures
            program@ == statement_views(statements@),
    {
        Program { statements }
    }

    /// The statements of the program, in order.
    pub fn statements(&self) -> (statements: &Vec<ProgramStatement>)
        ensures
            self@ == statement_views(statements@),
    {
        &self.statements
    }
}

impl View for Program {
    type V = Seq<StatementView>;

    closed spec fn view(&self) -> Seq<StatementView> {
        statement_views(self.statements@)
    }
}

/// The outcome of a parse as the relations speak of it: what was parsed by its
/// view, together with the position at which the parser then stands.
pub open spec fn positioned<T: View>(outcome: Result<T, ParseError>, next: int) -> Result<
    (T::V, int),
    ParseError,
> {
    match outcome {
        Ok(parsed) => Ok((parsed@, next)),
        Err(error) => Err(error),
    }
}

/// The outcome of a parse of a program as [`parses_program`] speaks of it.
pub open spec fn program_outcome(outcome: Result<Program, ParseError>) -> Result<
    Seq<StatementView>,
    ParseError,
> {
    match outcome {
        Ok(program) => Ok(program@),
        Err(error) => Err(error),
    }
}

/// The leaf for a number or an identifier that stands as a term.
fn leaf<R: Fn(&str) -> Option<u32>>(token: &Token, read_float: &R) -> (outcome: Result<
    Expression,
    ParseError,
>)
    requires
        reader_ready(read_float),
    ensures
        is_leaf(
            token@,
            read_float,
            match outcome {
                Ok(expression) => Ok(expression@),
                Err(error) => Err(error),
            },
        ),
{
    match token {
        Token::IDENTIFIER(name) => Ok(
            Expression::SingleValueExpression(SingleValue::Reference(Identifier(name.clone()))),
        ),
        _ => match DataType::from_token(token, read_float) {
            Ok(value) => Ok(Expression::SingleValueExpression(SingleValue::Literal(value))),
            Err(_) => Err(ParseError::InvalidLiteral),
        },
    }
}

/// How an expression may start.
enum Start {
    Leaf,
    Group,
    Neither,
}

/// What may follow a term.
enum Follow {
    End,
    Close,
    Operator(BinaryOperator),
    Neither,
}

/// How the expression that starts with `token` starts.
fn start_of(token: &Token) -> (start: Start)
    ensures
        start is Leaf <==> token@ is Number || token@ is Identifier,
        start is Group <==> token@ is LParen,
{
    match token {
        Token::Number(_) => Start::Leaf,
        Token::IDENTIFIER(_) => Start::Leaf,
        Token::LPAREN => Start::Group,
        _ => Start::Neither,
    }
}

/// What `token` means behind a term.
fn follow_of(token: &Token) -> (follow: Follow)
    ensures
        follow is End <==> token@ is Semicolon,
        follow is Close <==> token@ is RParen,
        follow matches Follow::Operator(operator) ==> operator_of(token@) == Some(operator),
        follow is Operator <==> operator_of(token@) is Some,
{
    match token {
        Token::SEMICOLON => Follow::End,
        Token::RPAREN => Follow::Close,
        _ => match BinaryOperator::from_token(token) {
            Some(operator) => Follow::Operator(operator),
            None => Follow::Neither,
        },
    }
}

/// Parses the expression that starts under the cursor and leaves the cursor
/// on the token that ends it.
///
/// `read_float` turns the text of a literal with a decimal point into the bit
/// pattern of a single-precision number, or answers `None` if the text is no
/// such number. After an error the cursor stands somewhere between where it
/// stood and the end.
pub fn parse_expression<R: Fn(&str) -> Option<u32>>(p: &mut Parser, read_float: &R) -> (outcome:
    Result<Expression, ParseError>)
    requires
        old(p).well_formed(),
        reader_ready(read_float),
    ensures
        final(p).well_formed(),
        final(p).tokens() == old(p).tokens(),
        old(p).position() <= final(p).position(),
        outcome is Ok ==> old(p).position() < final(p).position(),
        parses_expression(
            old(p).tokens(),
            old(p).position(),
            read_float,
            positioned(outcome, final(p).position()),
        ),
    decreases old(p).tokens().len() - old(p).position(),
{
    let at = p.pos;
    let ghost tokens = p.tokens();
    let ghost current = token_or_eof(tokens, at as int);
    match start_of(p.current_token()) {
        Start::Leaf => {
            match follow_of(p.peek_token()) {
                Follow::End | Follow::Close => {
                    p.next();
                    leaf(&p.tokens[at], read_float)
                },
                Follow::Operator(op) => {
                    p.next();
                    p.next();
                    let right = parse_expression(p, read_float);
                    let ghost operand = positioned(right, p.position());
                    let outcome = match right {
                        Ok(right) => match leaf(&p.tokens[at], read_float) {
                            Ok(left) => Ok(
                                Expression::BinaryOperatorExpression(
                                    BinaryOperatorExpression {
                                        op,
                                        l: Box::new(left),
                                        r: Box::new(right),
                                    },
                                ),
                            ),
                            Err(error) => Err(error),
                        },
                        Err(error) => Err(error),
                    };
                    assert(joins_leaf(
                        current,
                        op,
                        read_float,
                        operand,
                        positioned(outcome, p.position()),
                    ));
                    outcome
                },
                Follow::Neither => Err(ParseError::UnhandledToken),
            }
        },
        Start::Group => {
            p.next();
            let inside = parse_expression(p, read_float);
            let ghost inner = positioned(inside, p.position());
            let left = match inside {
                Ok(left) => left,
                Err(error) => {
                    assert(closes_group(tokens, inner, inner, Err(error)));
                    return Err(error);
                },
            };
            match follow_of(p.current_token()) {
                Follow::Close => {},
                _ => {
                    assert(closes_group(tokens, inner, inner, Err(ParseError::UnhandledToken)));
                    return Err(ParseError::UnhandledToken);
                },
            }
            match follow_of(p.peek_token()) {
                Follow::End => {
                    p.next();
                    assert(closes_group(tokens, inner, inner, Ok((left@, p.position()))));
                    Ok(left)
                },
                Follow::Operator(op) => {
                    p.next();
                    p.next();
                    let right = parse_expression(p, read_float);
                    let ghost operand = positioned(right, p.position());
                    let outcome = match right {
                        Ok(right) => Ok(
                            Expression::BinaryOperatorExpression(
                                BinaryOperatorExpression {
                                    op,
                                    l: Box::new(left),
                                    r: Box::new(right),
                                },
                            ),
                        ),
                        Err(error) => Err(error),
                    };
                    assert(closes_group(
                        tokens,
                        inner,
                        operand,
                        positioned(outcome, p.position()),
                    ));
                    outcome
                },
                _ => {
                    assert(closes_group(tokens, inner, inner, Err(ParseError::InvalidToken)));
                    Err(ParseError::InvalidToken)
                },
            }
        },
        Start::Neither => Err(ParseError::InvalidToken),
    }
}

/// Parses the let-statement whose identifier stands under the cursor and
/// leaves the cursor on the `;` that ends it.
pub fn parse_let<R: Fn(&str) -> Option<u32>>(p: &mut Parser, read_float: &R) -> (outcome: Result<
    LetStatement,
    ParseError,
>)
    requires
        old(p).well_formed(),
        reader_ready(read_float),
    ensures
        final(p).well_formed(),
        final(p).tokens() == old(p).tokens(),
        old(p).position() <= final(p).position(),
        outcome is Ok ==> old(p).position() < final(p).position(),
        parses_let(
            old(p).tokens(),
            old(p).position(),
            read_float,
            positioned(outcome, final(p).position()),
        ),
{
    let at = p.pos;
    let ghost tokens = p.tokens();
    match p.current_token() {
        Token::IDENTIFIER(_) => {},
        _ => {
            return Err(ParseError::IdentifierExpected);
        },
    }
    match p.peek_token() {
        Token::ASSIGN => {},
        _ => {
            return Err(ParseError::AssignExpected);
        },
    }
    let ghost name = tokens[at as int]->Identifier_0;
    p.next();
    p.next();
    let parsed = parse_expression(p, read_float);
    let ghost value = positioned(parsed, p.position());
    let outcome = match parsed {
        Ok(value) => match p.current_token() {
            Token::SEMICOLON => match &p.tokens[at] {
                Token::IDENTIFIER(name) => Ok(
                    LetStatement { identifier: Identifier(name.clone()), value },
                ),
                _ => Err(ParseError::IdentifierExpected),
            },
            _ => Err(ParseError::UnhandledToken),
        },
        Err(error) => Err(error),
    };
    assert(ends_let(tokens, name, value, positioned(outcome, p.position())));
    outcome
}

/// A let-statement at `pos` that ends at `next`, followed by a rest, is a
/// program from `pos` on.
proof fn program_with_let<R: Fn(&str) -> Option<u32>>(
    tokens: Seq<TokenView>,
    pos: int,
    read_float: &R,
    statement: StatementView,
    next: int,
    rest: Result<Seq<StatementView>, ParseError>,
)
    requires
        token_or_eof(tokens, pos) is Let,
        pos < next < tokens.len(),
        parses_let(tokens, pos + 1, read_float, Ok((statement, next))),
        parses_program(tokens, next + 1, read_float, rest),
    ensures
        parses_program(tokens, pos, read_float, after(seq![statement], rest)),
{
    assert(begins_program(Ok((statement, next)), rest, after(seq![statement], rest)));
}

/// Parses the tokens from the cursor on into a program.
///
/// Every `let` starts a let-statement; any other token between statements is
/// passed over. The program ends with the one sentinel, whatever came before.
/// `read_float` turns the text of a literal with a decimal point into the bit
/// pattern of a single-precision number, or answers `None` if the text is no
/// such number.
pub fn parse<R: Fn(&str) -> Option<u32>>(p: &mut Parser, read_float: &R) -> (outcome: Result<
    Program,
    ParseError,
>)
    requires
        old(p).well_formed(),
        reader_ready(read_float),
    ensures
        final(p).well_formed(),
        final(p).tokens() == old(p).tokens(),
        parses_program(old(p).tokens(), old(p).position(), read_float, program_outcome(outcome)),
        outcome matches Ok(program) ==> ends_with_sentinel(program@),
{
    let ghost tokens = p.tokens();
    let ghost start = p.position();
    let mut statements: Vec<ProgramStatement> = Vec::new();
    let ghost mut done: Seq<StatementView> = Seq::empty();
    while !p.at_end()
        invariant
            p.well_formed(),
            p.tokens() == tokens,
            tokens == old(p).tokens(),
            start == old(p).position(),
            reader_ready(read_float),
            start <= p.position(),
            done == statement_views(statements@),
            forall|rest: Result<Seq<StatementView>, ParseError>| #[trigger]
                parses_program(tokens, p.position(), read_float, rest) ==> parses_program(
                    tokens,
                    start,
                    read_float,
                    after(done, rest),
                ),
        decreases tokens.len() - p.position(),
    {
        let ghost pos = p.position();
        match p.current_token() {
            Token::LET => {
                p.next();
                let parsed = parse_let(p, read_float);
                let ghost outcome = positioned(parsed, p.position());
                let statement = match parsed {
                    Ok(statement) => statement,
                    Err(error) => {
                        assert(begins_program(outcome, Err(error), Err(error)));
                        assert(parses_program(tokens, pos, read_float, Err(error)));
                        return Err(error);
                    },
                };
                let ghost next = p.position();
                let ghost first = statement@;
                statements.push(ProgramStatement::Let(statement));
                p.next();
                proof {
                    let before = done;
                    done = done.push(first);
                    assert(done =~= statement_views(statements@));
                    assert forall|rest: Result<Seq<StatementView>, ParseError>| #[trigger]
                        parses_program(
                            tokens,
                            p.position(),
                            read_float,
                            rest,
                        ) implies parses_program(tokens, start, read_float, after(done, rest)) by {
                        program_with_let(tokens, pos, read_float, first, next, rest);
                        assert(parses_program(
                            tokens,
                            start,
                            read_float,
                            after(before, after(seq![first], rest)),
                        ));
                        match rest {
                            Ok(more) => {
                                assert(before + (seq![first] + more) =~= done + more);
                            },
                            Err(error) => {},
                        }
                    }
                }
            },
            _ => {
                p.next();
                assert forall|rest: Result<Seq<StatementView>, ParseError>| #[trigger]
                    parses_program(
                        tokens,
                        p.position(),
                        read_float,
                        rest,
                    ) implies parses_program(tokens, start, read_float, after(done, rest)) by {
                    assert(parses_program(tokens, pos, read_float, rest));
                }
            },
        }
    }
    statements.push(ProgramStatement::End(EndStatement));
    let program = Program::new_from_vec(statements);
    proof {
        assert(parses_program(
            tokens,
            p.position(),
            read_float,
            Ok(seq![StatementView::End]),
        ));
        assert(program@ =~= done + seq![StatementView::End]);
        programs_end_with_one_sentinel(tokens, start, read_float, program@);
    }
    Ok(program)
}

/// A leaf that the parser may make is a number or a reference.
proof fn leaves_are_arithmetic<R: Fn(&str) -> Option<u32>>(
    token: TokenView,
    read_float: &R,
    leaf: ExpressionView,
)
    requires
        token is Number || token is Identifier,
        is_leaf(token, read_float, Ok(leaf)),
    ensures
        is_arithmetic_tree(leaf),
{
}

/// Every expression that the parser may make is a tree of numbers, references
/// and arithmetic operators alone, and is ended by a token behind the one it
/// starts at.
pub proof fn parsed_expressions_are_arithmetic<R: Fn(&str) -> Option<u32>>(
    tokens: Seq<TokenView>,
    pos: int,
    read_float: &R,
    expression: ExpressionView,
    next: int,
)
    requires
        parses_expression(tokens, pos, read_float, Ok((expression, next))),
    ensures
        is_arithmetic_tree(expression),
        pos < next,
    decreases tokens.len() - pos,
{
    let outcome = Ok::<(ExpressionView, int), ParseError>((expression, next));
    let current = token_or_eof(tokens, pos);
    let following = lookahead(tokens, pos);
    if current is Number || current is Identifier {
        if following is Semicolon || following is RParen {
            leaves_are_arithmetic(current, read_float, expression);
        } else {
            let operator = operator_of(following)->Some_0;
            let right = choose|right: Result<(ExpressionView, int), ParseError>|
                #![trigger joins_leaf(current, operator, read_float, right, outcome)]
                {
                    &&& parses_expression(tokens, pos + 2, read_float, right)
                    &&& joins_leaf(current, operator, read_float, right, outcome)
                };
            match (right, expression) {
                (Ok((operand, end)), ExpressionView::Binary { left, right: _, operator: _ }) => {
                    parsed_expressions_are_arithmetic(tokens, pos + 2, read_float, operand, end);
                    leaves_are_arithmetic(current, read_float, *left);
                },
                _ => {},
            }
        }
    } else if current is LParen {
        let (inner, right) = choose|
            inner: Result<(ExpressionView, int), ParseError>,
            right: Result<(ExpressionView, int), ParseError>,
        |
            #![trigger closes_group(tokens, inner, right, outcome)]
            {
                &&& parses_expression(tokens, pos + 1, read_float, inner)
                &&& group_goes_on(tokens, pos, inner) ==> parses_expression(
                    tokens,
                    inner->Ok_0.1 + 2,
                    read_float,
                    right,
                )
                &&& closes_group(tokens, inner, right, outcome)
            };
        match inner {
            Ok((left, close)) => {
                parsed_expressions_are_arithmetic(tokens, pos + 1, read_float, left, close);
                if !(token_or_eof(tokens, close + 1) is Semicolon) {
                    match right {
                        Ok((operand, end)) => {
                            parsed_expressions_are_arithmetic(
                                tokens,
                                close + 2,
                                read_float,
                                operand,
                                end,
                            );
                        },
                        Err(_) => {},
                    }
                }
            },
            Err(_) => {},
        }
    }
}

/// A let-statement that the parser may make is one, and ends at a `;` behind
/// its identifier and within the tokens.
pub proof fn lets_end_within<R: Fn(&str) -> Option<u32>>(
    tokens: Seq<TokenView>,
    pos: int,
    read_float: &R,
    statement: StatementView,
    next: int,
)
    requires
        parses_let(tokens, pos, read_float, Ok((statement, next))),
    ensures
        statement is Let,
        is_arithmetic_tree(statement->value),
        pos < next < tokens.len(),
        token_or_eof(tokens, next) is Semicolon,
{
    let outcome = Ok::<(StatementView, int), ParseError>((statement, next));
    let name = token_or_eof(tokens, pos)->Identifier_0;
    let value = choose|value: Result<(ExpressionView, int), ParseError>|
        #![trigger ends_let(tokens, name, value, outcome)]
        {
            &&& parses_expression(tokens, pos + 2, read_float, value)
            &&& ends_let(tokens, name, value, outcome)
        };
    match value {
        Ok((expression, end)) => {
            parsed_expressions_are_arithmetic(tokens, pos + 2, read_float, expression, end);
        },
        Err(_) => {},
    }
}

/// Every program that the parser may make ends with the sentinel and holds
/// no other, whatever the tokens are.
pub proof fn programs_end_with_one_sentinel<R: Fn(&str) -> Option<u32>>(
    tokens: Seq<TokenView>,
    pos: int,
    read_float: &R,
    statements: Seq<StatementView>,
)
    requires
        parses_program(tokens, pos, read_float, Ok(statements)),
    ensures
        ends_with_sentinel(statements),
    decreases tokens.len() - pos,
{
    let outcome = Ok::<Seq<StatementView>, ParseError>(statements);
    if token_or_eof(tokens, pos) is Eof {
    } else if token_or_eof(tokens, pos) is Let {
        let (statement, rest) = choose|
            statement: Result<(StatementView, int), ParseError>,
            rest: Result<Seq<StatementView>, ParseError>,
        |
            #![trigger begins_program(statement, rest, outcome)]
            {
                &&& parses_let(tokens, pos + 1, read_float, statement)
                &&& program_goes_on(tokens, pos, statement) ==> parses_program(
                    tokens,
                    statement->Ok_0.1 + 1,
                    read_float,
                    rest,
                )
                &&& begins_program(statement, rest, outcome)
            };
        match (statement, rest) {
            (Ok((first, next)), Ok(others)) => {
                lets_end_within(tokens, pos + 1, read_float, first, next);
                programs_end_with_one_sentinel(tokens, next + 1, read_float, others);
                assert(statements =~= seq![first] + others);
                assert(statements.last() == others.last());
                assert forall|i: int| 0 <= i < statements.len() - 1 implies (
                #[trigger] statements[i]) is Let by {
                    if i > 0 {
                        assert(statements[i] == others[i - 1]);
                    }
                }
            },
            _ => {},
        }
    } else {
        programs_end_with_one_sentinel(tokens, pos + 1, read_float, statements);
    }
}

/// With a reader that has one answer for each text, a number or an identifier
/// makes one leaf, or fails in one way.
proof fn leaves_are_determined<R: Fn(&str) -> Option<u32>>(
    token: TokenView,
    read_float: &R,
    one: Result<ExpressionView, ParseError>,
    other: Result<ExpressionView, ParseError>,
)
    requires
        reader_answers_once(read_float),
        is_leaf(token, read_float, one),
        is_leaf(token, read_float, other),
    ensures
        one == other,
{
    if !(token is Identifier) {
        let first = match one {
            Ok(ExpressionView::Literal(value)) => Ok(value),
            _ => Err(InvalidLiteral),
        };
        let second = match other {
            Ok(ExpressionView::Literal(value)) => Ok(value),
            _ => Err(InvalidLiteral),
        };
        literals_are_determined(token, read_float, first, second);
    }
}

/// With a reader that has one answer for each text, the tokens from a
/// position on make one expression, or fail in one way.
pub proof fn expressions_are_determined<R: Fn(&str) -> Option<u32>>(
    tokens: Seq<TokenView>,
    pos: int,
    read_float: &R,
    one: Result<(ExpressionView, int), ParseError>,
    other: Result<(ExpressionView, int), ParseError>,
)
    requires
        reader_answers_once(read_float),
        parses_expression(tokens, pos, read_float, one),
        parses_expression(tokens, pos, read_float, other),
    ensures
        one == other,
    decreases tokens.len() - pos,
{
    let current = token_or_eof(tokens, pos);
    let following = lookahead(tokens, pos);
    if current is Number || current is Identifier {
        if following is Semicolon || following is RParen {
            let first = match one {
                Ok((expression, _)) => Ok(expression),
                Err(error) => Err(error),
            };
            let second = match other {
                Ok((expression, _)) => Ok(expression),
                Err(error) => Err(error),
            };
            leaves_are_determined(current, read_float, first, second);
        } else if operator_of(following) is Some {
            let operator = operator_of(following)->Some_0;
            let right = choose|right: Result<(ExpressionView, int), ParseError>|
                #![trigger joins_leaf(current, operator, read_float, right, one)]
                {
                    &&& parses_expression(tokens, pos + 2, read_float, right)
                    &&& joins_leaf(current, operator, read_float, right, one)
                };
            let right_again = choose|right: Result<(ExpressionView, int), ParseError>|
                #![trigger joins_leaf(current, operator, read_float, right, other)]
                {
                    &&& parses_expression(tokens, pos + 2, read_float, right)
                    &&& joins_leaf(current, operator, read_float, right, other)
                };
            expressions_are_determined(tokens, pos + 2, read_float, right, right_again);
            if right is Ok {
                let first = match one {
                    Ok((ExpressionView::Binary { left, right: _, operator: _ }, _)) => Ok(*left),
                    Ok(_) => Ok(ExpressionView::Empty),
                    Err(error) => Err(error),
                };
                let second = match other {
                    Ok((ExpressionView::Binary { left, right: _, operator: _ }, _)) => Ok(*left),
                    Ok(_) => Ok(ExpressionView::Empty),
                    Err(error) => Err(error),
                };
                leaves_are_determined(current, read_float, first, second);
            }
        }
    } else if current is LParen {
        let (inner, right) = choose|
            inner: Result<(ExpressionView, int), ParseError>,
            right: Result<(ExpressionView, int), ParseError>,
        |
            #![trigger closes_group(tokens, inner, right, one)]
            {
                &&& parses_expression(tokens, pos + 1, read_float, inner)
                &&& group_goes_on(tokens, pos, inner) ==> parses_expression(
                    tokens,
                    inner->Ok_0.1 + 2,
                    read_float,
                    right,
                )
                &&& closes_group(tokens, inner, right, one)
            };
        let (inner_again, right_again) = choose|
            inner: Result<(ExpressionView, int), ParseError>,
            right: Result<(ExpressionView, int), ParseError>,
        |
            #![trigger closes_group(tokens, inner, right, other)]
            {
                &&& parses_expression(tokens, pos + 1, read_float, inner)
                &&& group_goes_on(tokens, pos, inner) ==> parses_expression(
                    tokens,
                    inner->Ok_0.1 + 2,
                    read_float,
                    right,
                )
                &&& closes_group(tokens, inner, right, other)
            };
        expressions_are_determined(tokens, pos + 1, read_float, inner, inner_again);
        match inner {
            Ok((left, close)) => {
                parsed_expressions_are_arithmetic(tokens, pos + 1, read_float, left, close);
                if group_goes_on(tokens, pos, inner) {
                    expressions_are_determined(
                        tokens,
                        close + 2,
                        read_float,
                        right,
                        right_again,
                    );
                }
            },
            Err(_) => {},
        }
    }
}

/// With a reader that has one answer for each text, the tokens from a
/// position on make one let-statement, or fail in one way.
pub proof fn lets_are_determined<R: Fn(&str) -> Option<u32>>(
    tokens: Seq<TokenView>,
    pos: int,
    read_float: &R,
    one: Result<(StatementView, int), ParseError>,
    other: Result<(StatementView, int), ParseError>,
)
    requires
        reader_answers_once(read_float),
        parses_let(tokens, pos, read_float, one),
        parses_let(tokens, pos, read_float, other),
    ensures
        one == other,
{
    if token_or_eof(tokens, pos) is Identifier && lookahead(tokens, pos) is Assign {
        let name = token_or_eof(tokens, pos)->Identifier_0;
        let value = choose|value: Result<(ExpressionView, int), ParseError>|
            #![trigger ends_let(tokens, name, value, one)]
            {
                &&& parses_expression(tokens, pos + 2, read_float, value)
                &&& ends_let(tokens, name, value, one)
            };
        let value_again = choose|value: Result<(ExpressionView, int), ParseError>|
            #![trigger ends_let(tokens, name, value, other)]
            {
                &&& parses_expression(tokens, pos + 2, read_float, value)
                &&& ends_let(tokens, name, value, other)
            };
        expressions_are_determined(tokens, pos + 2, read_float, value, value_again);
    }
}

/// With a reader that has one answer for each text, the tokens from a
/// position on make one program, or fail in one way.
pub proof fn programs_are_determined<R: Fn(&str) -> Option<u32>>(
    tokens: Seq<TokenView>,
    pos: int,
    read_float: &R,
    one: Result<Seq<StatementView>, ParseError>,
    other: Result<Seq<StatementView>, ParseError>,
)
    requires
        reader_answers_once(read_float),
        parses_program(tokens, pos, read_float, one),
        parses_program(tokens, pos, read_float, other),
    ensures
        one == other,
    decreases tokens.len() - pos,
{
    if token_or_eof(tokens, pos) is Eof {
    } else if token_or_eof(tokens, pos) is Let {
        let (statement, rest) = choose|
            statement: Result<(StatementView, int), ParseError>,
            rest: Result<Seq<StatementView>, ParseError>,
        |
            #![trigger begins_program(statement, rest, one)]
            {
                &&& parses_let(tokens, pos + 1, read_float, statement)
                &&& program_goes_on(tokens, pos, statement) ==> parses_program(
                    tokens,
                    statement->Ok_0.1 + 1,
                    read_float,
                    rest,
                )
                &&& begins_program(statement, rest, one)
            };
        let (statement_again, rest_again) = choose|
            statement: Result<(StatementView, int), ParseError>,
            rest: Result<Seq<StatementView>, ParseError>,
        |
            #![trigger begins_program(statement, rest, other)]
            {
                &&& parses_let(tokens, pos + 1, read_float, statement)
                &&& program_goes_on(tokens, pos, statement) ==> parses_program(
                    tokens,
                    statement->Ok_0.1 + 1,
                    read_float,
                    rest,
                )
                &&& begins_program(statement, rest, other)
            };
        lets_are_determined(tokens, pos + 1, read_float, statement, statement_again);
        match statement {
            Ok((first, next)) => {
                lets_end_within(tokens, pos + 1, read_float, first, next);
                programs_are_determined(tokens, next + 1, read_float, rest, rest_again);
            },
            Err(_) => {},
        }
    } else {
        programs_are_determined(tokens, pos + 1, read_float, one, other);
    }
}

} // verus!
