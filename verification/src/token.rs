//! The token vocabulary.

use vstd::prelude::*;
use vstd::string::*;

verus! {

/// A lexical unit of the language.
///
/// Identifiers and numeric literals carry the text they were read from; every
/// other token is a bare tag.
#[derive(Debug, PartialEq, Eq, PartialOrd, Clone)]
pub enum Token {
    IDENTIFIER(String),
    Number(String),
    ILLEGAL,
    EOF,
    ASSIGN,
    ADD,
    SUBTRACT,
    MULTIPLICATION,
    DIVISION,
    LESSTHAN,
    GREATERTHAN,
    BANG,
    EQAULITY,
    NOTEQUALITY,
    IF,
    ELSE,
    RETURN,
    TRUE,
    FALSE,
    SEMICOLON,
    COMMA,
    LPAREN,
    RPAREN,
    LBRACE,
    RBRACE,
    FUNCTION,
    LET,
}

/// The mathematical value of a [`Token`]: the same tags, with the carried text
/// as a sequence of characters.
pub enum TokenView {
    Identifier(Seq<char>),
    Number(Seq<char>),
    Illegal,
    Eof,
    Assign,
    Add,
    Subtract,
    Multiplication,
    Division,
    LessThan,
    GreaterThan,
    Bang,
    Equality,
    NotEquality,
    If,
    Else,
    Return,
    True,
    False,
    Semicolon,
    Comma,
    LParen,
    RParen,
    LBrace,
    RBrace,
    Function,
    Let,
}

impl View for Token {
    type V = TokenView;

    open spec fn view(&self) -> TokenView {
        match self {
            Token::IDENTIFIER(name) => TokenView::Identifier(name@),
            Token::Number(text) => TokenView::Number(text@),
            Token::ILLEGAL => TokenView::Illegal,
            Token::EOF => TokenView::Eof,
            Token::ASSIGN => TokenView::Assign,
            Token::ADD => TokenView::Add,
            Token::SUBTRACT => TokenView::Subtract,
            Token::MULTIPLICATION => TokenView::Multiplication,
            Token::DIVISION => TokenView::Division,
            Token::LESSTHAN => TokenView::LessThan,
            Token::GREATERTHAN => TokenView::GreaterThan,
            Token::BANG => TokenView::Bang,
            Token::EQAULITY => TokenView::Equality,
            Token::NOTEQUALITY => TokenView::NotEquality,
            Token::IF => TokenView::If,
            Token::ELSE => TokenView::Else,
            Token::RETURN => TokenView::Return,
            Token::TRUE => TokenView::True,
            Token::FALSE => TokenView::False,
            Token::SEMICOLON => TokenView::Semicolon,
            Token::COMMA => TokenView::Comma,
            Token::LPAREN => TokenView::LParen,
            Token::RPAREN => TokenView::RParen,
            Token::LBRACE => TokenView::LBrace,
            Token::RBRACE => TokenView::RBrace,
            Token::FUNCTION => TokenView::Function,
            Token::LET => TokenView::Let,
        }
    }
}

/// The text that a token is read from. The illegal token does not say which
/// character it was read from, so it has no text, as end-of-input has none.
pub open spec fn token_text(token: TokenView) -> Seq<char> {
    match token {
        TokenView::Identifier(name) => name,
        TokenView::Number(text) => text,
        TokenView::Illegal => Seq::empty(),
        TokenView::Eof => Seq::empty(),
        TokenView::Assign => seq!['='],
        TokenView::Add => seq!['+'],
        TokenView::Subtract => seq!['-'],
        TokenView::Multiplication => seq!['*'],
        TokenView::Division => seq!['/'],
        TokenView::LessThan => seq!['<'],
        TokenView::GreaterThan => seq!['>'],
        TokenView::Bang => seq!['!'],
        TokenView::Equality => seq!['=', '='],
        TokenView::NotEquality => seq!['!', '='],
        TokenView::If => "if"@,
        TokenView::Else => "else"@,
        TokenView::Return => "return"@,
        TokenView::True => "true"@,
        TokenView::False => "false"@,
        TokenView::Semicolon => seq![';'],
        TokenView::Comma => seq![','],
        TokenView::LParen => seq!['('],
        TokenView::RParen => seq![')'],
        TokenView::LBrace => seq!['{'],
        TokenView::RBrace => seq!['}'],
        TokenView::Function => "fn"@,
        TokenView::Let => "let"@,
    }
}

/// The views of the tokens, in their order.
pub open spec fn token_views(tokens: Seq<Token>) -> Seq<TokenView> {
    Seq::new(tokens.len(), |i: int| tokens[i]@)
}

impl Token {
    /// The text that the token is read from.
    pub fn text(&self) -> (text: String)
        ensures
            text@ == token_text(self@),
    {
        proof {
            reveal_strlit("");
            reveal_strlit("=");
            reveal_strlit("+");
            reveal_strlit("-");
            reveal_strlit("*");
            reveal_strlit("/");
            reveal_strlit("<");
            reveal_strlit(">");
            reveal_strlit("!");
            reveal_strlit("==");
            reveal_strlit("!=");
            reveal_strlit(";");
            reveal_strlit(",");
            reveal_strlit("(");
            reveal_strlit(")");
            reveal_strlit("{");
            reveal_strlit("}");
        }
        let text = match self {
            Token::IDENTIFIER(name) => name.clone(),
            Token::Number(text) => text.clone(),
            Token::ILLEGAL => String::from_str(""),
            Token::EOF => String::from_str(""),
            Token::ASSIGN => String::from_str("="),
            Token::ADD => String::from_str("+"),
            Token::SUBTRACT => String::from_str("-"),
            Token::MULTIPLICATION => String::from_str("*"),
            Token::DIVISION => String::from_str("/"),
            Token::LESSTHAN => String::from_str("<"),
            Token::GREATERTHAN => String::from_str(">"),
            Token::BANG => String::from_str("!"),
            Token::EQAULITY => String::from_str("=="),
            Token::NOTEQUALITY => String::from_str("!="),
            Token::IF => String::from_str("if"),
            Token::ELSE => String::from_str("else"),
            Token::RETURN => String::from_str("return"),
            Token::TRUE => String::from_str("true"),
            Token::FALSE => String::from_str("false"),
            Token::SEMICOLON => String::from_str(";"),
            Token::COMMA => String::from_str(","),
            Token::LPAREN => String::from_str("("),
            Token::RPAREN => String::from_str(")"),
            Token::LBRACE => String::from_str("{"),
            Token::RBRACE => String::from_str("}"),
            Token::FUNCTION => String::from_str("fn"),
            Token::LET => String::from_str("let"),
        };
        assert(text@ =~= token_text(self@));
        text
    }
}

} // verus!
