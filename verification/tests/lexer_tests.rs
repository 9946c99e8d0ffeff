use exprlang::lexer::{next_token, read_identifier, read_numerical, tokenize, Lexer};
use exprlang::token::Token;

fn ident(name: &str) -> Token {
    Token::IDENTIFIER(name.to_string())
}

fn number(text: &str) -> Token {
    Token::Number(text.to_string())
}

fn without_blanks(source: &str) -> String {
    source.chars().filter(|c| !matches!(c, ' ' | '\t' | '\r' | '\n')).collect()
}

fn texts(tokens: &[Token]) -> String {
    let mut all = String::new();
    for token in tokens {
        all.push_str(&token.text());
    }
    all
}

#[test]
fn lexes_a_let_statement() {
    let mut lexer = Lexer::new("let x = 5;");
    assert_eq!(next_token(&mut lexer), Token::LET);
    assert_eq!(next_token(&mut lexer), ident("x"));
    assert_eq!(next_token(&mut lexer), Token::ASSIGN);
    assert_eq!(next_token(&mut lexer), number("5"));
    assert_eq!(next_token(&mut lexer), Token::SEMICOLON);
    assert_eq!(next_token(&mut lexer), Token::EOF);
    assert_eq!(next_token(&mut lexer), Token::EOF);
}

#[test]
fn lexes_every_keyword() {
    assert_eq!(
        tokenize("let fn return if else true false"),
        vec![
            Token::LET,
            Token::FUNCTION,
            Token::RETURN,
            Token::IF,
            Token::ELSE,
            Token::TRUE,
            Token::FALSE,
            Token::EOF,
        ]
    );
}

#[test]
fn a_word_that_only_starts_like_a_keyword_is_an_identifier() {
    assert_eq!(
        tokenize("lets iff Let returned"),
        vec![ident("lets"), ident("iff"), ident("Let"), ident("returned"), Token::EOF]
    );
}

#[test]
fn lexes_every_operator_and_punctuation_mark() {
    assert_eq!(
        tokenize("= + - * / < > ! == != , ( ) { } ;"),
        vec![
            Token::ASSIGN,
            Token::ADD,
            Token::SUBTRACT,
            Token::MULTIPLICATION,
            Token::DIVISION,
            Token::LESSTHAN,
            Token::GREATERTHAN,
            Token::BANG,
            Token::EQAULITY,
            Token::NOTEQUALITY,
            Token::COMMA,
            Token::LPAREN,
            Token::RPAREN,
            Token::LBRACE,
            Token::RBRACE,
            Token::SEMICOLON,
            Token::EOF,
        ]
    );
}

#[test]
fn assign_and_bang_consume_one_character() {
    assert_eq!(tokenize("=5"), vec![Token::ASSIGN, number("5"), Token::EOF]);
    assert_eq!(tokenize("!x"), vec![Token::BANG, ident("x"), Token::EOF]);
    assert_eq!(tokenize("x=y"), vec![ident("x"), Token::ASSIGN, ident("y"), Token::EOF]);
}

#[test]
fn equality_and_not_equality_consume_two_characters() {
    assert_eq!(tokenize("a==b"), vec![ident("a"), Token::EQAULITY, ident("b"), Token::EOF]);
    assert_eq!(tokenize("a!=b"), vec![ident("a"), Token::NOTEQUALITY, ident("b"), Token::EOF]);
    assert_eq!(tokenize("==="), vec![Token::EQAULITY, Token::ASSIGN, Token::EOF]);
    assert_eq!(tokenize("!=="), vec![Token::NOTEQUALITY, Token::ASSIGN, Token::EOF]);
    assert_eq!(tokenize("= ="), vec![Token::ASSIGN, Token::ASSIGN, Token::EOF]);
}

#[test]
fn an_operator_at_the_very_end_is_read() {
    assert_eq!(tokenize("x ="), vec![ident("x"), Token::ASSIGN, Token::EOF]);
    assert_eq!(tokenize("x !"), vec![ident("x"), Token::BANG, Token::EOF]);
}

#[test]
fn blanks_are_passed_over() {
    assert_eq!(
        tokenize(" \t\r\n let \n\n x\t=\r\n 5 ;  "),
        vec![Token::LET, ident("x"), Token::ASSIGN, number("5"), Token::SEMICOLON, Token::EOF]
    );
}

#[test]
fn the_empty_source_is_end_of_input() {
    assert_eq!(tokenize(""), vec![Token::EOF]);
    assert_eq!(tokenize("  \n\t "), vec![Token::EOF]);
    let mut lexer = Lexer::new("");
    assert_eq!(lexer.peek(), '\0');
    assert!(lexer.at_end());
    lexer.next();
    assert!(lexer.at_end());
    assert_eq!(next_token(&mut lexer), Token::EOF);
}

#[test]
fn an_unrecognized_character_is_the_illegal_token() {
    assert_eq!(tokenize("@"), vec![Token::ILLEGAL, Token::EOF]);
    assert_eq!(
        tokenize("x # y"),
        vec![ident("x"), Token::ILLEGAL, ident("y"), Token::EOF]
    );
    assert_eq!(tokenize("."), vec![Token::ILLEGAL, Token::EOF]);
}

#[test]
fn a_nul_character_in_the_source_is_illegal_and_does_not_end_it() {
    assert_eq!(tokenize("a\0b"), vec![ident("a"), Token::ILLEGAL, ident("b"), Token::EOF]);
}

#[test]
fn numeric_literals_keep_their_text() {
    assert_eq!(tokenize("3.14"), vec![number("3.14"), Token::EOF]);
    assert_eq!(tokenize("1.2.3"), vec![number("1.2.3"), Token::EOF]);
    assert_eq!(tokenize("5."), vec![number("5."), Token::EOF]);
    assert_eq!(tokenize("007"), vec![number("007"), Token::EOF]);
    assert_eq!(tokenize("12abc"), vec![number("12"), ident("abc"), Token::EOF]);
    assert_eq!(tokenize("abc12"), vec![ident("abc"), number("12"), Token::EOF]);
}

#[test]
fn letters_and_numerals_outside_ascii_are_classed_by_unicode() {
    assert_eq!(tokenize("été"), vec![ident("été"), Token::EOF]);
    assert_eq!(tokenize("let 京 = 1;").get(1), Some(&ident("京")));
    assert_eq!(tokenize("٣"), vec![number("٣"), Token::EOF]);
    assert_eq!(tokenize("€"), vec![Token::ILLEGAL, Token::EOF]);
    assert_eq!(tokenize("a€b"), vec![ident("a"), Token::ILLEGAL, ident("b"), Token::EOF]);
}

#[test]
fn the_cursor_moves_one_character_at_a_time_and_stops_at_the_end() {
    let mut lexer = Lexer::new("ab");
    assert_eq!(lexer.peek(), 'b');
    assert!(!lexer.at_end());
    lexer.next();
    assert_eq!(lexer.peek(), '\0');
    assert!(!lexer.at_end());
    lexer.next();
    assert!(lexer.at_end());
    lexer.next();
    assert!(lexer.at_end());
    assert_eq!(lexer.peek(), '\0');
}

#[test]
fn read_identifier_reads_the_longest_run_of_letters() {
    let mut lexer = Lexer::new("abc1 d");
    assert_eq!(read_identifier(&mut lexer), "abc");
    assert_eq!(read_identifier(&mut lexer), "");
    assert_eq!(next_token(&mut lexer), number("1"));
    assert_eq!(next_token(&mut lexer), ident("d"));
}

#[test]
fn read_numerical_reads_the_longest_run_of_digits_and_points() {
    let mut lexer = Lexer::new("12.5.x");
    assert_eq!(read_numerical(&mut lexer), "12.5.");
    assert_eq!(read_numerical(&mut lexer), "");
    assert_eq!(next_token(&mut lexer), ident("x"));
    assert_eq!(next_token(&mut lexer), Token::EOF);
}

#[test]
fn tokenize_ends_with_end_of_input() {
    for source in ["", "x", "let x = 5;", "@@@", "a\0"] {
        let tokens = tokenize(source);
        assert_eq!(tokens.last(), Some(&Token::EOF));
        assert_eq!(tokens.iter().filter(|t| **t == Token::EOF).count(), 1);
    }
}

#[test]
fn the_texts_of_the_tokens_give_back_the_source_without_blanks() {
    for source in [
        "let x = 5;",
        "\n    let foo = 5 * (10 + 2);\n    ",
        "if (a == b) { return true; } else { return !false; }",
        "fn add(x, y) { x + y }",
        "let été = 1.5 / 3 - 2 != 7 < 8 > 9;",
        "",
        "   ",
    ] {
        let tokens = tokenize(source);
        assert!(!tokens.contains(&Token::ILLEGAL));
        assert_eq!(texts(&tokens), without_blanks(source));
    }
}

#[test]
fn token_texts_are_what_the_tokens_are_read_from() {
    assert_eq!(Token::LET.text(), "let");
    assert_eq!(Token::FUNCTION.text(), "fn");
    assert_eq!(Token::EQAULITY.text(), "==");
    assert_eq!(Token::NOTEQUALITY.text(), "!=");
    assert_eq!(ident("abc").text(), "abc");
    assert_eq!(number("1.5").text(), "1.5");
    assert_eq!(Token::EOF.text(), "");
    assert_eq!(Token::ILLEGAL.text(), "");
}
