//! The scanner: from source text to tokens, one token per call.
//!
//! The source is read left to right, one character at a time, without
//! backtracking. What the scanner does is fixed by [`token_at`], a function of
//! the source text and a position in it.

use vstd::prelude::*;
use vstd::string::*;
use crate::chars::{blank, digit, is_blank, is_digit, is_letter, letter};
use crate::token::{token_text, token_views, Token, TokenView};

verus! {

/// The character of `s` at `i`, or NUL where `i` is outside `s`.
pub open spec fn char_at(s: Seq<char>, i: int) -> char {
    if 0 <= i < s.len() {
        s[i]
    } else {
        '\0'
    }
}

/// The first position at or after `pos` that holds no blank.
pub open spec fn skip_blanks(s: Seq<char>, pos: int) -> int
    decreases s.len() - pos,
{
    if 0 <= pos < s.len() && is_blank(s[pos]) {
        skip_blanks(s, pos + 1)
    } else {
        pos
    }
}

/// The end of the longest run of letters that starts at `pos`.
pub open spec fn word_end(s: Seq<char>, pos: int) -> int
    decreases s.len() - pos,
{
    if 0 <= pos < s.len() && is_letter(s[pos]) {
        word_end(s, pos + 1)
    } else {
        pos
    }
}

/// A character of a numeric literal: a digit or the decimal point.
pub open spec fn is_numeral_char(c: char) -> bool {
    is_digit(c) || c == '.'
}

/// The end of the longest run of digits and decimal points that starts at `pos`.
pub open spec fn numeral_end(s: Seq<char>, pos: int) -> int
    decreases s.len() - pos,
{
    if 0 <= pos < s.len() && is_numeral_char(s[pos]) {
        numeral_end(s, pos + 1)
    } else {
        pos
    }
}

/// The token for a run of letters: a keyword if the run spells one, else an
/// identifier that carries the run.
pub open spec fn word_token(text: Seq<char>) -> TokenView {
    if text == "let"@ {
        TokenView::Let
    } else if text == "fn"@ {
        TokenView::Function
    } else if text == "return"@ {
        TokenView::Return
    } else if text == "if"@ {
        TokenView::If
    } else if text == "else"@ {
        TokenView::Else
    } else if text == "true"@ {
        TokenView::True
    } else if text == "false"@ {
        TokenView::False
    } else {
        TokenView::Identifier(text)
    }
}

/// The token for a single character that starts neither a word, a numeral, an
/// `=` nor a `!`: an operator or a punctuation mark, else the illegal token.
pub open spec fn symbol_token(c: char) -> TokenView {
    if c == '+' {
        TokenView::Add
    } else if c == '-' {
        TokenView::Subtract
    } else if c == '*' {
        TokenView::Multiplication
    } else if c == '/' {
        TokenView::Division
    } else if c == '<' {
        TokenView::LessThan
    } else if c == '>' {
        TokenView::GreaterThan
    } else if c == ',' {
        TokenView::Comma
    } else if c == '(' {
        TokenView::LParen
    } else if c == ')' {
        TokenView::RParen
    } else if c == '{' {
        TokenView::LBrace
    } else if c == '}' {
        TokenView::RBrace
    } else if c == ';' {
        TokenView::Semicolon
    } else {
        TokenView::Illegal
    }
}

/// The next token of `s` at or after `pos`, and the position behind it.
///
/// Blanks before the token are passed over. At the end of `s` the token is
/// end-of-input and the position stays where it is.
pub open spec fn token_at(s: Seq<char>, pos: int) -> (TokenView, int) {
    let start = skip_blanks(s, pos);
    if !(0 <= start < s.len()) {
        (TokenView::Eof, start)
    } else if is_letter(s[start]) {
        (word_token(s.subrange(start, word_end(s, start))), word_end(s, start))
    } else if is_digit(s[start]) {
        (TokenView::Number(s.subrange(start, numeral_end(s, start))), numeral_end(s, start))
    } else if s[start] == '=' {
        if char_at(s, start + 1) == '=' {
            (TokenView::Equality, start + 2)
        } else {
            (TokenView::Assign, start + 1)
        }
    } else if s[start] == '!' {
        if char_at(s, start + 1) == '=' {
            (TokenView::NotEquality, start + 2)
        } else {
            (TokenView::Bang, start + 1)
        }
    } else {
        (symbol_token(s[start]), start + 1)
    }
}

/// A cursor over a source text.
pub struct Lexer {
    input: String,
    length: usize,
    position: usize,
    ch: char,
}

impl Lexer {
    /// The source text.
    pub closed spec fn source(&self) -> Seq<char> {
        self.input@
    }

    /// The position of the cursor: how many characters lie behind it.
    pub closed spec fn cursor(&self) -> int {
        self.position as int
    }

    /// The cursor lies within the source or at its end, and the cached
    /// character is the one under it.
    pub closed spec fn well_formed(&self) -> bool {
        &&& self.length == self.input@.len()
        &&& self.position <= self.length
        &&& self.ch == char_at(self.input@, self.position as int)
    }

    /// A cursor at the start of `input`.
    pub fn new(input: &str) -> (lexer: Lexer)
        ensures
            lexer.well_formed(),
            lexer.source() == input@,
            lexer.cursor() == 0,
    {
        let length = input.unicode_len();
        let ch = if length > 0 {
            input.get_char(0)
        } else {
            '\0'
        };
        Lexer { input: String::from_str(input), length, position: 0, ch }
    }

    /// Moves the cursor one character on; at the end of the source it stays.
    pub fn next(&mut self)
        requires
            old(self).well_formed(),
        ensures
            final(self).well_formed(),
            final(self).source() == old(self).source(),
            final(self).cursor() == if old(self).cursor() < old(self).source().len() {
                old(self).cursor() + 1
            } else {
                old(self).cursor()
            },
    {
        if self.position < self.length {
            self.position = self.position + 1;
            self.ch = if self.position < self.length {
                self.input.as_str().get_char(self.position)
            } else {
                '\0'
            };
        }
    }

    /// The character behind the one under the cursor, or NUL if there is none.
    pub fn peek(&self) -> (c: char)
        requires
            self.well_formed(),
        ensures
            c == char_at(self.source(), self.cursor() + 1),
    {
        if self.position < self.length && self.position + 1 < self.length {
            self.input.as_str().get_char(self.position + 1)
        } else {
            '\0'
        }
    }

    /// Whether the cursor has reached the end of the source.
    pub fn at_end(&self) -> (r: bool)
        requires
            self.well_formed(),
        ensures
            r == (self.cursor() >= self.source().len()),
    {
        self.position >= self.length
    }
}

/// Reads the longest run of letters that starts under the cursor, and leaves
/// the cursor behind it.
pub fn read_identifier(l: &mut Lexer) -> (text: String)
    requires
        old(l).well_formed(),
    ensures
        final(l).well_formed(),
        final(l).source() == old(l).source(),
        final(l).cursor() == word_end(old(l).source(), old(l).cursor()),
        text@ == old(l).source().subrange(old(l).cursor(), final(l).cursor()),
{
    let start = l.position;
    while letter(l.ch)
        invariant
            l.well_formed(),
            l.input@ == old(l).input@,
            start <= l.position,
            word_end(l.input@, start as int) == word_end(l.input@, l.position as int),
        decreases l.length - l.position,
    {
        l.next();
    }
    String::from_str(l.input.as_str().substring_char(start, l.position))
}

/// Reads the longest run of digits and decimal points that starts under the
/// cursor, and leaves the cursor behind it. The text is kept as it stands.
pub fn read_numerical(l: &mut Lexer) -> (text: String)
    requires
        old(l).well_formed(),
    ensures
        final(l).well_formed(),
        final(l).source() == old(l).source(),
        final(l).cursor() == numeral_end(old(l).source(), old(l).cursor()),
        text@ == old(l).source().subrange(old(l).cursor(), final(l).cursor()),
{
    let start = l.position;
    while digit(l.ch) || l.ch == '.'
        invariant
            l.well_formed(),
            l.input@ == old(l).input@,
            start <= l.position,
            numeral_end(l.input@, start as int) == numeral_end(l.input@, l.position as int),
        decreases l.length - l.position,
    {
        l.next();
    }
    String::from_str(l.input.as_str().substring_char(start, l.position))
}

/// Whether two texts hold the same characters.
fn same_text(a: &str, b: &str) -> (r: bool)
    ensures
        r == (a@ == b@),
{
    let n = a.unicode_len();
    if n != b.unicode_len() {
        return false;
    }
    let mut i: usize = 0;
    while i < n
        invariant
            n == a@.len(),
            n == b@.len(),
            i <= n,
            forall|j: int| 0 <= j < i ==> a@[j] == b@[j],
        decreases n - i,
    {
        if a.get_char(i) != b.get_char(i) {
            return false;
        }
        i = i + 1;
    }
    assert(a@ =~= b@);
    true
}

/// The token for a run of letters.
fn word_to_token(word: String) -> (token: Token)
    ensures
        token@ == word_token(word@),
{
    let text = word.as_str();
    if same_text(text, "let") {
        Token::LET
    } else if same_text(text, "fn") {
        Token::FUNCTION
    } else if same_text(text, "return") {
        Token::RETURN
    } else if same_text(text, "if") {
        Token::IF
    } else if same_text(text, "else") {
        Token::ELSE
    } else if same_text(text, "true") {
        Token::TRUE
    } else if same_text(text, "false") {
        Token::FALSE
    } else {
        Token::IDENTIFIER(word)
    }
}

/// The token for a character that starts no longer token.
fn symbol_to_token(c: char) -> (token: Token)
    ensures
        token@ == symbol_token(c),
{
    if c == '+' {
        Token::ADD
    } else if c == '-' {
        Token::SUBTRACT
    } else if c == '*' {
        Token::MULTIPLICATION
    } else if c == '/' {
        Token::DIVISION
    } else if c == '<' {
        Token::LESSTHAN
    } else if c == '>' {
        Token::GREATERTHAN
    } else if c == ',' {
        Token::COMMA
    } else if c == '(' {
        Token::LPAREN
    } else if c == ')' {
        Token::RPAREN
    } else if c == '{' {
        Token::LBRACE
    } else if c == '}' {
        Token::RBRACE
    } else if c == ';' {
        Token::SEMICOLON
    } else {
        Token::ILLEGAL
    }
}

/// Reads the next token and leaves the cursor behind it.
///
/// Blanks are passed over. A run of letters is a keyword or an identifier; a
/// run of digits and decimal points that starts with a digit is a numeric
/// literal; `==` and `!=` are read as one token each; any other character is
/// one token, the illegal token if the language has no use for it. At the end
/// of the source every call returns end-of-input.
pub fn next_token(l: &mut Lexer) -> (token: Token)
    requires
        old(l).well_formed(),
    ensures
        final(l).well_formed(),
        final(l).source() == old(l).source(),
        token@ == token_at(old(l).source(), old(l).cursor()).0,
        final(l).cursor() == token_at(old(l).source(), old(l).cursor()).1,
{
    while blank(l.ch)
        invariant
            l.well_formed(),
            l.input@ == old(l).input@,
            skip_blanks(l.input@, l.position as int) == skip_blanks(
                l.input@,
                old(l).position as int,
            ),
        decreases l.length - l.position,
    {
        l.next();
    }
    if l.at_end() {
        return Token::EOF;
    }
    let curr = l.ch;
    if letter(curr) {
        let word = read_identifier(l);
        word_to_token(word)
    } else if digit(curr) {
        Token::Number(read_numerical(l))
    } else if curr == '=' {
        if l.peek() == '=' {
            l.next();
            l.next();
            Token::EQAULITY
        } else {
            l.next();
            Token::ASSIGN
        }
    } else if curr == '!' {
        if l.peek() == '=' {
            l.next();
            l.next();
            Token::NOTEQUALITY
        } else {
            l.next();
            Token::BANG
        }
    } else {
        l.next();
        symbol_to_token(curr)
    }
}

/// The tokens of `s` from `pos` on, up to and with end-of-input.
pub open spec fn tokens_from(s: Seq<char>, pos: int) -> Seq<TokenView>
    decreases s.len() - pos,
{
    if token_at(s, pos).0 is Eof {
        seq![TokenView::Eof]
    } else {
        proof {
            token_bounds(s, pos);
        }
        seq![token_at(s, pos).0] + tokens_from(s, token_at(s, pos).1)
    }
}

/// The texts of the tokens, one after the other.
pub open spec fn texts(tokens: Seq<TokenView>) -> Seq<char>
    decreases tokens.len(),
{
    if tokens.len() == 0 {
        Seq::empty()
    } else {
        token_text(tokens[0]) + texts(tokens.subrange(1, tokens.len() as int))
    }
}

/// The characters of `s` that are no blanks, in their order.
pub open spec fn without_blanks(s: Seq<char>) -> Seq<char> {
    s.filter(|c: char| !is_blank(c))
}

/// No token from `pos` on is the illegal token.
pub open spec fn legal_from(s: Seq<char>, pos: int) -> bool {
    forall|i: int| 0 <= i < tokens_from(s, pos).len() ==> !(#[trigger] tokens_from(s, pos)[i] is Illegal)
}

/// Blanks are passed over up to the first character that is none, or to the
/// end of the source.
proof fn skip_blanks_bounds(s: Seq<char>, pos: int)
    requires
        0 <= pos <= s.len(),
    ensures
        pos <= skip_blanks(s, pos) <= s.len(),
        forall|i: int| pos <= i < skip_blanks(s, pos) ==> is_blank(#[trigger] s[i]),
        skip_blanks(s, pos) < s.len() ==> !is_blank(s[skip_blanks(s, pos)]),
    decreases s.len() - pos,
{
    if pos < s.len() && is_blank(s[pos]) {
        skip_blanks_bounds(s, pos + 1);
    }
}

/// A run of letters ends within the source, and holds letters alone.
proof fn word_end_bounds(s: Seq<char>, pos: int)
    requires
        0 <= pos <= s.len(),
    ensures
        pos <= word_end(s, pos) <= s.len(),
        forall|i: int| pos <= i < word_end(s, pos) ==> is_letter(#[trigger] s[i]),
        pos < s.len() && is_letter(s[pos]) ==> pos < word_end(s, pos),
    decreases s.len() - pos,
{
    if pos < s.len() && is_letter(s[pos]) {
        word_end_bounds(s, pos + 1);
    }
}

/// A run of digits and decimal points ends within the source, and holds
/// digits and decimal points alone.
proof fn numeral_end_bounds(s: Seq<char>, pos: int)
    requires
        0 <= pos <= s.len(),
    ensures
        pos <= numeral_end(s, pos) <= s.len(),
        forall|i: int| pos <= i < numeral_end(s, pos) ==> is_numeral_char(#[trigger] s[i]),
        pos < s.len() && is_numeral_char(s[pos]) ==> pos < numeral_end(s, pos),
    decreases s.len() - pos,
{
    if pos < s.len() && is_numeral_char(s[pos]) {
        numeral_end_bounds(s, pos + 1);
    }
}

/// A token that is not end-of-input ends behind where the search for it began,
/// and within the source.
pub proof fn token_bounds(s: Seq<char>, pos: int)
    ensures
        !(token_at(s, pos).0 is Eof) ==> pos < token_at(s, pos).1 <= s.len(),
        !(token_at(s, pos).0 is Eof) ==> 0 <= pos,
{
    if 0 <= pos <= s.len() {
        skip_blanks_bounds(s, pos);
        let start = skip_blanks(s, pos);
        word_end_bounds(s, start);
        numeral_end_bounds(s, start);
    }
}

/// Reads all tokens of `input`, the closing end-of-input with them. No other
/// token of the result is end-of-input.
pub fn tokenize(input: &str) -> (tokens: Vec<Token>)
    ensures
        token_views(tokens@) == tokens_from(input@, 0),
        tokens@.len() > 0,
        tokens@.last() is EOF,
        forall|i: int| 0 <= i < tokens@.len() - 1 ==> !(#[trigger] tokens@[i] is EOF),
{
    let mut lexer = Lexer::new(input);
    let mut tokens: Vec<Token> = Vec::new();
    let mut finished = false;
    while !finished
        invariant
            lexer.well_formed(),
            lexer.source() == input@,
            finished ==> tokens@.len() > 0 && tokens@.last() is EOF,
            forall|i: int|
                0 <= i < tokens@.len() - (if finished { 1int } else { 0int }) ==> !(
                #[trigger] tokens@[i] is EOF),
            tokens_from(input@, 0) == token_views(tokens@) + (if finished {
                Seq::empty()
            } else {
                tokens_from(input@, lexer.cursor())
            }),
        decreases input@.len() - lexer.cursor() + (if finished { 0int } else { 1int }),
    {
        let ghost before = token_views(tokens@);
        let ghost pos = lexer.cursor();
        proof {
            token_bounds(input@, pos);
        }
        let token = next_token(&mut lexer);
        finished = match token {
            Token::EOF => true,
            _ => false,
        };
        tokens.push(token);
        proof {
            let now = token_views(tokens@);
            assert(now =~= before + seq![token_at(input@, pos).0]);
            if finished {
                assert(tokens_from(input@, 0) =~= now + Seq::empty());
            } else {
                assert(tokens_from(input@, 0) =~= now + tokens_from(input@, lexer.cursor()));
            }
        }
    }
    proof {
        let now = token_views(tokens@);
        assert(now + Seq::empty() =~= now);
    }
    tokens
}

/// A text of blanks alone has nothing left without them.
proof fn without_blanks_of_blanks(s: Seq<char>)
    requires
        forall|i: int| 0 <= i < s.len() ==> is_blank(#[trigger] s[i]),
    ensures
        without_blanks(s) == Seq::<char>::empty(),
    decreases s.len(),
{
    reveal(Seq::filter);
    if s.len() > 0 {
        without_blanks_of_blanks(s.drop_last());
    }
}

/// A text without blanks is all there without them.
proof fn without_blanks_of_none(s: Seq<char>)
    requires
        forall|i: int| 0 <= i < s.len() ==> !is_blank(#[trigger] s[i]),
    ensures
        without_blanks(s) == s,
    decreases s.len(),
{
    reveal(Seq::filter);
    if s.len() > 0 {
        without_blanks_of_none(s.drop_last());
        assert(s.drop_last().push(s.last()) =~= s);
    }
}

/// The text of a token that is neither illegal nor end-of-input is the
/// stretch of the source that it was read from, and no blank is in it.
proof fn token_spells_its_stretch(s: Seq<char>, pos: int)
    requires
        0 <= pos <= s.len(),
        !(token_at(s, pos).0 is Eof),
        !(token_at(s, pos).0 is Illegal),
    ensures
        pos <= skip_blanks(s, pos) < token_at(s, pos).1 <= s.len(),
        token_text(token_at(s, pos).0) == s.subrange(skip_blanks(s, pos), token_at(s, pos).1),
        forall|i: int| skip_blanks(s, pos) <= i < token_at(s, pos).1 ==> !is_blank(#[trigger] s[i]),
{
    skip_blanks_bounds(s, pos);
    let start = skip_blanks(s, pos);
    let next = token_at(s, pos).1;
    word_end_bounds(s, start);
    numeral_end_bounds(s, start);
    let stretch = s.subrange(start, next);
    if !is_letter(s[start]) && !is_digit(s[start]) {
        if (s[start] == '=' || s[start] == '!') && char_at(s, start + 1) == '=' {
            assert(stretch =~= seq![s[start], '=']);
        } else {
            assert(stretch =~= seq![s[start]]);
        }
    }
}

/// From any position on, the texts of the tokens are the source without its
/// blanks, provided that no token is illegal.
proof fn texts_from(s: Seq<char>, pos: int)
    requires
        0 <= pos <= s.len(),
        legal_from(s, pos),
    ensures
        texts(tokens_from(s, pos)) == without_blanks(s.subrange(pos, s.len() as int)),
    decreases s.len() - pos,
{
    skip_blanks_bounds(s, pos);
    let start = skip_blanks(s, pos);
    let token = token_at(s, pos).0;
    let next = token_at(s, pos).1;
    let end = s.len() as int;
    let tokens = tokens_from(s, pos);
    assert(tokens[0] == token);
    if token is Eof {
        assert(tokens.subrange(1, tokens.len() as int) =~= Seq::<TokenView>::empty());
        assert(texts(tokens.subrange(1, tokens.len() as int)) =~= Seq::<char>::empty());
        assert(texts(tokens) =~= Seq::<char>::empty());
        without_blanks_of_blanks(s.subrange(pos, end));
    } else {
        token_bounds(s, pos);
        token_spells_its_stretch(s, pos);
        let rest = tokens_from(s, next);
        assert(tokens.subrange(1, tokens.len() as int) =~= rest);
        assert(legal_from(s, next)) by {
            assert forall|i: int| 0 <= i < rest.len() implies !(#[trigger] rest[i] is Illegal) by {
                assert(tokens[i + 1] == rest[i]);
            }
        }
        texts_from(s, next);
        let blanks = s.subrange(pos, start);
        let stretch = s.subrange(start, next);
        let tail = s.subrange(next, end);
        without_blanks_of_blanks(blanks);
        without_blanks_of_none(stretch);
        let kept = |c: char| !is_blank(c);
        Seq::filter_distributes_over_add(blanks, stretch + tail, kept);
        Seq::filter_distributes_over_add(stretch, tail, kept);
        assert(s.subrange(pos, end) =~= blanks + (stretch + tail));
        assert(Seq::<char>::empty() + (stretch + without_blanks(tail)) =~= stretch
            + without_blanks(tail));
    }
}

/// The source is legal: lexing it gives no illegal token.
pub open spec fn is_legal(s: Seq<char>) -> bool {
    legal_from(s, 0)
}

/// Lexing a legal source and putting the texts of its tokens one after the
/// other gives back the source without its blanks.
pub proof fn lexing_keeps_the_text(s: Seq<char>)
    requires
        is_legal(s),
    ensures
        texts(tokens_from(s, 0)) == without_blanks(s),
{
    texts_from(s, 0);
    assert(s.subrange(0, s.len() as int) =~= s);
}

} // verus!
