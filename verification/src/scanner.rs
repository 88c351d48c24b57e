//! The scanner: from characters to tokens.

use vstd::prelude::*;
use vstd::string::StringExecFns;
use crate::text::{alphabetic, decimal, digit, is_digit, text_between, write_decimal, write_text};
use crate::token::{Token, TokenType, TokenView, tokens_view, worded};

verus! {

/// A cursor into a text.
pub struct Characters {
    pub text: Vec<char>,
    pub position: usize,
}

/// What the scanner could not read.
#[derive(PartialEq, Eq, Structural, Clone, Copy, Debug)]
pub enum ScanMessage {
    UnterminatedString,
    UnexpectedCharacter(char),
}

/// A scan error, and the line on which it was found.
#[derive(PartialEq, Eq, Structural, Clone, Copy, Debug)]
pub struct ScanError {
    pub line: u32,
    pub message: ScanMessage,
}

/// The tokens of a text, ending in `EOF`, and the errors found on the way.
pub struct TokenizeResult {
    pub tokens: Vec<Token>,
    pub errors: Vec<ScanError>,
}

/// The index behind the end of the line that `from` lies in: behind the
/// next line feed, or at the end of the text.
pub open spec fn line_end(text: Seq<char>, from: int) -> int
    decreases text.len() - from,
{
    if from < 0 || from >= text.len() {
        text.len() as int
    } else if text[from] == '\n' {
        from + 1
    } else {
        line_end(text, from + 1)
    }
}

/// The index of the first double quote at or behind `from`.
pub open spec fn quote_position(text: Seq<char>, from: int) -> Option<int>
    decreases text.len() - from,
{
    if from < 0 || from >= text.len() {
        None
    } else if text[from] == '"' {
        Some(from)
    } else {
        quote_position(text, from + 1)
    }
}

/// The index behind the number that begins at `from`: digits, with at most
/// one decimal point among or behind them.
pub open spec fn number_end(text: Seq<char>, from: int, dot_used: bool) -> int
    decreases text.len() - from,
{
    if from < 0 || from >= text.len() {
        from
    } else if is_digit(text[from]) {
        number_end(text, from + 1, dot_used)
    } else if text[from] == '.' && !dot_used {
        number_end(text, from + 1, true)
    } else {
        from
    }
}

/// Whether a character may stand in an identifier.
pub open spec fn in_identifier(c: char) -> bool {
    alphabetic(c) || c == '_' || is_digit(c)
}

/// The index behind the identifier that begins at `from`.
pub open spec fn identifier_end(text: Seq<char>, from: int) -> int
    decreases text.len() - from,
{
    if from < 0 || from >= text.len() {
        from
    } else if in_identifier(text[from]) {
        identifier_end(text, from + 1)
    } else {
        from
    }
}

/// The kind of a reserved word.
pub open spec fn keyword(word: Seq<char>) -> Option<TokenType> {
    if word == "and"@ {
        Some(TokenType::AND)
    } else if word == "class"@ {
        Some(TokenType::CLASS)
    } else if word == "else"@ {
        Some(TokenType::ELSE)
    } else if word == "false"@ {
        Some(TokenType::FALSE)
    } else if word == "fun"@ {
        Some(TokenType::FUN)
    } else if word == "for"@ {
        Some(TokenType::FOR)
    } else if word == "if"@ {
        Some(TokenType::IF)
    } else if word == "nil"@ {
        Some(TokenType::NIL)
    } else if word == "or"@ {
        Some(TokenType::OR)
    } else if word == "print"@ {
        Some(TokenType::PRINT)
    } else if word == "return"@ {
        Some(TokenType::RETURN)
    } else if word == "super"@ {
        Some(TokenType::SUPER)
    } else if word == "this"@ {
        Some(TokenType::THIS)
    } else if word == "true"@ {
        Some(TokenType::TRUE)
    } else if word == "var"@ {
        Some(TokenType::VAR)
    } else if word == "while"@ {
        Some(TokenType::WHILE)
    } else {
        None
    }
}

/// The reserved word at `from`, if the whole identifier there is one.
pub open spec fn reserved_at(text: Seq<char>, from: int) -> Option<(TokenType, Seq<char>)> {
    let word = text.subrange(from, identifier_end(text, from));
    match keyword(word) {
        Some(token_type) => Some((token_type, word)),
        None => None,
    }
}

impl Characters {
    /// A cursor at the start of a text.
    pub fn new(text: Vec<char>) -> (r: Characters)
        ensures
            r.text == text,
            r.position == 0,
            r.wf(),
    {
        Characters { text, position: 0 }
    }

    /// The cursor's invariant: it stands in the text or at its end.
    pub open spec fn wf(&self) -> bool {
        self.position <= self.text@.len()
    }

    /// The character under the cursor.
    pub fn peek(&self) -> (r: Option<char>)
        requires
            self.wf(),
        ensures
            r == if self.position < self.text@.len() {
                Some(self.text@[self.position as int])
            } else {
                None
            },
    {
        if self.position < self.text.len() {
            Some(self.text[self.position])
        } else {
            None
        }
    }

    /// The character behind the one under the cursor.
    pub fn peek_next(&self) -> (r: Option<char>)
        requires
            self.wf(),
        ensures
            r == if self.position + 1 < self.text@.len() {
                Some(self.text@[self.position + 1])
            } else {
                None
            },
    {
        if self.position < self.text.len() && self.position + 1 < self.text.len() {
            Some(self.text[self.position + 1])
        } else {
            None
        }
    }

    /// Take the character under the cursor.
    pub fn next(&mut self) -> (r: Option<char>)
        requires
            old(self).wf(),
        ensures
            final(self).wf(),
            final(self).text == old(self).text,
            r == if old(self).position < old(self).text@.len() {
                Some(old(self).text@[old(self).position as int])
            } else {
                None
            },
            final(self).position == if r is Some {
                old(self).position + 1
            } else {
                old(self).position as int
            },
    {
        if self.position < self.text.len() {
            let c = self.text[self.position];
            self.position += 1;
            Some(c)
        } else {
            None
        }
    }
}

/// Move the cursor behind the end of the line.
pub fn consume_until_next_line(chars: &mut Characters)
    requires
        old(chars).wf(),
    ensures
        final(chars).wf(),
        final(chars).text == old(chars).text,
        final(chars).position == line_end(old(chars).text@, old(chars).position as int),
        final(chars).position >= old(chars).position,
{
    loop
        invariant
            chars.wf(),
            chars.text == old(chars).text,
            chars.position >= old(chars).position,
            line_end(chars.text@, chars.position as int) == line_end(
                old(chars).text@,
                old(chars).position as int,
            ),
        decreases chars.text@.len() - chars.position,
    {
        match chars.next() {
            Some(c) => {
                if c == '\n' {
                    return ;
                }
            },
            None => {
                return ;
            },
        }
    }
}

/// Take the characters up to the next double quote, and the quote. Without
/// a quote the cursor ends at the end of the text, and the string is
/// unterminated.
pub fn consume_until_next_double_quote(chars: &mut Characters) -> (r: Result<String, ScanMessage>)
    requires
        old(chars).wf(),
    ensures
        final(chars).wf(),
        final(chars).text == old(chars).text,
        match r {
            Ok(literal) => match quote_position(old(chars).text@, old(chars).position as int) {
                Some(q) => old(chars).position <= q < old(chars).text@.len() && literal@ == old(
                    chars,
                ).text@.subrange(old(chars).position as int, q) && final(chars).position == q + 1,
                None => false,
            },
            Err(message) => message == ScanMessage::UnterminatedString && quote_position(
                old(chars).text@,
                old(chars).position as int,
            ) is None && final(chars).position == old(chars).text@.len(),
        },
{
    let from = chars.position;
    loop
        invariant
            chars.wf(),
            chars.text == old(chars).text,
            from == old(chars).position,
            chars.position >= from,
            quote_position(chars.text@, chars.position as int) == quote_position(
                old(chars).text@,
                old(chars).position as int,
            ),
        decreases chars.text@.len() - chars.position,
    {
        match chars.next() {
            Some(c) => {
                if c == '"' {
                    return Ok(text_between(&chars.text, from, chars.position - 1));
                }
            },
            None => {
                return Err(ScanMessage::UnterminatedString);
            },
        }
    }
}

/// Take the number under the cursor: digits, with at most one decimal point
/// among or behind them.
pub fn get_number(chars: &mut Characters) -> (r: String)
    requires
        old(chars).wf(),
    ensures
        final(chars).wf(),
        final(chars).text == old(chars).text,
        final(chars).position == number_end(old(chars).text@, old(chars).position as int, false),
        final(chars).position >= old(chars).position,
        r@ == old(chars).text@.subrange(old(chars).position as int, final(chars).position as int),
{
    let from = chars.position;
    let mut dot_used = false;
    while chars.position < chars.text.len()
        invariant
            chars.wf(),
            chars.text == old(chars).text,
            from == old(chars).position,
            chars.position >= from,
            number_end(chars.text@, chars.position as int, dot_used) == number_end(
                old(chars).text@,
                old(chars).position as int,
                false,
            ),
        ensures
            chars.wf(),
            chars.text == old(chars).text,
            from == old(chars).position,
            chars.position >= from,
            chars.position == number_end(old(chars).text@, old(chars).position as int, false),
        decreases chars.text@.len() - chars.position,
    {
        let c = chars.text[chars.position];
        if digit(c) {
            chars.position += 1;
        } else if c == '.' && !dot_used {
            dot_used = true;
            chars.position += 1;
        } else {
            break ;
        }
    }
    text_between(&chars.text, from, chars.position)
}

/// Take the identifier under the cursor: letters, digits and underscores.
pub fn get_identifier(chars: &mut Characters) -> (r: String)
    requires
        old(chars).wf(),
    ensures
        final(chars).wf(),
        final(chars).text == old(chars).text,
        final(chars).position == identifier_end(old(chars).text@, old(chars).position as int),
        final(chars).position >= old(chars).position,
        r@ == old(chars).text@.subrange(old(chars).position as int, final(chars).position as int),
{
    let from = chars.position;
    while chars.position < chars.text.len()
        invariant
            chars.wf(),
            chars.text == old(chars).text,
            from == old(chars).position,
            chars.position >= from,
            identifier_end(chars.text@, chars.position as int) == identifier_end(
                old(chars).text@,
                old(chars).position as int,
            ),
        ensures
            chars.wf(),
            chars.text == old(chars).text,
            from == old(chars).position,
            chars.position >= from,
            chars.position == identifier_end(old(chars).text@, old(chars).position as int),
        decreases chars.text@.len() - chars.position,
    {
        let c = chars.text[chars.position];
        if c.is_alphabetic() || c == '_' || digit(c) {
            chars.position += 1;
        } else {
            break ;
        }
    }
    text_between(&chars.text, from, chars.position)
}

/// Whether a word is a given text.
fn is_word(word: &String, text: &str) -> (r: bool)
    ensures
        r == (word@ == text@),
{
    *word == String::from_str(text)
}

/// The kind of a reserved word.
pub fn reserved(word: &String) -> (r: Option<TokenType>)
    ensures
        r == keyword(word@),
{
    if is_word(word, "and") {
        Some(TokenType::AND)
    } else if is_word(word, "class") {
        Some(TokenType::CLASS)
    } else if is_word(word, "else") {
        Some(TokenType::ELSE)
    } else if is_word(word, "false") {
        Some(TokenType::FALSE)
    } else if is_word(word, "fun") {
        Some(TokenType::FUN)
    } else if is_word(word, "for") {
        Some(TokenType::FOR)
    } else if is_word(word, "if") {
        Some(TokenType::IF)
    } else if is_word(word, "nil") {
        Some(TokenType::NIL)
    } else if is_word(word, "or") {
        Some(TokenType::OR)
    } else if is_word(word, "print") {
        Some(TokenType::PRINT)
    } else if is_word(word, "return") {
        Some(TokenType::RETURN)
    } else if is_word(word, "super") {
        Some(TokenType::SUPER)
    } else if is_word(word, "this") {
        Some(TokenType::THIS)
    } else if is_word(word, "true") {
        Some(TokenType::TRUE)
    } else if is_word(word, "var") {
        Some(TokenType::VAR)
    } else if is_word(word, "while") {
        Some(TokenType::WHILE)
    } else {
        None
    }
}

/// The reserved word under the cursor, if the whole identifier there is
/// one. The cursor stays where it is.
pub fn get_if_reserved_keyword(chars: &Characters, line: u32) -> (r: Option<Token>)
    requires
        chars.wf(),
    ensures
        match r {
            Some(token) => reserved_at(chars.text@, chars.position as int) == Some(
                (token.token_type, token.token_value@),
            ) && token.line == line && chars.position + token.token_value@.len()
                <= chars.text@.len(),
            None => reserved_at(chars.text@, chars.position as int) is None,
        },
{
    let from = chars.position;
    let mut to = from;
    while to < chars.text.len()
        invariant
            from <= to <= chars.text@.len(),
            identifier_end(chars.text@, to as int) == identifier_end(chars.text@, from as int),
        ensures
            from <= to <= chars.text@.len(),
            to == identifier_end(chars.text@, from as int),
        decreases chars.text@.len() - to,
    {
        let c = chars.text[to];
        if !(c.is_alphabetic() || c == '_' || digit(c)) {
            break ;
        }
        to += 1;
    }
    let word = text_between(&chars.text, from, to);
    match reserved(&word) {
        Some(token_type) => Some(Token { token_type, token_value: word, line }),
        None => None,
    }
}

/// What the scanner reads at an index: where it goes on, on which line,
/// and the token or the error that it found there, if either.
pub struct Lexed {
    pub next: int,
    pub line: u32,
    pub token: Option<TokenView>,
    pub error: Option<ScanError>,
}

/// The kind of a token that is one character.
pub open spec fn punctuation(c: char) -> Option<TokenType> {
    if c == '(' {
        Some(TokenType::LEFT_PAREN)
    } else if c == ')' {
        Some(TokenType::RIGHT_PAREN)
    } else if c == '{' {
        Some(TokenType::LEFT_BRACE)
    } else if c == '}' {
        Some(TokenType::RIGHT_BRACE)
    } else if c == '*' {
        Some(TokenType::STAR)
    } else if c == '.' {
        Some(TokenType::DOT)
    } else if c == ',' {
        Some(TokenType::COMMA)
    } else if c == '+' {
        Some(TokenType::PLUS)
    } else if c == '-' {
        Some(TokenType::MINUS)
    } else if c == ';' {
        Some(TokenType::SEMICOLON)
    } else {
        None
    }
}

/// The kinds of the tokens that an operator character begins: alone, and
/// with `=` behind it.
pub open spec fn operator(c: char) -> Option<(TokenType, TokenType)> {
    if c == '=' {
        Some((TokenType::EQUAL, TokenType::EQUAL_EQUAL))
    } else if c == '!' {
        Some((TokenType::BANG, TokenType::BANG_EQUAL))
    } else if c == '<' {
        Some((TokenType::LESS, TokenType::LESS_EQUAL))
    } else if c == '>' {
        Some((TokenType::GREATER, TokenType::GREATER_EQUAL))
    } else {
        None
    }
}

/// A token read on a line.
pub open spec fn found(
    token_type: TokenType,
    token_value: Seq<char>,
    next: int,
    line: u32,
) -> Lexed {
    Lexed { next, line, token: Some(TokenView { token_type, token_value, line }), error: None }
}

/// Nothing read but characters passed.
pub open spec fn passed(next: int, line: u32) -> Lexed {
    Lexed { next, line, token: None, error: None }
}

/// Whether the character at an index is a given one.
pub open spec fn has(text: Seq<char>, at: int, c: char) -> bool {
    0 <= at < text.len() && text[at] == c
}

/// What the scanner reads at an index of a text.
pub open spec fn lexeme(text: Seq<char>, from: int, line: u32) -> Lexed {
    let c = text[from];
    if let Some(token_type) = punctuation(c) {
        found(token_type, seq![c], from + 1, line)
    } else if let Some((alone, with_equal)) = operator(c) {
        if has(text, from + 1, '=') {
            found(with_equal, seq![c, '='], from + 2, line)
        } else {
            found(alone, seq![c], from + 1, line)
        }
    } else if c == '/' {
        if has(text, from + 1, '/') {
            passed(line_end(text, from + 2), (line + 1) as u32)
        } else {
            found(TokenType::SLASH, seq![c], from + 1, line)
        }
    } else if c == '"' {
        match quote_position(text, from + 1) {
            Some(q) => found(TokenType::STRING, text.subrange(from + 1, q), q + 1, line),
            None => Lexed {
                next: text.len() as int,
                line,
                token: None,
                error: Some(ScanError { line, message: ScanMessage::UnterminatedString }),
            },
        }
    } else if c == '\n' {
        passed(from + 1, (line + 1) as u32)
    } else if c == '\t' || c == ' ' {
        passed(from + 1, line)
    } else if is_digit(c) {
        let to = number_end(text, from, false);
        found(TokenType::NUMBER, text.subrange(from, to), to, line)
    } else if alphabetic(c) || c == '_' {
        match reserved_at(text, from) {
            Some((token_type, word)) => found(token_type, word, from + word.len(), line),
            None => {
                let to = identifier_end(text, from);
                found(TokenType::IDENTIFIER, text.subrange(from, to), to, line)
            },
        }
    } else {
        Lexed {
            next: from + 1,
            line,
            token: None,
            error: Some(ScanError { line, message: ScanMessage::UnexpectedCharacter(c) }),
        }
    }
}

/// A token or an error, or neither, as a sequence.
pub open spec fn optional<T>(item: Option<T>) -> Seq<T> {
    match item {
        Some(item) => seq![item],
        None => Seq::empty(),
    }
}

/// The token that ends every token sequence.
pub open spec fn end_of_file(line: u32) -> TokenView {
    TokenView { token_type: TokenType::EOF, token_value: "EOF"@, line }
}

/// The tokens of a text from an index on, ending in `EOF`, and the errors
/// found on the way.
pub open spec fn scan(text: Seq<char>, from: int, line: u32) -> (Seq<TokenView>, Seq<ScanError>)
    decreases text.len() - from,
{
    if from < 0 || from >= text.len() {
        (seq![end_of_file(line)], Seq::empty())
    } else {
        let read = lexeme(text, from, line);
        if from < read.next <= text.len() {
            let rest = scan(text, read.next, read.line);
            (optional(read.token) + rest.0, optional(read.error) + rest.1)
        } else {
            (seq![end_of_file(line)], Seq::empty())
        }
    }
}

/// The kind of a token that is one character.
fn punctuation_of(c: char) -> (r: Option<TokenType>)
    ensures
        r == punctuation(c),
{
    if c == '(' {
        Some(TokenType::LEFT_PAREN)
    } else if c == ')' {
        Some(TokenType::RIGHT_PAREN)
    } else if c == '{' {
        Some(TokenType::LEFT_BRACE)
    } else if c == '}' {
        Some(TokenType::RIGHT_BRACE)
    } else if c == '*' {
        Some(TokenType::STAR)
    } else if c == '.' {
        Some(TokenType::DOT)
    } else if c == ',' {
        Some(TokenType::COMMA)
    } else if c == '+' {
        Some(TokenType::PLUS)
    } else if c == '-' {
        Some(TokenType::MINUS)
    } else if c == ';' {
        Some(TokenType::SEMICOLON)
    } else {
        None
    }
}

/// The kinds of the tokens that an operator character begins.
fn operator_of(c: char) -> (r: Option<(TokenType, TokenType)>)
    ensures
        r == operator(c),
{
    if c == '=' {
        Some((TokenType::EQUAL, TokenType::EQUAL_EQUAL))
    } else if c == '!' {
        Some((TokenType::BANG, TokenType::BANG_EQUAL))
    } else if c == '<' {
        Some((TokenType::LESS, TokenType::LESS_EQUAL))
    } else if c == '>' {
        Some((TokenType::GREATER, TokenType::GREATER_EQUAL))
    } else {
        None
    }
}

/// The view of an optional token.
pub open spec fn optional_token_view(token: Option<Token>) -> Option<TokenView> {
    match token {
        Some(token) => Some(token@),
        None => None,
    }
}

/// Read what stands under the cursor: a token, an error, or neither. The
/// result holds the line on which reading goes on.
pub fn next_token(chars: &mut Characters, line: u32) -> (r: (Option<Token>, Option<ScanError>, u32))
    requires
        old(chars).wf(),
        old(chars).position < old(chars).text@.len(),
        line < u32::MAX,
    ensures
        final(chars).wf(),
        final(chars).text == old(chars).text,
        final(chars).position > old(chars).position,
        r.2 <= line + 1,
        r.2 > line ==> final(chars).position >= old(chars).position + 1,
        (Lexed {
            next: final(chars).position as int,
            line: r.2,
            token: optional_token_view(r.0),
            error: r.1,
        }) == lexeme(old(chars).text@, old(chars).position as int, line),
{
    let from = chars.position;
    let n = chars.text.len();
    let c = chars.text[from];
    let ghost text = chars.text@;
    assert(text.subrange(from as int, from + 1) =~= seq![c]);
    if let Some(token_type) = punctuation_of(c) {
        chars.position += 1;
        let token_value = text_between(&chars.text, from, from + 1);
        return (Some(Token { token_type, token_value, line }), None, line);
    }
    if let Some(kinds) = operator_of(c) {
        chars.position += 1;
        if chars.peek() == Some('=') {
            chars.position += 1;
            assert(text.subrange(from as int, from + 2) =~= seq![c, '=']);
            let token_value = text_between(&chars.text, from, from + 2);
            return (Some(Token { token_type: kinds.1, token_value, line }), None, line);
        }
        let token_value = text_between(&chars.text, from, from + 1);
        return (Some(Token { token_type: kinds.0, token_value, line }), None, line);
    }
    if c == '/' {
        chars.position += 1;
        if chars.peek() == Some('/') {
            chars.position += 1;
            consume_until_next_line(chars);
            return (None, None, line + 1);
        }
        let token_value = text_between(&chars.text, from, from + 1);
        return (Some(Token { token_type: TokenType::SLASH, token_value, line }), None, line);
    }
    if c == '"' {
        chars.position += 1;
        return match consume_until_next_double_quote(chars) {
            Ok(literal) => (
                Some(Token { token_type: TokenType::STRING, token_value: literal, line }),
                None,
                line,
            ),
            Err(message) => (None, Some(ScanError { line, message }), line),
        };
    }
    if c == '\n' {
        chars.position += 1;
        return (None, None, line + 1);
    }
    if c == '\t' || c == ' ' {
        chars.position += 1;
        return (None, None, line);
    }
    if digit(c) {
        let number = get_number(chars);
        assert(chars.position > from) by {
            assert(number_end(text, from as int, false) == number_end(text, from + 1, false));
            number_end_bounds(text, from + 1, false);
        }
        return (
            Some(Token { token_type: TokenType::NUMBER, token_value: number, line }),
            None,
            line,
        );
    }
    if c.is_alphabetic() || c == '_' {
        return match get_if_reserved_keyword(chars, line) {
            Some(token) => {
                let length = token.token_value.as_str().unicode_len();
                proof {
                    keyword_is_not_empty(token.token_value@);
                }
                chars.position += length;
                (Some(token), None, line)
            },
            None => {
                let identifier = get_identifier(chars);
                assert(chars.position > from) by {
                    assert(identifier_end(text, from as int) == identifier_end(text, from + 1));
                    identifier_end_bounds(text, from + 1);
                }
                (
                    Some(Token { token_type: TokenType::IDENTIFIER, token_value: identifier, line }),
                    None,
                    line,
                )
            },
        };
    }
    chars.position += 1;
    (None, Some(ScanError { line, message: ScanMessage::UnexpectedCharacter(c) }), line)
}

/// A number ends at or behind where it begins, within the text.
pub proof fn number_end_bounds(text: Seq<char>, from: int, dot_used: bool)
    requires
        0 <= from <= text.len(),
    ensures
        from <= number_end(text, from, dot_used) <= text.len(),
    decreases text.len() - from,
{
    if from < text.len() {
        if is_digit(text[from]) {
            number_end_bounds(text, from + 1, dot_used);
        } else if text[from] == '.' && !dot_used {
            number_end_bounds(text, from + 1, true);
        }
    }
}

/// An identifier ends at or behind where it begins, within the text.
pub proof fn identifier_end_bounds(text: Seq<char>, from: int)
    requires
        0 <= from <= text.len(),
    ensures
        from <= identifier_end(text, from) <= text.len(),
    decreases text.len() - from,
{
    if from < text.len() && in_identifier(text[from]) {
        identifier_end_bounds(text, from + 1);
    }
}

/// No reserved word is empty.
pub proof fn keyword_is_not_empty(word: Seq<char>)
    requires
        keyword(word) is Some,
    ensures
        word.len() > 0,
{
    reveal_strlit("and");
    reveal_strlit("class");
    reveal_strlit("else");
    reveal_strlit("false");
    reveal_strlit("fun");
    reveal_strlit("for");
    reveal_strlit("if");
    reveal_strlit("nil");
    reveal_strlit("or");
    reveal_strlit("print");
    reveal_strlit("return");
    reveal_strlit("super");
    reveal_strlit("this");
    reveal_strlit("true");
    reveal_strlit("var");
    reveal_strlit("while");
}

/// Whether no identifier among the tokens is spelled as a reserved word.
pub open spec fn no_identifier_is_reserved(tokens: Seq<TokenView>) -> bool {
    forall|i: int|
        0 <= i < tokens.len() && (#[trigger] tokens[i]).token_type == TokenType::IDENTIFIER
            ==> keyword(tokens[i].token_value) is None
}

/// Whether no identifier among the tokens is spelled `this`.
pub open spec fn no_identifier_is_this(tokens: Seq<TokenView>) -> bool {
    forall|i: int|
        0 <= i < tokens.len() && (#[trigger] tokens[i]).token_type == TokenType::IDENTIFIER
            ==> tokens[i].token_value != "this"@
}

/// No identifier that the scanner reads is a reserved word, and so none is
/// the word `this`.
pub proof fn scanned_identifiers_are_not_this(text: Seq<char>, from: int, line: u32)
    ensures
        no_identifier_is_reserved(scan(text, from, line).0),
        no_identifier_is_this(scan(text, from, line).0),
    decreases text.len() - from,
{
    if 0 <= from < text.len() {
        let read = lexeme(text, from, line);
        if from < read.next <= text.len() {
            scanned_identifiers_are_not_this(text, read.next, read.line);
            let first = optional(read.token);
            let rest = scan(text, read.next, read.line).0;
            let all = first + rest;
            assert forall|i: int|
                0 <= i < all.len() && (#[trigger] all[i]).token_type
                    == TokenType::IDENTIFIER implies keyword(all[i].token_value) is None by {
                if i < first.len() {
                    assert(all[i] == read.token->0);
                } else {
                    assert(all[i] == rest[i - first.len()]);
                }
            }
        }
    }
}

/// The number of line feeds among the first characters of a text, up to
/// an index.
pub open spec fn line_feeds(text: Seq<char>, upto: int) -> nat
    decreases upto,
{
    if upto <= 0 {
        0
    } else if text[upto - 1] == '\n' {
        line_feeds(text, upto - 1) + 1
    } else {
        line_feeds(text, upto - 1)
    }
}

/// The number of lines of a text: one more than it has line feeds.
pub open spec fn lines(text: Seq<char>) -> nat {
    line_feeds(text, text.len() as int) + 1
}

/// There are no fewer line feeds in front of a later index.
pub proof fn line_feeds_grow(text: Seq<char>, from: int, to: int)
    requires
        0 <= from <= to,
    ensures
        line_feeds(text, from) <= line_feeds(text, to),
    decreases to - from,
{
    if from < to {
        line_feeds_grow(text, from, to - 1);
    }
}

/// The scanner counts no line without a line feed, but the one that a
/// comment at the end of the text leaves open. Where reading goes on on the
/// next line, a line feed was passed or the text is at its end.
pub proof fn lexeme_counts_lines(text: Seq<char>, from: int, line: u32)
    requires
        0 <= from < text.len(),
        line < u32::MAX,
    ensures
        ({
            let read = lexeme(text, from, line);
            let passed_feed = line_feeds(text, read.next) > line_feeds(text, from);
            ||| read.line == line
            ||| read.line == line + 1 && from < read.next <= text.len() && (passed_feed
                || read.next == text.len())
        }),
{
    let read = lexeme(text, from, line);
    if text[from] == '\n' {
        assert(read.next == from + 1);
    } else if text[from] == '/' && has(text, from + 1, '/') {
        line_end_is_first(text, from + 2);
        if read.next < text.len() {
            line_feeds_grow(text, from, read.next - 1);
        }
    }
}

/// Whether the lines of a text can be counted: whether it has fewer than
/// `u32::MAX` of them.
pub fn has_countable_lines(source: &Vec<char>) -> (r: bool)
    ensures
        r == (lines(source@) < u32::MAX),
{
    let mut feeds: usize = 0;
    let mut i: usize = 0;
    while i < source.len()
        invariant
            i <= source@.len(),
            feeds <= i,
            feeds == line_feeds(source@, i as int),
        decreases source@.len() - i,
    {
        if source[i] == '\n' {
            feeds += 1;
        }
        i += 1;
    }
    (feeds as u64) < (u32::MAX as u64) - 1
}

/// The tokens of a text, ending in `EOF`, and the errors found on the way.
/// No identifier among them is spelled `this`. The lines are counted in
/// 32 bits, so the text has fewer lines than that can count.
pub fn tokenize(source: &Vec<char>) -> (r: TokenizeResult)
    requires
        lines(source@) < u32::MAX,
    ensures
        (tokens_view(r.tokens@), r.errors@) == scan(source@, 0, 1),
        r.tokens@.len() > 0,
        r.tokens@.last().token_type == TokenType::EOF,
        worded(r.tokens@),
{
    let mut chars = Characters::new(source.clone());
    let mut tokens: Vec<Token> = Vec::new();
    let mut errors: Vec<ScanError> = Vec::new();
    let mut line: u32 = 1;
    assert(tokens_view(tokens@) =~= Seq::empty());
    while chars.position < chars.text.len()
        invariant
            chars.wf(),
            chars.text@ == source@,
            lines(source@) < u32::MAX,
            line <= 1 + line_feeds(source@, chars.position as int) + (if chars.position
                == source@.len() {
                1int
            } else {
                0int
            }),
            scan(source@, 0, 1) == (
                tokens_view(tokens@) + scan(source@, chars.position as int, line).0,
                errors@ + scan(source@, chars.position as int, line).1,
            ),
        decreases chars.text@.len() - chars.position,
    {
        let ghost before = tokens_view(tokens@);
        let ghost errors_before = errors@;
        let ghost rest = scan(source@, chars.position as int, line);
        proof {
            line_feeds_grow(source@, chars.position as int, source@.len() as int);
            lexeme_counts_lines(source@, chars.position as int, line);
        }
        let ghost from = chars.position as int;
        let read = next_token(&mut chars, line);
        proof {
            line_feeds_grow(source@, from, chars.position as int);
        }
        let ghost after = scan(source@, chars.position as int, read.2);
        assert(rest == (
            optional(optional_token_view(read.0)) + after.0,
            optional(read.1) + after.1,
        ));
        match read.0 {
            Some(token) => {
                tokens.push(token);
                assert(tokens_view(tokens@) =~= before + optional(Some(token@)));
            },
            None => {
                assert(tokens_view(tokens@) =~= before + optional(None::<TokenView>));
            },
        }
        match read.1 {
            Some(error) => {
                errors.push(error);
                assert(errors@ =~= errors_before + optional(Some(error)));
            },
            None => {
                assert(errors@ =~= errors_before + optional(None::<ScanError>));
            },
        }
        line = read.2;
        assert(tokens_view(tokens@) + after.0 =~= before + rest.0);
        assert(errors@ + after.1 =~= errors_before + rest.1);
    }
    let ghost before = tokens_view(tokens@);
    let last = Token::new(TokenType::EOF, "EOF", line);
    tokens.push(last);
    assert(tokens_view(tokens@) =~= before + seq![end_of_file(line)]);
    assert(errors@ + Seq::<ScanError>::empty() =~= errors@);
    proof {
        scanned_identifiers_are_not_this(source@, 0, 1);
        let views = tokens_view(tokens@);
        assert forall|i: int|
            0 <= i < tokens@.len() && (#[trigger] tokens@[i]).token_type
                == TokenType::IDENTIFIER implies tokens@[i].token_value@ != "this"@ by {
            assert(views[i] == tokens@[i]@);
        }
    }
    TokenizeResult { tokens, errors }
}

impl TokenizeResult {
    /// The exit code of a scan: 65 if there was an error, 0 if not.
    pub fn exit_code(&self) -> (r: i32)
        ensures
            r == if self.errors@.len() > 0 {
                65i32
            } else {
                0i32
            },
    {
        if self.errors.len() > 0 {
            65
        } else {
            0
        }
    }
}

/// The line that reports a scan error.
pub open spec fn scan_report(error: ScanError) -> Seq<char> {
    "[line "@ + decimal(error.line as nat) + "] Error: "@ + match error.message {
        ScanMessage::UnterminatedString => "Unterminated string."@,
        ScanMessage::UnexpectedCharacter(c) => "Unexpected character: "@.push(c),
    }
}

impl ScanError {
    /// The line that reports the error.
    pub fn report(&self) -> (r: String)
        ensures
            r@ == scan_report(*self),
    {
        let mut text = String::from_str("[line ");
        write_decimal(&mut text, self.line as u64);
        write_text(&mut text, "] Error: ");
        match self.message {
            ScanMessage::UnterminatedString => {
                write_text(&mut text, "Unterminated string.");
            },
            ScanMessage::UnexpectedCharacter(c) => {
                write_text(&mut text, "Unexpected character: ");
                text.push(c);
            },
        }
        assert(text@ =~= scan_report(*self));
        text
    }
}


/// The end of the line is behind the first line feed: none stands in front
/// of it; and where there is no line feed, the line ends with the text.
pub proof fn line_end_is_first(text: Seq<char>, from: int)
    requires
        0 <= from <= text.len(),
    ensures
        ({
            let end = line_end(text, from);
            &&& from <= end <= text.len()
            &&& forall|i: int| from <= i < end - 1 ==> text[i] != '\n'
            &&& end == text.len() || text[end - 1] == '\n'
            &&& end < text.len() ==> end > from
        }),
    decreases text.len() - from,
{
    if from < text.len() && text[from] != '\n' {
        line_end_is_first(text, from + 1);
    }
}

/// The quote that is found is the first: none stands in front of it; and
/// where none is found, there is none.
pub proof fn quote_position_is_first(text: Seq<char>, from: int)
    requires
        0 <= from <= text.len(),
    ensures
        match quote_position(text, from) {
            Some(q) => from <= q < text.len() && text[q] == '"' && forall|i: int|
                from <= i < q ==> text[i] != '"',
            None => forall|i: int| from <= i < text.len() ==> text[i] != '"',
        },
    decreases text.len() - from,
{
    if from < text.len() && text[from] != '"' {
        quote_position_is_first(text, from + 1);
    }
}

/// An identifier is the longest run of letters, digits and underscores.
pub proof fn identifier_end_is_longest(text: Seq<char>, from: int)
    requires
        0 <= from <= text.len(),
    ensures
        ({
            let end = identifier_end(text, from);
            &&& from <= end <= text.len()
            &&& forall|i: int| from <= i < end ==> in_identifier(text[i])
            &&& end == text.len() || !in_identifier(text[end])
        }),
    decreases text.len() - from,
{
    if from < text.len() && in_identifier(text[from]) {
        identifier_end_is_longest(text, from + 1);
    }
}

/// How many decimal points stand in a part of a text.
pub open spec fn points(text: Seq<char>, from: int, to: int) -> nat
    decreases to - from,
{
    if from >= to || from < 0 || to > text.len() {
        0
    } else if text[from] == '.' {
        1 + points(text, from + 1, to)
    } else {
        points(text, from + 1, to)
    }
}

/// A number is the longest run of digits and decimal points that holds at
/// most one point: none at all, if a point was passed before.
pub proof fn number_end_is_longest(text: Seq<char>, from: int, dot_used: bool)
    requires
        0 <= from <= text.len(),
    ensures
        ({
            let end = number_end(text, from, dot_used);
            let seen = points(text, from, end);
            &&& from <= end <= text.len()
            &&& forall|i: int| from <= i < end ==> is_digit(text[i]) || text[i] == '.'
            &&& seen <= 1
            &&& dot_used ==> seen == 0
            &&& end == text.len() || !(is_digit(text[end]) || (text[end] == '.' && !dot_used
                && seen == 0))
        }),
    decreases text.len() - from,
{
    if from < text.len() {
        if is_digit(text[from]) {
            number_end_is_longest(text, from + 1, dot_used);
        } else if text[from] == '.' && !dot_used {
            number_end_is_longest(text, from + 1, true);
        }
    }
}

} // verus!
