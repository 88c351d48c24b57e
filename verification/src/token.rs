//! Tokens: the unit of exchange between the scanner and the parser.

use vstd::prelude::*;
use vstd::string::StringExecFns;
use crate::text::write_text;

verus! {

/// The closed set of token kinds.
#[allow(non_camel_case_types)]
#[derive(PartialEq, Eq, Structural, Clone, Copy, Debug)]
pub enum TokenType {
    LEFT_PAREN,
    RIGHT_PAREN,
    LEFT_BRACE,
    RIGHT_BRACE,
    COMMA,
    DOT,
    MINUS,
    PLUS,
    SEMICOLON,
    SLASH,
    STAR,
    BANG,
    BANG_EQUAL,
    EQUAL,
    EQUAL_EQUAL,
    GREATER,
    GREATER_EQUAL,
    LESS,
    LESS_EQUAL,
    IDENTIFIER,
    STRING,
    NUMBER,
    AND,
    CLASS,
    ELSE,
    FALSE,
    FUN,
    FOR,
    IF,
    NIL,
    OR,
    PRINT,
    RETURN,
    SUPER,
    THIS,
    TRUE,
    VAR,
    WHILE,
    EOF,
}

/// A token: its kind, its text and the line it was read on.
///
/// For a string literal the text is the content between the quotes; for
/// every other kind it is the lexeme.
#[derive(Debug)]
pub struct Token {
    pub token_type: TokenType,
    pub token_value: String,
    pub line: u32,
}

/// The mathematical view of a token: its text is a sequence of characters.
pub struct TokenView {
    pub token_type: TokenType,
    pub token_value: Seq<char>,
    pub line: u32,
}

impl View for Token {
    type V = TokenView;

    open spec fn view(&self) -> TokenView {
        TokenView { token_type: self.token_type, token_value: self.token_value@, line: self.line }
    }
}

/// The views of a sequence of tokens, in order.
pub open spec fn tokens_view(tokens: Seq<Token>) -> Seq<TokenView> {
    Seq::new(tokens.len(), |i: int| tokens[i]@)
}

/// Whether no identifier among the tokens is spelled `this`. It holds of
/// every sequence that the scanner makes: there `this` is a word of the
/// language, with a kind of its own.
pub open spec fn worded(tokens: Seq<Token>) -> bool {
    forall|i: int|
        0 <= i < tokens.len() && (#[trigger] tokens[i]).token_type == TokenType::IDENTIFIER
            ==> tokens[i].token_value@ != "this"@
}

impl Clone for Token {
    fn clone(&self) -> (r: Self)
        ensures
            r == *self,
    {
        Token {
            token_type: self.token_type,
            token_value: self.token_value.clone(),
            line: self.line,
        }
    }
}

impl Token {
    /// A token of the given kind, text and line.
    pub fn new(token_type: TokenType, token_value: &str, line: u32) -> (r: Token)
        ensures
            r.token_type == token_type,
            r.token_value@ == token_value@,
            r.line == line,
    {
        Token { token_type, token_value: token_value.to_owned(), line }
    }
}

/// The name of a token kind.
pub open spec fn kind_name(kind: TokenType) -> Seq<char> {
    match kind {
        TokenType::LEFT_PAREN => "LEFT_PAREN"@,
        TokenType::RIGHT_PAREN => "RIGHT_PAREN"@,
        TokenType::LEFT_BRACE => "LEFT_BRACE"@,
        TokenType::RIGHT_BRACE => "RIGHT_BRACE"@,
        TokenType::COMMA => "COMMA"@,
        TokenType::DOT => "DOT"@,
        TokenType::MINUS => "MINUS"@,
        TokenType::PLUS => "PLUS"@,
        TokenType::SEMICOLON => "SEMICOLON"@,
        TokenType::SLASH => "SLASH"@,
        TokenType::STAR => "STAR"@,
        TokenType::BANG => "BANG"@,
        TokenType::BANG_EQUAL => "BANG_EQUAL"@,
        TokenType::EQUAL => "EQUAL"@,
        TokenType::EQUAL_EQUAL => "EQUAL_EQUAL"@,
        TokenType::GREATER => "GREATER"@,
        TokenType::GREATER_EQUAL => "GREATER_EQUAL"@,
        TokenType::LESS => "LESS"@,
        TokenType::LESS_EQUAL => "LESS_EQUAL"@,
        TokenType::IDENTIFIER => "IDENTIFIER"@,
        TokenType::STRING => "STRING"@,
        TokenType::NUMBER => "NUMBER"@,
        TokenType::AND => "AND"@,
        TokenType::CLASS => "CLASS"@,
        TokenType::ELSE => "ELSE"@,
        TokenType::FALSE => "FALSE"@,
        TokenType::FUN => "FUN"@,
        TokenType::FOR => "FOR"@,
        TokenType::IF => "IF"@,
        TokenType::NIL => "NIL"@,
        TokenType::OR => "OR"@,
        TokenType::PRINT => "PRINT"@,
        TokenType::RETURN => "RETURN"@,
        TokenType::SUPER => "SUPER"@,
        TokenType::THIS => "THIS"@,
        TokenType::TRUE => "TRUE"@,
        TokenType::VAR => "VAR"@,
        TokenType::WHILE => "WHILE"@,
        TokenType::EOF => "EOF"@,
    }
}

/// The line that lists a token: its kind, its lexeme and its literal. A
/// string is shown in quotes and has its content for its literal; a number
/// has the literal that the host makes of it; `EOF` has no lexeme; every
/// other token has the literal `null`.
pub open spec fn token_line(token: TokenView, number: Seq<char>) -> Seq<char> {
    kind_name(token.token_type) + " "@ + (match token.token_type {
        TokenType::STRING => "\""@ + token.token_value + "\""@,
        TokenType::EOF => Seq::empty(),
        _ => token.token_value,
    }) + " "@ + (match token.token_type {
        TokenType::STRING => token.token_value,
        TokenType::NUMBER => number,
        _ => "null"@,
    })
}

impl TokenType {
    /// The name of the kind.
    pub fn name(&self) -> (r: &'static str)
        ensures
            r@ == kind_name(*self),
    {
        match self {
            TokenType::LEFT_PAREN => "LEFT_PAREN",
            TokenType::RIGHT_PAREN => "RIGHT_PAREN",
            TokenType::LEFT_BRACE => "LEFT_BRACE",
            TokenType::RIGHT_BRACE => "RIGHT_BRACE",
            TokenType::COMMA => "COMMA",
            TokenType::DOT => "DOT",
            TokenType::MINUS => "MINUS",
            TokenType::PLUS => "PLUS",
            TokenType::SEMICOLON => "SEMICOLON",
            TokenType::SLASH => "SLASH",
            TokenType::STAR => "STAR",
            TokenType::BANG => "BANG",
            TokenType::BANG_EQUAL => "BANG_EQUAL",
            TokenType::EQUAL => "EQUAL",
            TokenType::EQUAL_EQUAL => "EQUAL_EQUAL",
            TokenType::GREATER => "GREATER",
            TokenType::GREATER_EQUAL => "GREATER_EQUAL",
            TokenType::LESS => "LESS",
            TokenType::LESS_EQUAL => "LESS_EQUAL",
            TokenType::IDENTIFIER => "IDENTIFIER",
            TokenType::STRING => "STRING",
            TokenType::NUMBER => "NUMBER",
            TokenType::AND => "AND",
            TokenType::CLASS => "CLASS",
            TokenType::ELSE => "ELSE",
            TokenType::FALSE => "FALSE",
            TokenType::FUN => "FUN",
            TokenType::FOR => "FOR",
            TokenType::IF => "IF",
            TokenType::NIL => "NIL",
            TokenType::OR => "OR",
            TokenType::PRINT => "PRINT",
            TokenType::RETURN => "RETURN",
            TokenType::SUPER => "SUPER",
            TokenType::THIS => "THIS",
            TokenType::TRUE => "TRUE",
            TokenType::VAR => "VAR",
            TokenType::WHILE => "WHILE",
            TokenType::EOF => "EOF",
        }
    }
}

impl Token {
    /// The line that lists the token. `number` is the literal of the
    /// token if it is a number.
    pub fn line(&self, number: &str) -> (r: String)
        ensures
            r@ == token_line(self@, number@),
    {
        let mut text = String::from_str(self.token_type.name());
        write_text(&mut text, " ");
        match self.token_type {
            TokenType::STRING => {
                write_text(&mut text, "\"");
                write_text(&mut text, self.token_value.as_str());
                write_text(&mut text, "\"");
            },
            TokenType::EOF => {},
            _ => {
                write_text(&mut text, self.token_value.as_str());
            },
        }
        write_text(&mut text, " ");
        match self.token_type {
            TokenType::STRING => {
                write_text(&mut text, self.token_value.as_str());
            },
            TokenType::NUMBER => {
                write_text(&mut text, number);
            },
            _ => {
                write_text(&mut text, "null");
            },
        }
        assert(text@ =~= token_line(self@, number@));
        text
    }
}

} // verus!
