use lox::scanner::{
    consume_until_next_double_quote, consume_until_next_line, get_identifier,
    get_if_reserved_keyword, get_number, has_countable_lines, next_token, reserved, tokenize,
    Characters, ScanError, ScanMessage,
};
use lox::token::{Token, TokenType};

fn characters(text: &str) -> Characters {
    Characters::new(text.chars().collect())
}

fn kinds(text: &str) -> Vec<TokenType> {
    tokenize(&text.chars().collect())
        .tokens
        .iter()
        .map(|t| t.token_type)
        .collect()
}

fn texts(text: &str) -> Vec<String> {
    tokenize(&text.chars().collect())
        .tokens
        .iter()
        .map(|t| t.token_value.clone())
        .collect()
}

#[test]
fn empty_text_is_end_of_file() {
    let result = tokenize(&Vec::new());
    assert_eq!(result.tokens.len(), 1);
    assert_eq!(result.tokens[0].token_type, TokenType::EOF);
    assert_eq!(result.tokens[0].token_value, "EOF");
    assert_eq!(result.tokens[0].line, 1);
    assert!(result.errors.is_empty());
    assert_eq!(result.exit_code(), 0);
}

#[test]
fn punctuation() {
    assert_eq!(
        kinds("(){}*.,+-;/"),
        vec![
            TokenType::LEFT_PAREN,
            TokenType::RIGHT_PAREN,
            TokenType::LEFT_BRACE,
            TokenType::RIGHT_BRACE,
            TokenType::STAR,
            TokenType::DOT,
            TokenType::COMMA,
            TokenType::PLUS,
            TokenType::MINUS,
            TokenType::SEMICOLON,
            TokenType::SLASH,
            TokenType::EOF,
        ]
    );
    assert_eq!(
        texts("(){}*.,+-;/"),
        vec!["(", ")", "{", "}", "*", ".", ",", "+", "-", ";", "/", "EOF"]
    );
}

#[test]
fn operators_of_one_and_two_characters() {
    assert_eq!(
        kinds("= == ! != < <= > >="),
        vec![
            TokenType::EQUAL,
            TokenType::EQUAL_EQUAL,
            TokenType::BANG,
            TokenType::BANG_EQUAL,
            TokenType::LESS,
            TokenType::LESS_EQUAL,
            TokenType::GREATER,
            TokenType::GREATER_EQUAL,
            TokenType::EOF,
        ]
    );
    assert_eq!(
        texts("= == ! != < <= > >="),
        vec!["=", "==", "!", "!=", "<", "<=", ">", ">=", "EOF"]
    );
    assert_eq!(
        kinds("==="),
        vec![TokenType::EQUAL_EQUAL, TokenType::EQUAL, TokenType::EOF]
    );
}

#[test]
fn reserved_words() {
    let words = [
        ("and", TokenType::AND),
        ("class", TokenType::CLASS),
        ("else", TokenType::ELSE),
        ("false", TokenType::FALSE),
        ("fun", TokenType::FUN),
        ("for", TokenType::FOR),
        ("if", TokenType::IF),
        ("nil", TokenType::NIL),
        ("or", TokenType::OR),
        ("print", TokenType::PRINT),
        ("return", TokenType::RETURN),
        ("super", TokenType::SUPER),
        ("this", TokenType::THIS),
        ("true", TokenType::TRUE),
        ("var", TokenType::VAR),
        ("while", TokenType::WHILE),
    ];
    for (word, kind) in words {
        assert_eq!(reserved(&word.to_string()), Some(kind));
        assert_eq!(kinds(word), vec![kind, TokenType::EOF]);
        assert_eq!(texts(word), vec![word, "EOF"]);
    }
    assert_eq!(reserved(&"foo".to_string()), None);
    assert_eq!(reserved(&"".to_string()), None);
    assert_eq!(reserved(&"And".to_string()), None);
}

#[test]
fn identifiers() {
    assert_eq!(
        kinds("foo _bar baz_1 orchid printer format"),
        vec![TokenType::IDENTIFIER; 6]
            .into_iter()
            .chain([TokenType::EOF])
            .collect::<Vec<_>>()
    );
    assert_eq!(
        texts("foo _bar baz_1 orchid printer format"),
        vec!["foo", "_bar", "baz_1", "orchid", "printer", "format", "EOF"]
    );
}

#[test]
fn identifier_may_hold_letters_beyond_ascii() {
    assert_eq!(kinds("caf\u{e9}"), vec![TokenType::IDENTIFIER, TokenType::EOF]);
    assert_eq!(texts("caf\u{e9}"), vec!["caf\u{e9}", "EOF"]);
    assert_eq!(get_identifier(&mut characters("\u{3b1}\u{3b2}+1")), "\u{3b1}\u{3b2}");
}

#[test]
fn a_word_is_reserved_only_when_the_whole_identifier_is_one() {
    for source in ["class1", "or_x", "returned", "_if", "nil0", "forever", "superb", "truex"] {
        assert_eq!(kinds(source), vec![TokenType::IDENTIFIER, TokenType::EOF], "{}", source);
        assert_eq!(texts(source), vec![source, "EOF"]);
    }
    assert_eq!(
        kinds("return ed"),
        vec![TokenType::RETURN, TokenType::IDENTIFIER, TokenType::EOF]
    );
    assert_eq!(
        kinds("or(x)"),
        vec![
            TokenType::OR,
            TokenType::LEFT_PAREN,
            TokenType::IDENTIFIER,
            TokenType::RIGHT_PAREN,
            TokenType::EOF
        ]
    );
    assert_eq!(kinds("1or"), vec![TokenType::NUMBER, TokenType::OR, TokenType::EOF]);
}

#[test]
fn numbers() {
    assert_eq!(texts("1 23 4.5 0.25"), vec!["1", "23", "4.5", "0.25", "EOF"]);
    assert_eq!(kinds("1 23 4.5 0.25"), {
        let mut k = vec![TokenType::NUMBER; 4];
        k.push(TokenType::EOF);
        k
    });
    assert_eq!(
        kinds("1.5.2"),
        vec![TokenType::NUMBER, TokenType::DOT, TokenType::NUMBER, TokenType::EOF]
    );
    assert_eq!(texts("1.5.2"), vec!["1.5", ".", "2", "EOF"]);
    assert_eq!(texts("7."), vec!["7.", "EOF"]);
}

#[test]
fn strings() {
    let result = tokenize(&"\"hello world\" \"\"".chars().collect());
    assert_eq!(result.tokens.len(), 3);
    assert_eq!(result.tokens[0].token_type, TokenType::STRING);
    assert_eq!(result.tokens[0].token_value, "hello world");
    assert_eq!(result.tokens[1].token_type, TokenType::STRING);
    assert_eq!(result.tokens[1].token_value, "");
    assert!(result.errors.is_empty());
}

#[test]
fn unterminated_string() {
    let result = tokenize(&"1 \"abc".chars().collect());
    assert_eq!(
        result.errors,
        vec![ScanError { line: 1, message: ScanMessage::UnterminatedString }]
    );
    assert_eq!(result.exit_code(), 65);
    assert_eq!(result.tokens.len(), 2);
    assert_eq!(result.tokens[0].token_type, TokenType::NUMBER);
    assert_eq!(result.tokens[1].token_type, TokenType::EOF);
    assert_eq!(result.errors[0].report(), "[line 1] Error: Unterminated string.");
}

#[test]
fn unexpected_characters() {
    let result = tokenize(&"@ 1\n#".chars().collect());
    assert_eq!(
        result.errors,
        vec![
            ScanError { line: 1, message: ScanMessage::UnexpectedCharacter('@') },
            ScanError { line: 2, message: ScanMessage::UnexpectedCharacter('#') },
        ]
    );
    assert_eq!(result.errors[1].report(), "[line 2] Error: Unexpected character: #");
    assert_eq!(result.tokens.len(), 2);
    assert_eq!(result.exit_code(), 65);
}

#[test]
fn lines_are_counted() {
    let result = tokenize(&"a\nb\n\nc // x\nd".chars().collect());
    let lines: Vec<u32> = result.tokens.iter().map(|t| t.line).collect();
    assert_eq!(lines, vec![1, 2, 4, 5, 5]);
}

#[test]
fn comment_runs_to_the_end_of_the_line() {
    assert_eq!(
        kinds("1 // 2 3\n4"),
        vec![TokenType::NUMBER, TokenType::NUMBER, TokenType::EOF]
    );
    assert_eq!(kinds("// only"), vec![TokenType::EOF]);
}

#[test]
fn blanks_and_tabs_are_skipped() {
    assert_eq!(kinds(" \t 1 \t "), vec![TokenType::NUMBER, TokenType::EOF]);
}

#[test]
fn consume_until_next_line_stops_behind_the_line_feed() {
    let mut chars = characters("abc\ndef");
    consume_until_next_line(&mut chars);
    assert_eq!(chars.position, 4);
    consume_until_next_line(&mut chars);
    assert_eq!(chars.position, 7);
    consume_until_next_line(&mut chars);
    assert_eq!(chars.position, 7);
}

#[test]
fn consume_until_next_double_quote_takes_the_literal() {
    let mut chars = characters("abc\" rest");
    assert_eq!(consume_until_next_double_quote(&mut chars), Ok("abc".to_string()));
    assert_eq!(chars.position, 4);
    let mut open = characters("abc");
    assert_eq!(
        consume_until_next_double_quote(&mut open),
        Err(ScanMessage::UnterminatedString)
    );
    assert_eq!(open.position, 3);
    let mut empty = characters("\"");
    assert_eq!(consume_until_next_double_quote(&mut empty), Ok(String::new()));
}

#[test]
fn get_number_takes_digits_and_one_point() {
    let mut chars = characters("12.5.7x");
    assert_eq!(get_number(&mut chars), "12.5");
    assert_eq!(chars.position, 4);
    let mut none = characters("x1");
    assert_eq!(get_number(&mut none), "");
    assert_eq!(none.position, 0);
    let mut whole = characters("42");
    assert_eq!(get_number(&mut whole), "42");
    assert_eq!(whole.position, 2);
}

#[test]
fn get_identifier_takes_letters_digits_and_underscores() {
    let mut chars = characters("ab_1-c");
    assert_eq!(get_identifier(&mut chars), "ab_1");
    assert_eq!(chars.position, 4);
    let mut none = characters("-a");
    assert_eq!(get_identifier(&mut none), "");
    assert_eq!(none.position, 0);
}

#[test]
fn get_if_reserved_keyword_looks_at_the_whole_identifier() {
    let chars = characters("while (x)");
    let token: Token = get_if_reserved_keyword(&chars, 7).unwrap();
    assert_eq!(token.token_type, TokenType::WHILE);
    assert_eq!(token.token_value, "while");
    assert_eq!(token.line, 7);
    assert_eq!(chars.position, 0);
    assert!(get_if_reserved_keyword(&characters("whiles"), 1).is_none());
    assert!(get_if_reserved_keyword(&characters("printer"), 1).is_none());
    assert!(get_if_reserved_keyword(&characters("returned"), 1).is_none());
    assert!(get_if_reserved_keyword(&characters("return_"), 1).is_none());
    assert!(get_if_reserved_keyword(&characters("return1"), 1).is_none());
    assert!(get_if_reserved_keyword(&characters("x"), 1).is_none());
    assert!(get_if_reserved_keyword(&characters(""), 1).is_none());
    assert_eq!(
        get_if_reserved_keyword(&characters("return;"), 1).unwrap().token_type,
        TokenType::RETURN
    );
}

#[test]
fn next_token_reads_one_token() {
    let mut chars = characters("<= 1");
    let (token, error, line) = next_token(&mut chars, 3);
    let token = token.unwrap();
    assert_eq!(token.token_type, TokenType::LESS_EQUAL);
    assert_eq!(token.token_value, "<=");
    assert_eq!(token.line, 3);
    assert!(error.is_none());
    assert_eq!(line, 3);
    assert_eq!(chars.position, 2);
    let (token, error, line) = next_token(&mut chars, 3);
    assert!(token.is_none());
    assert!(error.is_none());
    assert_eq!(line, 3);
    assert_eq!(chars.position, 3);
}

#[test]
fn characters_are_peeked_and_taken() {
    let mut chars = characters("ab");
    assert_eq!(chars.peek(), Some('a'));
    assert_eq!(chars.peek_next(), Some('b'));
    assert_eq!(chars.next(), Some('a'));
    assert_eq!(chars.peek_next(), None);
    assert_eq!(chars.next(), Some('b'));
    assert_eq!(chars.next(), None);
    assert_eq!(chars.peek(), None);
    assert_eq!(chars.position, 2);
}

#[test]
fn tokens_are_listed() {
    let line = |kind: TokenType, text: &str, number: &str| Token::new(kind, text, 1).line(number);
    assert_eq!(line(TokenType::LEFT_PAREN, "(", ""), "LEFT_PAREN ( null");
    assert_eq!(line(TokenType::BANG_EQUAL, "!=", ""), "BANG_EQUAL != null");
    assert_eq!(line(TokenType::IDENTIFIER, "foo", ""), "IDENTIFIER foo null");
    assert_eq!(line(TokenType::WHILE, "while", ""), "WHILE while null");
    assert_eq!(line(TokenType::STRING, "hi there", ""), "STRING \"hi there\" hi there");
    assert_eq!(line(TokenType::NUMBER, "42", "42.0"), "NUMBER 42 42.0");
    assert_eq!(line(TokenType::NUMBER, "1.25", "1.25"), "NUMBER 1.25 1.25");
    assert_eq!(line(TokenType::EOF, "EOF", ""), "EOF  null");
    assert_eq!(TokenType::GREATER_EQUAL.name(), "GREATER_EQUAL");
    assert_eq!(TokenType::NIL.name(), "NIL");
}

#[test]
fn no_identifier_is_spelled_this() {
    assert_eq!(kinds("this"), vec![TokenType::THIS, TokenType::EOF]);
    assert_eq!(
        kinds("this.x = this;"),
        vec![
            TokenType::THIS,
            TokenType::DOT,
            TokenType::IDENTIFIER,
            TokenType::EQUAL,
            TokenType::THIS,
            TokenType::SEMICOLON,
            TokenType::EOF,
        ]
    );
    assert_eq!(kinds("this_"), vec![TokenType::IDENTIFIER, TokenType::EOF]);
    assert_eq!(texts("this_"), vec!["this_", "EOF"]);
    assert_eq!(kinds("thisx"), vec![TokenType::IDENTIFIER, TokenType::EOF]);
    assert_eq!(kinds("_this"), vec![TokenType::IDENTIFIER, TokenType::EOF]);
    assert_eq!(texts("_this"), vec!["_this", "EOF"]);
    let source = "var this = 1; this = 2; fun this() {} class this {} this1 this_ thi s";
    for token in tokenize(&source.chars().collect()).tokens {
        if token.token_type == TokenType::IDENTIFIER {
            assert_ne!(token.token_value, "this");
        }
    }
}

#[test]
fn lines_are_counted_by_line_feeds_and_by_comments() {
    let lines = |text: &str| -> Vec<u32> {
        tokenize(&text.chars().collect()).tokens.iter().map(|t| t.line).collect()
    };
    assert_eq!(lines("a\nb\n\nc"), vec![1, 2, 4, 4]);
    assert_eq!(lines("a // x\nb"), vec![1, 2, 2]);
    assert_eq!(lines("a // x"), vec![1, 2]);
    assert_eq!(lines("\"x\ny\" a\nb"), vec![1, 1, 2, 2]);
    assert_eq!(lines(""), vec![1]);
}

#[test]
fn a_text_of_any_length_with_few_lines_has_countable_lines() {
    assert!(has_countable_lines(&Vec::new()));
    assert!(has_countable_lines(&"a\nb\nc".chars().collect()));
    let long: Vec<char> = std::iter::repeat('a').take(100_000).collect();
    assert!(has_countable_lines(&long));
    let tokens = tokenize(&long).tokens;
    assert_eq!(tokens.len(), 2);
    assert_eq!(tokens[0].token_value.len(), 100_000);
    let many: Vec<char> = std::iter::repeat('\n').take(50_000).collect();
    assert!(has_countable_lines(&many));
    assert_eq!(tokenize(&many).tokens[0].line, 50_001);
}
