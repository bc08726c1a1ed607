use rulox::scanner::{Scanner, Token, TokenType};

fn scan_all(source: &str) -> Vec<(TokenType, String, usize)> {
    let mut scanner = Scanner::new(source);
    let mut tokens = Vec::new();
    loop {
        let token = scanner.scan_token();
        let done = token.token_type == TokenType::EOF;
        tokens.push((token.token_type, token.lexeme.to_string(), token.line));
        if done {
            return tokens;
        }
    }
}

#[test]
fn var_declaration_with_comment() {
    let tokens = scan_all("var x = 12.5; // comment\n");
    let expected = vec![
        (TokenType::Var, "var".to_string(), 1),
        (TokenType::Identifier, "x".to_string(), 1),
        (TokenType::Equal, "=".to_string(), 1),
        (TokenType::Number, "12.5".to_string(), 1),
        (TokenType::Semicolon, ";".to_string(), 1),
        (TokenType::EOF, "\0".to_string(), 2),
    ];
    assert_eq!(tokens, expected);
}

#[test]
fn unterminated_string_yields_one_error_token() {
    let mut scanner = Scanner::new("\"abc");
    let token = scanner.scan_token();
    assert_eq!(token.token_type, TokenType::Error);
    assert_eq!(token.lexeme, "Unterminated string.");
    assert_eq!(token.line, 1);
    let next = scanner.scan_token();
    assert_eq!(next.token_type, TokenType::EOF);
}

#[test]
fn eof_token_repeats_forever() {
    let mut scanner = Scanner::new("  ");
    for _ in 0..5 {
        let token = scanner.scan_token();
        assert_eq!(token.token_type, TokenType::EOF);
        assert_eq!(token.lexeme, "\0");
        assert_eq!(token.line, 1);
    }
}

#[test]
fn single_character_tokens() {
    let tokens = scan_all("(){};,.-+/*");
    let kinds: Vec<TokenType> = tokens.iter().map(|t| t.0).collect();
    assert_eq!(
        kinds,
        vec![
            TokenType::LeftParen,
            TokenType::RightParen,
            TokenType::LeftBrace,
            TokenType::RightBrace,
            TokenType::Semicolon,
            TokenType::Comma,
            TokenType::Dot,
            TokenType::Minus,
            TokenType::Plus,
            TokenType::Slash,
            TokenType::Star,
            TokenType::EOF,
        ]
    );
}

#[test]
fn one_and_two_character_operators() {
    let tokens = scan_all("! != = == < <= > >= =!");
    let kinds: Vec<TokenType> = tokens.iter().map(|t| t.0).collect();
    assert_eq!(
        kinds,
        vec![
            TokenType::Bang,
            TokenType::BangEqual,
            TokenType::Equal,
            TokenType::EqualEqual,
            TokenType::Less,
            TokenType::LessEqual,
            TokenType::Greater,
            TokenType::GreaterEqual,
            TokenType::Equal,
            TokenType::Bang,
            TokenType::EOF,
        ]
    );
    assert_eq!(tokens[1].1, "!=");
    assert_eq!(tokens[3].1, "==");
}

#[test]
fn all_reserved_words_match_exactly() {
    let source = "and class else false for fun if nil or print return super this true var while";
    let tokens = scan_all(source);
    let kinds: Vec<TokenType> = tokens.iter().map(|t| t.0).collect();
    assert_eq!(
        kinds,
        vec![
            TokenType::And,
            TokenType::Class,
            TokenType::Else,
            TokenType::False,
            TokenType::For,
            TokenType::Fun,
            TokenType::If,
            TokenType::Nil,
            TokenType::Or,
            TokenType::Print,
            TokenType::Return,
            TokenType::Super,
            TokenType::This,
            TokenType::True,
            TokenType::Var,
            TokenType::While,
            TokenType::EOF,
        ]
    );
}

#[test]
fn near_keywords_are_plain_identifiers() {
    let tokens = scan_all("andy ands fals falsehood classes _var va r2d2 True");
    for (kind, lexeme, _) in &tokens[..tokens.len() - 1] {
        assert_eq!(*kind, TokenType::Identifier, "lexeme {:?}", lexeme);
    }
    assert_eq!(tokens[0].1, "andy");
    assert_eq!(tokens[6].1, "va");
    assert_eq!(tokens[7].1, "r2d2");
}

#[test]
fn numbers_with_and_without_fraction() {
    let tokens = scan_all("123 12.5 7. 0.5.");
    assert_eq!(tokens[0], (TokenType::Number, "123".to_string(), 1));
    assert_eq!(tokens[1], (TokenType::Number, "12.5".to_string(), 1));
    // A trailing dot is not part of the number.
    assert_eq!(tokens[2], (TokenType::Number, "7".to_string(), 1));
    assert_eq!(tokens[3], (TokenType::Dot, ".".to_string(), 1));
    assert_eq!(tokens[4], (TokenType::Number, "0.5".to_string(), 1));
    assert_eq!(tokens[5], (TokenType::Dot, ".".to_string(), 1));
}

#[test]
fn string_literal_carries_its_span_and_start_line() {
    let mut scanner = Scanner::new("\"ab\ncd\" x");
    let token = scanner.scan_token();
    assert_eq!(token.token_type, TokenType::String);
    assert_eq!(token.lexeme, "\"ab\ncd\"");
    // The token starts on line 1; the newline inside still counts.
    assert_eq!(token.line, 1);
    let after = scanner.scan_token();
    assert_eq!(after.token_type, TokenType::Identifier);
    assert_eq!(after.lexeme, "x");
    assert_eq!(after.line, 2);
}

#[test]
fn comments_and_whitespace_produce_no_tokens() {
    let tokens = scan_all("// first\n\t \r// second\nprint// third");
    assert_eq!(tokens[0], (TokenType::Print, "print".to_string(), 3));
    assert_eq!(tokens[1].0, TokenType::EOF);
    assert_eq!(tokens[1].2, 3);
}

#[test]
fn a_single_slash_is_a_token() {
    let tokens = scan_all("a / b");
    assert_eq!(tokens[1].0, TokenType::Slash);
}

#[test]
fn unexpected_character_yields_error_token_and_scanning_goes_on() {
    let tokens = scan_all("@ var");
    assert_eq!(
        tokens[0],
        (TokenType::Error, "Unexpected character.".to_string(), 1)
    );
    assert_eq!(tokens[1].0, TokenType::Var);
    assert_eq!(tokens[2].0, TokenType::EOF);
}

#[test]
fn newlines_count_lines_everywhere() {
    let tokens = scan_all("a\nb\n\nc");
    assert_eq!(tokens[0].2, 1);
    assert_eq!(tokens[1].2, 2);
    assert_eq!(tokens[2].2, 4);
    assert_eq!(tokens[3].2, 4);
}

#[test]
fn tokens_borrow_the_source() {
    let source = String::from("var answer = 42;");
    let mut scanner = Scanner::new(&source);
    let token: Token = scanner.scan_token();
    // The lexeme points into the original buffer.
    let start = token.lexeme.as_ptr() as usize;
    let base = source.as_ptr() as usize;
    assert!(start >= base && start < base + source.len());
}
