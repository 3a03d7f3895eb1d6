use rlox::scanner::{scan, LexError, Scanner};
use rlox::token::{Literal, Token, TokenType};

fn kinds(source: &str) -> Vec<TokenType> {
    scan(source).unwrap().iter().map(|token| token.tok_type).collect()
}

fn number_of(token: &Token) -> f64 {
    match &token.literal {
        Literal::Number(bits) => f64::from_bits(*bits),
        other => panic!("{:?}", other),
    }
}

#[test]
fn empty_text_scans_to_the_end_marker() {
    let tokens = scan("").unwrap();
    assert_eq!(tokens.len(), 1);
    assert_eq!(tokens[0].tok_type, TokenType::Eof);
    assert_eq!(tokens[0].lexme, "");
    assert_eq!(tokens[0].line, 1);
    assert!(matches!(tokens[0].literal, Literal::Nil));
}

#[test]
fn single_character_tokens() {
    assert_eq!(
        kinds("(){},.-+;*%/"),
        vec![
            TokenType::LeftParen,
            TokenType::RightParen,
            TokenType::LeftBrace,
            TokenType::RightBrace,
            TokenType::Comma,
            TokenType::Dot,
            TokenType::Minus,
            TokenType::Plus,
            TokenType::SemiColon,
            TokenType::Star,
            TokenType::Modulo,
            TokenType::Slash,
            TokenType::Eof,
        ]
    );
}

#[test]
fn two_character_operators_and_their_fallbacks() {
    assert_eq!(
        kinds("! != = == < <= > >="),
        vec![
            TokenType::Bang,
            TokenType::BangEqual,
            TokenType::Equal,
            TokenType::EqualEqual,
            TokenType::Less,
            TokenType::LessEqual,
            TokenType::Greater,
            TokenType::GreaterEqual,
            TokenType::Eof,
        ]
    );
    assert_eq!(
        kinds("===!"),
        vec![TokenType::EqualEqual, TokenType::Equal, TokenType::Bang, TokenType::Eof]
    );
    assert_eq!(kinds("<=="), vec![TokenType::LessEqual, TokenType::Equal, TokenType::Eof]);
    let tokens = scan("a>=b").unwrap();
    assert_eq!(tokens[1].lexme, ">=");
}

#[test]
fn comments_run_to_the_end_of_the_line() {
    assert_eq!(kinds("// nothing"), vec![TokenType::Eof]);
    assert_eq!(kinds("1 // one\n2"), vec![TokenType::Number, TokenType::Number, TokenType::Eof]);
    let tokens = scan("// a\n// b\nx").unwrap();
    assert_eq!(tokens[0].lexme, "x");
    assert_eq!(tokens[0].line, 3);
    assert_eq!(kinds("1 / 2"), vec![
        TokenType::Number,
        TokenType::Slash,
        TokenType::Number,
        TokenType::Eof
    ]);
    assert_eq!(kinds("//\" open"), vec![TokenType::Eof]);
}

#[test]
fn blanks_are_skipped_and_newlines_counted() {
    let tokens = scan(" \t\r\n a \n\n b").unwrap();
    assert_eq!(tokens.len(), 3);
    assert_eq!(tokens[0].line, 2);
    assert_eq!(tokens[1].line, 4);
    assert_eq!(tokens[2].tok_type, TokenType::Eof);
    assert_eq!(tokens[2].line, 4);
}

#[test]
fn end_marker_carries_the_last_line() {
    let tokens = scan("a\n\n\n").unwrap();
    assert_eq!(tokens.last().unwrap().line, 4);
    assert_eq!(tokens.last().unwrap().lexme, "");
}

#[test]
fn string_literal_excludes_its_quotes() {
    let tokens = scan("\"hello world\"").unwrap();
    assert_eq!(tokens.len(), 2);
    assert_eq!(tokens[0].tok_type, TokenType::String);
    assert_eq!(tokens[0].lexme, "\"hello world\"");
    match &tokens[0].literal {
        Literal::String(text) => assert_eq!(text, "hello world"),
        other => panic!("{:?}", other),
    }
    let tokens = scan("\"\"").unwrap();
    match &tokens[0].literal {
        Literal::String(text) => assert_eq!(text, ""),
        other => panic!("{:?}", other),
    }
}

#[test]
fn string_literal_may_span_lines() {
    let tokens = scan("\"a\nb\nc\" x").unwrap();
    assert_eq!(tokens[0].line, 3);
    assert_eq!(tokens[1].line, 3);
    match &tokens[0].literal {
        Literal::String(text) => assert_eq!(text, "a\nb\nc"),
        other => panic!("{:?}", other),
    }
}

#[test]
fn string_literal_may_hold_any_character() {
    let tokens = scan("\"h\u{e9}llo // \u{4e16}\u{754c} @#\"").unwrap();
    match &tokens[0].literal {
        Literal::String(text) => assert_eq!(text, "h\u{e9}llo // \u{4e16}\u{754c} @#"),
        other => panic!("{:?}", other),
    }
    assert_eq!(tokens[1].tok_type, TokenType::Eof);
}

#[test]
fn unterminated_string_reports_the_line_where_the_text_ends() {
    assert_eq!(scan("\"open").unwrap_err(), LexError::UnterminatedString { line: 1 });
    assert_eq!(scan("x\n\"open\n\nmore").unwrap_err(), LexError::UnterminatedString { line: 4 });
    assert_eq!(scan("\"").unwrap_err(), LexError::UnterminatedString { line: 1 });
}

#[test]
fn unexpected_character_reports_its_line() {
    assert_eq!(scan("@").unwrap_err(), LexError::UnexpectedCharacter { found: '@', line: 1 });
    assert_eq!(
        scan("a\nb #").unwrap_err(),
        LexError::UnexpectedCharacter { found: '#', line: 2 }
    );
    assert_eq!(
        scan("\u{e9}").unwrap_err(),
        LexError::UnexpectedCharacter { found: '\u{e9}', line: 1 }
    );
    assert_eq!(scan("\0").unwrap_err(), LexError::UnexpectedCharacter { found: '\0', line: 1 });
}

#[test]
fn first_error_wins() {
    assert_eq!(scan("@ \"open").unwrap_err(), LexError::UnexpectedCharacter { found: '@', line: 1 });
    assert_eq!(scan("\"open @").unwrap_err(), LexError::UnterminatedString { line: 1 });
}

#[test]
fn scanner_keeps_the_tokens_before_an_error() {
    let mut scanner = Scanner::new(String::from("a b @ c"));
    assert_eq!(scanner.scan_tokens(), Err(LexError::UnexpectedCharacter { found: '@', line: 1 }));
    assert_eq!(scanner.tokens.len(), 2);
    assert_eq!(scanner.tokens[1].lexme, "b");
}

#[test]
fn scanner_appends_to_its_tokens() {
    let mut scanner = Scanner::new(String::from("var x = 1;"));
    assert_eq!(scanner.source, "var x = 1;");
    assert!(scanner.tokens.is_empty());
    assert_eq!(scanner.scan_tokens(), Ok(()));
    assert_eq!(scanner.tokens.len(), 6);
    assert_eq!(scanner.scan_tokens(), Ok(()));
    assert_eq!(scanner.tokens.len(), 7);
    assert_eq!(scanner.tokens[6].tok_type, TokenType::Eof);
}

#[test]
fn numbers_with_and_without_fraction() {
    let tokens = scan("123 12.5 0.25 007").unwrap();
    assert_eq!(tokens.len(), 5);
    assert_eq!(number_of(&tokens[0]), 123.0);
    assert_eq!(number_of(&tokens[1]), 12.5);
    assert_eq!(number_of(&tokens[2]), 0.25);
    assert_eq!(number_of(&tokens[3]), 7.0);
    assert_eq!(tokens[1].lexme, "12.5");
    assert_eq!(tokens[3].lexme, "007");
}

#[test]
fn a_point_needs_a_digit_on_both_sides() {
    assert_eq!(kinds("1."), vec![TokenType::Number, TokenType::Dot, TokenType::Eof]);
    assert_eq!(kinds(".5"), vec![TokenType::Dot, TokenType::Number, TokenType::Eof]);
    assert_eq!(
        kinds("1.2.3"),
        vec![TokenType::Number, TokenType::Dot, TokenType::Number, TokenType::Eof]
    );
    let tokens = scan("1.2.3").unwrap();
    assert_eq!(number_of(&tokens[0]), 1.2);
    assert_eq!(number_of(&tokens[2]), 3.0);
    assert_eq!(kinds("1.a"), vec![
        TokenType::Number,
        TokenType::Dot,
        TokenType::Identifier,
        TokenType::Eof
    ]);
}

#[test]
fn no_exponent_in_numbers() {
    assert_eq!(kinds("1e5"), vec![TokenType::Number, TokenType::Identifier, TokenType::Eof]);
    let tokens = scan("1e5").unwrap();
    assert_eq!(number_of(&tokens[0]), 1.0);
    assert_eq!(tokens[1].lexme, "e5");
}

#[test]
fn number_literals_agree_with_direct_parsing() {
    let literals = [
        "0",
        "1",
        "42",
        "3.14",
        "0.1",
        "0.30000000000000004",
        "123456789012345678901234567890",
        "9007199254740993",
        "9007199254740992.5",
        "0.000000000000000000000000000000000000000000001",
        "179769313486231570000000000000000000000000000000000000000000000000000000000000000000000000000000000000000000000000000000000000000000000000000000000000000000000000000000000000000000000000000000000000000000000000000000000000000000000000000000000000000000000000000000000000000000000000000000000000000000000000000000000000",
        "1797693134862315800000000000000000000000000000000000000000000000000000000000000000000000000000000000000000000000000000000000000000000000000000000000000000000000000000000000000000000000000000000000000000000000000000000000000000000000000000000000000000000000000000000000000000000000000000000000000000000000000000000000000",
        "2.2250738585072014",
        "4.35",
        "0.000000000000000000000000000000000000000000000000000000000000000000000000000000000000000000000000000000000000000000000000000000000000000000000000000000000000000000000000000000000000000000000000000000000000000000000000000000000000000000000000000000000000000000000000000000000000000000000000000000000000000000000000000000000000000049",
        "00012.50000",
        "1.0000000000000002220446049250313",
        "8.5",
        "2.5",
        "0.5",
    ];
    for literal in literals {
        let tokens = scan(literal).unwrap();
        assert_eq!(tokens.len(), 2, "{}", literal);
        assert_eq!(tokens[0].tok_type, TokenType::Number);
        assert_eq!(tokens[0].lexme, literal);
        let direct: f64 = literal.parse().unwrap();
        match &tokens[0].literal {
            Literal::Number(bits) => assert_eq!(*bits, direct.to_bits(), "{}", literal),
            other => panic!("{:?}", other),
        }
    }
}

#[test]
fn keywords_are_told_from_identifiers() {
    assert_eq!(
        kinds("and class else false for fun if nil or print return super this true var while"),
        vec![
            TokenType::And,
            TokenType::Class,
            TokenType::Else,
            TokenType::False,
            TokenType::For,
            TokenType::Fun,
            TokenType::If,
            TokenType::Nil,
            TokenType::Or,
            TokenType::Print,
            TokenType::Return,
            TokenType::Super,
            TokenType::This,
            TokenType::True,
            TokenType::Var,
            TokenType::While,
            TokenType::Eof,
        ]
    );
    assert_eq!(
        kinds("orchid And _ _a1 variable whil whiles f"),
        vec![
            TokenType::Identifier,
            TokenType::Identifier,
            TokenType::Identifier,
            TokenType::Identifier,
            TokenType::Identifier,
            TokenType::Identifier,
            TokenType::Identifier,
            TokenType::Identifier,
            TokenType::Eof,
        ]
    );
}

#[test]
fn identifiers_carry_their_text_and_no_payload() {
    let tokens = scan("abc_9 x").unwrap();
    assert_eq!(tokens[0].lexme, "abc_9");
    assert!(matches!(tokens[0].literal, Literal::Nil));
    assert_eq!(tokens[1].lexme, "x");
}

#[test]
fn a_statement_scans_in_order() {
    let tokens = scan("var x = \"a\" + 1.5; // done").unwrap();
    let lexemes: Vec<&str> = tokens.iter().map(|token| token.lexme.as_str()).collect();
    assert_eq!(lexemes, vec!["var", "x", "=", "\"a\"", "+", "1.5", ";", ""]);
}

#[test]
fn token_new_keeps_its_parts() {
    let token = Token::new(TokenType::Plus, String::from("+"), Literal::Nil, 7);
    assert_eq!(token.tok_type, TokenType::Plus);
    assert_eq!(token.lexme, "+");
    assert_eq!(token.line, 7);
    let copy = token.clone();
    assert_eq!(copy.lexme, "+");
    assert_eq!(copy.line, 7);
}

#[test]
fn category_names() {
    assert_eq!(TokenType::LeftParen.name(), "LeftParen");
    assert_eq!(TokenType::SemiColon.name(), "SemiColon");
    assert_eq!(TokenType::Modulo.name(), "Modulo");
    assert_eq!(TokenType::Eof.name(), "Eof");
    assert_eq!(format!("{:?}", TokenType::BangEqual), TokenType::BangEqual.name());
    assert_eq!(format!("{:?}", TokenType::While), TokenType::While.name());
}

#[test]
fn scanner_stops_after_an_unexpected_character() {
    let mut scanner = Scanner::new(String::from("a\n@ b"));
    assert_eq!(scanner.scan_tokens(), Err(LexError::UnexpectedCharacter { found: '@', line: 2 }));
    assert_eq!(scanner.current, 3);
    assert_eq!(scanner.start, 3);
    assert_eq!(scanner.line, 2);
    assert_eq!(scanner.scan_tokens(), Ok(()));
    let lexemes: Vec<&str> = scanner.tokens.iter().map(|token| token.lexme.as_str()).collect();
    assert_eq!(lexemes, vec!["a", "b", ""]);
}

#[test]
fn scanner_stops_at_the_end_after_an_open_string() {
    let mut scanner = Scanner::new(String::from("a \"b\nc"));
    assert_eq!(scanner.scan_tokens(), Err(LexError::UnterminatedString { line: 2 }));
    assert_eq!(scanner.current, 6);
    assert_eq!(scanner.start, 6);
    assert_eq!(scanner.line, 2);
    assert_eq!(scanner.tokens.len(), 1);
}

#[test]
fn scanner_stands_at_the_end_after_a_scan() {
    let mut scanner = Scanner::new(String::from("a\nb\n"));
    assert_eq!(scanner.scan_tokens(), Ok(()));
    assert_eq!(scanner.current, 4);
    assert_eq!(scanner.start, 4);
    assert_eq!(scanner.line, 3);
    assert_eq!(scanner.chars, vec!['a', '\n', 'b', '\n']);
}

#[test]
fn many_number_literals_agree_with_direct_parsing() {
    let mut state: u64 = 0x2545_f491_4f6c_dd1d;
    for _ in 0..3000 {
        state ^= state << 13;
        state ^= state >> 7;
        state ^= state << 17;
        let whole_digits = 1 + (state % 25) as usize;
        let fraction_digits = ((state >> 8) % 25) as usize;
        let mut literal = String::new();
        let mut digits = state;
        for _ in 0..whole_digits {
            digits = digits.wrapping_mul(6364136223846793005).wrapping_add(1442695040888963407);
            literal.push((b'0' + ((digits >> 33) % 10) as u8) as char);
        }
        if fraction_digits > 0 {
            literal.push('.');
            for _ in 0..fraction_digits {
                digits = digits.wrapping_mul(6364136223846793005).wrapping_add(1442695040888963407);
                literal.push((b'0' + ((digits >> 33) % 10) as u8) as char);
            }
        }
        let tokens = scan(&literal).unwrap();
        assert_eq!(tokens.len(), 2, "{}", literal);
        let direct: f64 = literal.parse().unwrap();
        match &tokens[0].literal {
            Literal::Number(bits) => assert_eq!(*bits, direct.to_bits(), "{}", literal),
            other => panic!("{:?}", other),
        }
    }
}
