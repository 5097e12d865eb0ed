use loxrust::scanner::{ScanError, ScanErrorKind, Scanner};
use loxrust::token::TokenType::{
    And, Bang, BangEqual, Class, Comma, Dot, Else, Eof, Equal, EqualEqual, False, For, Fun,
    Greater, GreaterEqual, If, LeftBrace, LeftParen, Less, LessEqual, Minus, Nil, Or, Plus, Print,
    Return, RightBrace, RightParen, Semicolon, Slash, Star, Super, This, True, Var, While,
};
use loxrust::token::{Literal, Number, Token, TokenType};

// Scans `source` and fails the test on any reported error.
fn scan_clean(source: &str) -> Vec<Token> {
    let mut scanner = Scanner::new(source);
    let (had_error, tokens) = scanner.scan_tokens();
    if let Some(e) = scanner.errors().first() {
        panic!("error: '{}:{}'", e.line, e.message());
    }
    assert!(!had_error);
    tokens
}

fn kinds(tokens: &[Token]) -> Vec<TokenType> {
    tokens.iter().map(|t| t.token_type).collect()
}

#[test]
fn test_scan_tokens_appends_eof() {
    let source = "";
    let tokens = scan_clean(source);
    let mut token_types = tokens.iter().map(|t| t.token_type);
    assert_eq!(token_types.next(), Some(TokenType::Eof));
    assert_eq!(token_types.next(), None);
}

#[test]
fn test_scan_simple_tokens() {
    let source = "( ) { } , . - + ; / * ! != = == > >= < <=";
    let tokens = scan_clean(source);
    let mut tokens = tokens.iter();

    fn make_token(token_type: TokenType, lexeme: &str) -> Token {
        let lexeme = lexeme.to_owned();
        Token {
            token_type,
            lexeme,
            line: 1,
            literal: None,
        }
    }

    // One char tokens.
    assert_eq!(tokens.next(), Some(&make_token(LeftParen, "(")));
    assert_eq!(tokens.next(), Some(&make_token(RightParen, ")")));
    assert_eq!(tokens.next(), Some(&make_token(LeftBrace, "{")));
    assert_eq!(tokens.next(), Some(&make_token(RightBrace, "}")));
    assert_eq!(tokens.next(), Some(&make_token(Comma, ",")));
    assert_eq!(tokens.next(), Some(&make_token(Dot, ".")));
    assert_eq!(tokens.next(), Some(&make_token(Minus, "-")));
    assert_eq!(tokens.next(), Some(&make_token(Plus, "+")));
    assert_eq!(tokens.next(), Some(&make_token(Semicolon, ";")));
    assert_eq!(tokens.next(), Some(&make_token(Slash, "/")));
    assert_eq!(tokens.next(), Some(&make_token(Star, "*")));
    // One or two char tokens.
    assert_eq!(tokens.next(), Some(&make_token(Bang, "!")));
    assert_eq!(tokens.next(), Some(&make_token(BangEqual, "!=")));
    assert_eq!(tokens.next(), Some(&make_token(Equal, "=")));
    assert_eq!(tokens.next(), Some(&make_token(EqualEqual, "==")));
    assert_eq!(tokens.next(), Some(&make_token(Greater, ">")));
    assert_eq!(tokens.next(), Some(&make_token(GreaterEqual, ">=")));
    assert_eq!(tokens.next(), Some(&make_token(Less, "<")));
    assert_eq!(tokens.next(), Some(&make_token(LessEqual, "<=")));

    assert_eq!(tokens.next(), Some(&make_token(Eof, "")));
}

#[test]
fn test_scan_identifer() {
    let source = " abc _def gHiJ kl_mn a1 0a ";
    let tokens = scan_clean(source);
    let mut tokens = tokens.iter();

    fn make_identifer_token(identifier: &str) -> Token {
        let lexeme = identifier.to_owned();
        Token {
            token_type: TokenType::Identifier,
            lexeme,
            line: 1,
            literal: None,
        }
    }

    assert_eq!(tokens.next(), Some(&make_identifer_token("abc")));
    assert_eq!(tokens.next(), Some(&make_identifer_token("_def")));
    assert_eq!(tokens.next(), Some(&make_identifer_token("gHiJ")));
    assert_eq!(tokens.next(), Some(&make_identifer_token("kl_mn")));
    assert_eq!(tokens.next(), Some(&make_identifer_token("a1")));
    assert_eq!(tokens.next().map(|t| t.token_type), Some(TokenType::Number));
    assert_eq!(tokens.next(), Some(&make_identifer_token("a")));
    assert_eq!(tokens.next().map(|t| t.token_type), Some(TokenType::Eof));
}

#[test]
fn test_scan_keyword() {
    let source = " for IF force ";
    let tokens = scan_clean(source);
    let mut token_types = tokens.iter().map(|t| t.token_type);

    assert_eq!(token_types.next(), Some(TokenType::For));
    assert_eq!(token_types.next(), Some(TokenType::Identifier));
    assert_eq!(token_types.next(), Some(TokenType::Identifier));
    assert_eq!(token_types.next(), Some(TokenType::Eof));
}

#[test]
fn test_scan_string() {
    let source = " \"ab\" \"c\nd\" \"ef\" ";
    let tokens = scan_clean(source);
    let mut tokens = tokens.iter();

    fn make_string_token(s: &str, line: u64) -> Token {
        let lexeme = format!(r#""{}""#, s); // Add quotes.
        let literal = Some(Literal::String(s.to_owned()));
        Token {
            token_type: TokenType::String,
            lexeme,
            line,
            literal,
        }
    }

    assert_eq!(tokens.next(), Some(&make_string_token("ab", 1)));
    assert_eq!(tokens.next(), Some(&make_string_token("c\nd", 2)));
    assert_eq!(tokens.next(), Some(&make_string_token("ef", 2)));
    assert_eq!(tokens.next().map(|t| t.token_type), Some(TokenType::Eof));
}

#[test]
fn test_scan_number() {
    let source = " 111 111.222 -333 444. ";
    let tokens = scan_clean(source);
    let mut tokens = tokens.iter();

    fn make_number_token(n: f64) -> Token {
        let lexeme = format!("{}", n);
        let literal = Some(Literal::Number(Number::parse(&lexeme).unwrap()));
        Token {
            token_type: TokenType::Number,
            lexeme,
            line: 1,
            literal,
        }
    }

    assert_eq!(tokens.next(), Some(&make_number_token(111.0)));
    assert_eq!(tokens.next(), Some(&make_number_token(111.222)));
    assert_eq!(tokens.next().map(|t| t.token_type), Some(TokenType::Minus));
    assert_eq!(tokens.next(), Some(&make_number_token(333.0)));
    assert_eq!(tokens.next(), Some(&make_number_token(444.0)));
    assert_eq!(tokens.next().map(|t| t.token_type), Some(TokenType::Dot));
    assert_eq!(tokens.next().map(|t| t.token_type), Some(TokenType::Eof));
}

#[test]
fn test_had_error_ok_scan() {
    let source = "";
    let mut scanner = Scanner::new(source);
    let (had_error, _) = scanner.scan_tokens();
    assert_eq!(had_error, false);
}

#[test]
fn test_had_error_failed_scan() {
    let source = "~"; // Unexpected token '~'.
    let mut scanner = Scanner::new(source);
    let (had_error, _) = scanner.scan_tokens();
    assert_eq!(had_error, true);
}

#[test]
fn unexpected_character_is_reported_on_its_line() {
    let mut scanner = Scanner::new("\n~");
    let (had_error, tokens) = scanner.scan_tokens();
    assert!(had_error);
    let errors = scanner.errors();
    assert_eq!(errors.len(), 1);
    assert_eq!(
        errors[0],
        ScanError { line: 2, kind: ScanErrorKind::UnexpectedCharacter(b'~') }
    );
    assert_eq!(format!("{}:{}", errors[0].line, errors[0].message()), "2:Unexpected character '~'.");
    assert_eq!(kinds(&tokens), vec![TokenType::Eof]);
    assert_eq!(tokens[0].line, 2);
}

#[test]
fn unterminated_string_is_reported_at_end_of_input_line() {
    let mut scanner = Scanner::new("\n\"\n");
    let (had_error, tokens) = scanner.scan_tokens();
    assert!(had_error);
    let errors = scanner.errors();
    assert_eq!(errors.len(), 1);
    assert_eq!(format!("{}:{}", errors[0].line, errors[0].message()), "3:Unterminated string.");
    assert_eq!(kinds(&tokens), vec![TokenType::Eof]);
}

#[test]
fn single_character_tokens_in_source_order() {
    let tokens = scan_clean("(){},.-+;/*");
    assert_eq!(
        kinds(&tokens),
        vec![
            LeftParen, RightParen, LeftBrace, RightBrace, Comma, Dot, Minus, Plus, Semicolon,
            Slash, Star, Eof
        ]
    );
    let lexemes: Vec<&str> = tokens.iter().map(|t| t.lexeme.as_str()).collect();
    assert_eq!(lexemes, vec!["(", ")", "{", "}", ",", ".", "-", "+", ";", "/", "*", ""]);
}

#[test]
fn two_character_operator_wins() {
    let tokens = scan_clean("!=");
    assert_eq!(kinds(&tokens), vec![TokenType::BangEqual, TokenType::Eof]);
    assert_eq!(tokens[0].lexeme, "!=");
    let tokens = scan_clean("!");
    assert_eq!(kinds(&tokens), vec![TokenType::Bang, TokenType::Eof]);
    assert_eq!(tokens[0].lexeme, "!");
    let tokens = scan_clean("<==>");
    assert_eq!(
        kinds(&tokens),
        vec![TokenType::LessEqual, TokenType::Equal, TokenType::Greater, TokenType::Eof]
    );
}

#[test]
fn string_takes_line_of_closing_quote() {
    let tokens = scan_clean("\"c\nd\" x");
    assert_eq!(kinds(&tokens), vec![TokenType::String, TokenType::Identifier, TokenType::Eof]);
    assert_eq!(tokens[0].line, 2);
    assert_eq!(tokens[0].lexeme, "\"c\nd\"");
    assert_eq!(tokens[0].literal, Some(Literal::String("c\nd".to_owned())));
    assert_eq!(tokens[1].line, 2);
    assert_eq!(tokens[2].line, 2);
}

#[test]
fn trailing_dot_is_not_part_of_number() {
    let tokens = scan_clean("444.");
    assert_eq!(kinds(&tokens), vec![TokenType::Number, TokenType::Dot, TokenType::Eof]);
    assert_eq!(tokens[0].lexeme, "444");
    assert_eq!(tokens[1].lexeme, ".");
}

#[test]
fn keywords_match_exactly() {
    assert_eq!(kinds(&scan_clean("for")), vec![TokenType::For, TokenType::Eof]);
    assert_eq!(kinds(&scan_clean("IF")), vec![TokenType::Identifier, TokenType::Eof]);
    assert_eq!(kinds(&scan_clean("force")), vec![TokenType::Identifier, TokenType::Eof]);
    assert_eq!(
        kinds(&scan_clean(
            "and class else false fun for if nil or print return super this true var while"
        )),
        vec![
            And, Class, Else, False, Fun, For, If, Nil, Or, Print, Return, Super, This, True, Var,
            While, Eof
        ]
    );
}

#[test]
fn unterminated_string_at_end_of_input() {
    let mut scanner = Scanner::new("1 \"abc");
    let (had_error, tokens) = scanner.scan_tokens();
    assert!(had_error);
    assert_eq!(
        scanner.errors().to_vec(),
        vec![ScanError { line: 1, kind: ScanErrorKind::UnterminatedLiteral }]
    );
    assert_eq!(kinds(&tokens), vec![TokenType::Number, TokenType::Eof]);
    assert_eq!(tokens[1].lexeme, "");
}

#[test]
fn scanning_twice_gives_the_same_result() {
    let source = "var x = 1.50; // note\n\"s\" ~ !";
    let mut first = Scanner::new(source);
    let mut second = Scanner::new(source);
    let (e1, t1) = first.scan_tokens();
    let (e2, t2) = second.scan_tokens();
    assert_eq!(e1, e2);
    assert_eq!(t1, t2);
    assert_eq!(first.errors(), second.errors());
    // A second scan on the same scanner starts over.
    let (e3, t3) = first.scan_tokens();
    assert_eq!(e1, e3);
    assert_eq!(t1, t3);
    assert_eq!(first.errors(), second.errors());
}

#[test]
fn comment_runs_to_end_of_line() {
    let tokens = scan_clean("// a comment ( \n+ // another");
    assert_eq!(kinds(&tokens), vec![TokenType::Plus, TokenType::Eof]);
    assert_eq!(tokens[0].line, 2);
    assert_eq!(tokens[1].line, 2);
}

#[test]
fn number_literal_is_canonical() {
    let tokens = scan_clean("007.250");
    assert_eq!(tokens[0].lexeme, "007.250");
    assert_eq!(tokens[0].literal, Some(Literal::Number(Number::parse("7.25").unwrap())));
    match &tokens[0].literal {
        Some(Literal::Number(n)) => assert_eq!(n.text(), "7.25"),
        _ => panic!("not a number literal"),
    }
}

#[test]
fn non_ascii_character_reports_each_byte() {
    let mut scanner = Scanner::new("a\u{e9}b");
    let (had_error, tokens) = scanner.scan_tokens();
    assert!(had_error);
    assert_eq!(
        scanner.errors().to_vec(),
        vec![
            ScanError { line: 1, kind: ScanErrorKind::UnexpectedCharacter(0xC3) },
            ScanError { line: 1, kind: ScanErrorKind::UnexpectedCharacter(0xA9) },
        ]
    );
    assert_eq!(scanner.errors()[0].message(), "Unexpected character '\u{c3}'.");
    assert_eq!(kinds(&tokens), vec![TokenType::Identifier, TokenType::Identifier, TokenType::Eof]);
}

#[test]
fn string_literal_keeps_non_ascii_text() {
    let tokens = scan_clean("\"h\u{e9}llo \u{1F600}\"");
    assert_eq!(tokens[0].literal, Some(Literal::String("h\u{e9}llo \u{1F600}".to_owned())));
    assert_eq!(tokens[0].lexeme, "\"h\u{e9}llo \u{1F600}\"");
}

#[test]
fn errors_do_not_stop_the_scan() {
    let mut scanner = Scanner::new("@ 1 # \"x\"");
    let (had_error, tokens) = scanner.scan_tokens();
    assert!(had_error);
    assert_eq!(scanner.errors().len(), 2);
    assert_eq!(kinds(&tokens), vec![TokenType::Number, TokenType::String, TokenType::Eof]);
}

#[test]
fn whitespace_is_skipped() {
    let tokens = scan_clean(" \t\r\u{c}+\n\n-");
    assert_eq!(kinds(&tokens), vec![TokenType::Plus, TokenType::Minus, TokenType::Eof]);
    assert_eq!(tokens[1].line, 3);
    assert_eq!(tokens[2].line, 3);
}
