use css_lens::error::UnrecognizedCharacter;
use css_lens::lexer::Lexer;
use css_lens::token::{Token, TokenType};

fn lex(source: &str) -> Vec<Token> {
    let mut lexer = Lexer::new(source.to_string());
    lexer.build();
    lexer.tokens()
}

fn kinds(tokens: &[Token]) -> Vec<TokenType> {
    tokens.iter().map(|t| t.token_type).collect()
}

fn lexemes(tokens: &[Token]) -> Vec<String> {
    tokens.iter().map(|t| t.lexeme.clone()).collect()
}

fn lines(tokens: &[Token]) -> Vec<usize> {
    tokens.iter().map(|t| t.line).collect()
}

#[test]
fn lexer_test_lexer() {
    // Arrange
    let source = r#"
            .container {
                display: flex;
                justify-content: center;
                align-items: center;
                font-size: 16px;
            }
        "#;
    let mut lexer = Lexer::new(source.to_string());
    lexer.build();
    let tokens = lexer.tokens();

    // Act: get the last token
    let last_token = tokens.last().cloned().unwrap().token_type;
    // Assert: the last token should be Eof
    assert_eq!(last_token, TokenType::Eof);

    // Act: get the first class selector token
    let class_selector = tokens
        .iter()
        .find(|t| t.token_type == TokenType::ClassSelector)
        .unwrap();
    // Assert: the first class selector token should be .container
    assert_eq!(class_selector.lexeme, ".container");

    // Act: get all ident tokens
    let idents: Vec<Token> = tokens
        .iter()
        .filter_map(|t| {
            if t.token_type == TokenType::Ident {
                Some(t.clone())
            } else {
                None
            }
        })
        .collect();
    // Assert: there should be 7 ident tokens
    // 16px is considered as Dimension token
    assert_eq!(idents.len(), 7);
}

#[test]
fn complex_css() {
    let source = r#"
            .container {
                    display: flex;
                    justify-content: center;
                    align-items: center;
                    font-size: 16px;
            }

            @media screen and (max-width: 600px) {
                .container {
                    font-size: 14px;
                }
            }
        "#
    .to_string();
    let mut lexer = Lexer::new(source.to_string());
    lexer.build();
    let tokens = lexer.tokens();
    println!("{:#?}", tokens);
    assert_eq!(tokens.last().unwrap().token_type, TokenType::Eof);
    let at_keywords: Vec<&Token> = tokens
        .iter()
        .filter(|t| t.token_type == TokenType::Atkeyword)
        .collect();
    assert_eq!(at_keywords.len(), 1);
    assert_eq!(at_keywords[0].lexeme, "@media");
    assert_eq!(at_keywords[0].line, 9);
    let dimensions: Vec<String> = tokens
        .iter()
        .filter(|t| t.token_type == TokenType::Dimension)
        .map(|t| t.lexeme.clone())
        .collect();
    assert_eq!(dimensions, vec!["16px", "600px", "14px"]);
}

#[test]
fn dimension_is_one_token() {
    let tokens = lex("16px");
    assert_eq!(kinds(&tokens), vec![TokenType::Dimension, TokenType::Eof]);
    assert_eq!(lexemes(&tokens), vec!["16px", ""]);
}

#[test]
fn percentage_is_one_token() {
    let tokens = lex("100%");
    assert_eq!(kinds(&tokens), vec![TokenType::Percentage, TokenType::Eof]);
    assert_eq!(lexemes(&tokens), vec!["100%", ""]);
}

#[test]
fn plain_number() {
    let tokens = lex("42;");
    assert_eq!(
        kinds(&tokens),
        vec![TokenType::Number, TokenType::Semicolon, TokenType::Eof]
    );
    assert_eq!(lexemes(&tokens), vec!["42", ";", ""]);
}

#[test]
fn empty_source_is_only_end_of_input() {
    let tokens = lex("");
    assert_eq!(tokens.len(), 1);
    assert_eq!(tokens[0].token_type, TokenType::Eof);
    assert_eq!(tokens[0].lexeme, "");
    assert_eq!(tokens[0].line, 1);
}

#[test]
fn exactly_one_end_of_input_token() {
    let tokens = lex(".a { color: red; } /* x */ #b > p + q ~ r [x] (y) \"s\" @t 1 2% 3em");
    let count = tokens
        .iter()
        .filter(|t| t.token_type == TokenType::Eof)
        .count();
    assert_eq!(count, 1);
    assert_eq!(tokens.last().unwrap().token_type, TokenType::Eof);
    assert!(tokens
        .iter()
        .all(|t| t.token_type != TokenType::S && t.token_type != TokenType::Comment));
}

#[test]
fn every_category() {
    let tokens = lex(".a #b c @d \"e f\" 1% 2px 3 : ; { } ( ) [ ] , > + ~");
    assert_eq!(
        kinds(&tokens),
        vec![
            TokenType::ClassSelector,
            TokenType::IdSelector,
            TokenType::Ident,
            TokenType::Atkeyword,
            TokenType::String,
            TokenType::Percentage,
            TokenType::Dimension,
            TokenType::Number,
            TokenType::Colon,
            TokenType::Semicolon,
            TokenType::CurlyLeft,
            TokenType::CurlyRight,
            TokenType::ParenLeft,
            TokenType::ParenRight,
            TokenType::BracketLeft,
            TokenType::BracketRight,
            TokenType::Comma,
            TokenType::Greater,
            TokenType::Plus,
            TokenType::Tilde,
            TokenType::Eof,
        ]
    );
    assert_eq!(
        lexemes(&tokens),
        vec![
            ".a", "#b", "c", "@d", "\"e f\"", "1%", "2px", "3", ":", ";", "{", "}", "(", ")", "[",
            "]", ",", ">", "+", "~", ""
        ]
    );
}

#[test]
fn identifier_bytes() {
    let tokens = lex("_a-b_9 -x");
    // A hyphen cannot begin an identifier: it is skipped.
    assert_eq!(
        kinds(&tokens),
        vec![TokenType::Ident, TokenType::Ident, TokenType::Eof]
    );
    assert_eq!(lexemes(&tokens), vec!["_a-b_9", "x", ""]);
}

#[test]
fn whitespace_counts_lines() {
    let tokens = lex("a\n\nb \r\n\tc\u{c}d");
    assert_eq!(lexemes(&tokens), vec!["a", "b", "c", "d", ""]);
    assert_eq!(lines(&tokens), vec![1, 3, 4, 4, 4]);
}

#[test]
fn trailing_newlines_reach_the_end_token() {
    let tokens = lex("a\n\n\n");
    assert_eq!(lines(&tokens), vec![1, 4]);
}

#[test]
fn comments_are_elided_and_count_lines() {
    let tokens = lex("a /* one\ntwo\n*/ b /**/ c /* * / ** */d");
    assert_eq!(
        kinds(&tokens),
        vec![
            TokenType::Ident,
            TokenType::Ident,
            TokenType::Ident,
            TokenType::Ident,
            TokenType::Eof
        ]
    );
    assert_eq!(lexemes(&tokens), vec!["a", "b", "c", "d", ""]);
    assert_eq!(lines(&tokens), vec![1, 3, 3, 3, 3]);
}

#[test]
fn comment_needs_its_own_star() {
    // In "/*/" the star belongs to the opening: no comment is closed.
    let tokens = lex("/*/ a");
    assert_eq!(kinds(&tokens), vec![TokenType::Ident, TokenType::Eof]);
    assert_eq!(lexemes(&tokens), vec!["a", ""]);
}

#[test]
fn unterminated_comment_is_skipped_byte_by_byte() {
    let tokens = lex("/* a b");
    assert_eq!(
        kinds(&tokens),
        vec![TokenType::Ident, TokenType::Ident, TokenType::Eof]
    );
}

#[test]
fn string_runs_to_the_next_quote() {
    let tokens = lex("\"a\\\" b\"");
    // No escape sequences: the string ends at the second quote.
    assert_eq!(
        kinds(&tokens),
        vec![TokenType::String, TokenType::Ident, TokenType::Eof]
    );
    assert_eq!(lexemes(&tokens), vec!["\"a\\\"", "b", ""]);
}

#[test]
fn string_keeps_newlines_without_counting_them() {
    let tokens = lex("\"a\nb\" c");
    assert_eq!(lexemes(&tokens), vec!["\"a\nb\"", "c", ""]);
    assert_eq!(lines(&tokens), vec![1, 1, 1]);
}

#[test]
fn unterminated_string_is_skipped() {
    let tokens = lex("\"abc");
    assert_eq!(kinds(&tokens), vec![TokenType::Ident, TokenType::Eof]);
    assert_eq!(lexemes(&tokens), vec!["abc", ""]);
}

#[test]
fn unrecognized_bytes_are_skipped() {
    let tokens = lex("a $ ! b ^ & * = | \\ ' ? < . # @ c");
    assert_eq!(
        kinds(&tokens),
        vec![
            TokenType::Ident,
            TokenType::Ident,
            TokenType::Ident,
            TokenType::Eof
        ]
    );
    assert_eq!(lexemes(&tokens), vec!["a", "b", "c", ""]);
}

#[test]
fn text_outside_ascii() {
    let tokens = lex("é a \"日本語\" /* ü */ b€c");
    assert_eq!(
        kinds(&tokens),
        vec![
            TokenType::Ident,
            TokenType::String,
            TokenType::Ident,
            TokenType::Ident,
            TokenType::Eof
        ]
    );
    assert_eq!(lexemes(&tokens), vec!["a", "\"日本語\"", "b", "c", ""]);
}

#[test]
fn colon_is_always_a_colon() {
    let tokens = lex("a:hover::before");
    assert_eq!(
        kinds(&tokens),
        vec![
            TokenType::Ident,
            TokenType::Colon,
            TokenType::Ident,
            TokenType::Colon,
            TokenType::Colon,
            TokenType::Ident,
            TokenType::Eof
        ]
    );
}

#[test]
fn digits_then_hyphen() {
    // A hyphen does not begin an identifier, so "1-a" is a number, a
    // skipped byte and an identifier.
    let tokens = lex("1-a 2_b 3%4");
    assert_eq!(
        kinds(&tokens),
        vec![
            TokenType::Number,
            TokenType::Ident,
            TokenType::Dimension,
            TokenType::Percentage,
            TokenType::Number,
            TokenType::Eof
        ]
    );
    assert_eq!(lexemes(&tokens), vec!["1", "a", "2_b", "3%", "4", ""]);
}

#[test]
fn building_twice_adds_one_more_end_token() {
    let mut lexer = Lexer::new("a".to_string());
    lexer.build();
    lexer.build();
    let tokens = lexer.tokens();
    assert_eq!(
        kinds(&tokens),
        vec![TokenType::Ident, TokenType::Eof, TokenType::Eof]
    );
}

#[test]
fn tokens_before_building() {
    let lexer = Lexer::new("a b".to_string());
    assert!(lexer.tokens().is_empty());
}

#[test]
fn token_new_and_parse() {
    let mut token = Token::new(TokenType::Ident, "color".to_string(), 3);
    assert_eq!(token.token_type, TokenType::Ident);
    assert_eq!(token.lexeme, "color");
    assert_eq!(token.line, 3);
    token.parse();
    assert_eq!(token.token_type, TokenType::Ident);
    assert_eq!(token.lexeme, "color");
    assert_eq!(token.line, 3);
    let copy = token.clone();
    assert_eq!(copy.token_type, TokenType::Ident);
    assert_eq!(copy.lexeme, "color");
    assert_eq!(copy.line, 3);
}

#[test]
fn skipped_bytes_are_recorded() {
    let mut lexer = Lexer::new("a $\n/* \n */ é. b\n\"".to_string());
    assert!(lexer.unrecognized().is_empty());
    lexer.build();
    assert_eq!(
        lexer.unrecognized(),
        vec![
            UnrecognizedCharacter { line: 1, offset: 2 },
            UnrecognizedCharacter { line: 3, offset: 12 },
            UnrecognizedCharacter { line: 3, offset: 13 },
            UnrecognizedCharacter { line: 3, offset: 14 },
            UnrecognizedCharacter { line: 4, offset: 18 },
        ]
    );
    let tokens = lexer.tokens();
    assert_eq!(lexemes(&tokens), vec!["a", "b", ""]);
    assert_eq!(lines(&tokens), vec![1, 3, 4]);
}

#[test]
fn nothing_is_recorded_for_clean_text() {
    let mut lexer = Lexer::new(".a, b > c { d: 1px; } /* e */\n".to_string());
    lexer.build();
    assert!(lexer.unrecognized().is_empty());
}
