use css_lens::lexer::Lexer;
use css_lens::scanner::match_at;
use css_lens::token::TokenType;
use regex::Regex;

fn patterns() -> Vec<(TokenType, Regex)> {
    let table: Vec<(TokenType, &str)> = vec![
        (TokenType::ClassSelector, r"^\.[a-zA-Z_][a-zA-Z0-9_-]*"),
        (TokenType::IdSelector, r"^#[a-zA-Z_][a-zA-Z0-9_-]*"),
        (TokenType::Ident, r"^[a-zA-Z_][a-zA-Z0-9_-]*"),
        (TokenType::Atkeyword, r"^@[a-zA-Z_][a-zA-Z0-9_-]*"),
        (TokenType::String, r#"^"[^"]*""#),
        (TokenType::Percentage, r"^[0-9]+%"),
        (TokenType::Dimension, r"^[0-9]+[a-zA-Z_][a-zA-Z0-9_-]*"),
        (TokenType::Number, r"^[0-9]+"),
        (TokenType::Colon, r"^:"),
        (TokenType::Semicolon, r"^;"),
        (TokenType::CurlyLeft, r"^\{"),
        (TokenType::CurlyRight, r"^\}"),
        (TokenType::ParenLeft, r"^\("),
        (TokenType::ParenRight, r"^\)"),
        (TokenType::BracketLeft, r"^\["),
        (TokenType::BracketRight, r"^\]"),
        (TokenType::S, r"^[ \t\r\n\f]+"),
        (TokenType::Comment, r"^/\*[^*]*\*+([^/*][^*]*\*+)*/"),
        (TokenType::Comma, r"^,"),
        (TokenType::Plus, r"^\+"),
        (TokenType::Greater, r"^>"),
        (TokenType::Tilde, r"^~"),
    ];
    table
        .into_iter()
        .map(|(kind, pattern)| (kind, Regex::new(pattern).unwrap()))
        .collect()
}

fn samples() -> Vec<&'static str> {
    vec![
        "",
        ".container, div > span { display: flex; width: 100%; font-size: 16px; }",
        "\n  #main-1 ~ p + q_2 [x] (y) @media \"a b\" 12 12% 12px 12e3 1-2 _a -b --c\n",
        "/* a */ b /**/ c /*/ d /* * / ** */ e /* f",
        "/***/x/**//*a*b**/y/* ** * / */z",
        "\"unterminated",
        "\"\" \"a\nb\" \"\\\" c\"",
        "é a \"日本語\" /* ü */ b€c ñ.d #é @ü 1é 2%é",
        "a\u{c}b\tc\rd\r\ne",
        ". # @ % : :: ;;; {{}} ,, >> ++ ~~ ..a ##b @@c 1%% 1..2 .1 #1 @1",
        "0 00 0a 0_ 0- 9z9 123abc-def_ghi%",
        "A-Z a_z Z9 _ __ _- -_ a--b",
    ]
}

#[test]
fn every_category_agrees_with_its_pattern_at_every_position() {
    let patterns = patterns();
    for sample in samples() {
        for pos in 0..=sample.len() {
            if !sample.is_char_boundary(pos) {
                continue;
            }
            for (kind, regex) in &patterns {
                let expected = regex.find(&sample[pos..]).map(|m| pos + m.end());
                let actual = match_at(*kind, sample.as_bytes(), pos);
                assert_eq!(actual, expected, "{:?} at {} of {:?}", kind, pos, sample);
            }
        }
    }
}

#[test]
fn no_category_matches_inside_a_character() {
    let patterns = patterns();
    for sample in samples() {
        for pos in 0..=sample.len() {
            if sample.is_char_boundary(pos) {
                continue;
            }
            for (kind, _) in &patterns {
                assert_eq!(match_at(*kind, sample.as_bytes(), pos), None);
            }
        }
    }
}

#[test]
fn categories_without_a_pattern_match_nowhere() {
    for kind in [
        TokenType::BadString,
        TokenType::BadUri,
        TokenType::BadComment,
        TokenType::Hash,
        TokenType::Uri,
        TokenType::UnicodeRange,
        TokenType::Cdo,
        TokenType::Cdc,
        TokenType::Function,
        TokenType::Includes,
        TokenType::DashMatch,
        TokenType::Delim,
        TokenType::Eof,
        TokenType::PseudoClassSelector,
        TokenType::PseudoElementSelector,
    ] {
        for sample in samples() {
            for pos in 0..=sample.len() {
                assert_eq!(match_at(kind, sample.as_bytes(), pos), None);
            }
        }
    }
}

/// The token sequence read with the patterns: at each position the first
/// pattern that matches decides, whitespace and comments leave no token and
/// advance the line counter, and a character that matches nothing is
/// skipped.
fn tokens_by_patterns(source: &str) -> Vec<(TokenType, String, usize)> {
    let order = [
        TokenType::ClassSelector,
        TokenType::IdSelector,
        TokenType::Ident,
        TokenType::Atkeyword,
        TokenType::String,
        TokenType::Percentage,
        TokenType::Dimension,
        TokenType::Number,
        TokenType::Colon,
        TokenType::Semicolon,
        TokenType::CurlyLeft,
        TokenType::CurlyRight,
        TokenType::ParenLeft,
        TokenType::ParenRight,
        TokenType::BracketLeft,
        TokenType::BracketRight,
        TokenType::Comma,
        TokenType::Greater,
        TokenType::Plus,
        TokenType::Tilde,
        TokenType::S,
        TokenType::Comment,
    ];
    let patterns = patterns();
    let mut tokens = Vec::new();
    let mut pos = 0;
    let mut line = 1;
    while pos < source.len() {
        let rest = &source[pos..];
        let mut matched = None;
        for kind in order {
            let regex = &patterns.iter().find(|(k, _)| *k == kind).unwrap().1;
            if let Some(m) = regex.find(rest) {
                matched = Some((kind, m.end()));
                break;
            }
        }
        match matched {
            Some((kind, len)) => {
                let lexeme = &rest[..len];
                if kind == TokenType::S || kind == TokenType::Comment {
                    line += lexeme.matches('\n').count();
                } else {
                    tokens.push((kind, lexeme.to_string(), line));
                }
                pos += len;
            }
            None => {
                pos += rest.chars().next().unwrap().len_utf8();
            }
        }
    }
    tokens.push((TokenType::Eof, String::new(), line));
    tokens
}

#[test]
fn whole_texts_agree_with_the_patterns() {
    for sample in samples() {
        let mut lexer = Lexer::new(sample.to_string());
        lexer.build();
        let actual: Vec<(TokenType, String, usize)> = lexer
            .tokens()
            .into_iter()
            .map(|t| (t.token_type, t.lexeme, t.line))
            .collect();
        assert_eq!(actual, tokens_by_patterns(sample), "{:?}", sample);
    }
}
