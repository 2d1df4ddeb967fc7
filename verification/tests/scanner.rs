use css_lens::lexical::ByteClass;
use css_lens::scanner::{
    count_newlines, first_match_in, ident_start, match_at, match_byte, match_comment,
    match_dimension, match_ident, match_number, match_percentage, match_prefixed_ident,
    match_space, match_string, priority_table, scan_for, scan_for_comment_close, scan_run,
};
use css_lens::text::substring;
use css_lens::token::TokenType;

#[test]
fn byte_classes() {
    for b in 0..=255u8 {
        let c = b as char;
        let letter = c.is_ascii_alphabetic();
        let digit = c.is_ascii_digit();
        assert_eq!(ident_start(b), letter || c == '_');
        assert_eq!(
            ByteClass::IdentPart.contains(b),
            letter || digit || c == '-' || c == '_'
        );
        assert_eq!(ByteClass::Digit.contains(b), digit);
        assert_eq!(
            ByteClass::Space.contains(b),
            c == ' ' || c == '\t' || c == '\r' || c == '\n' || c == '\u{c}'
        );
    }
}

#[test]
fn runs() {
    let bytes = "abc-1_ 42  \n x".as_bytes();
    assert_eq!(scan_run(bytes, 0, ByteClass::IdentPart), 6);
    assert_eq!(scan_run(bytes, 3, ByteClass::IdentPart), 6);
    assert_eq!(scan_run(bytes, 6, ByteClass::IdentPart), 6);
    assert_eq!(scan_run(bytes, 7, ByteClass::Digit), 9);
    assert_eq!(scan_run(bytes, 9, ByteClass::Space), 13);
    assert_eq!(scan_run(bytes, 13, ByteClass::IdentPart), 14);
    assert_eq!(scan_run(bytes, 14, ByteClass::IdentPart), 14);
    assert_eq!(scan_run(bytes, 99, ByteClass::IdentPart), 99);
}

#[test]
fn searches() {
    let bytes = "a\"b\"c".as_bytes();
    assert_eq!(scan_for(bytes, 0, b'"'), Some(1));
    assert_eq!(scan_for(bytes, 1, b'"'), Some(1));
    assert_eq!(scan_for(bytes, 2, b'"'), Some(3));
    assert_eq!(scan_for(bytes, 4, b'"'), None);
    assert_eq!(scan_for(bytes, 9, b'"'), None);
    let bytes = "* / */ **/ *".as_bytes();
    assert_eq!(scan_for_comment_close(bytes, 0), Some(4));
    assert_eq!(scan_for_comment_close(bytes, 5), Some(8));
    assert_eq!(scan_for_comment_close(bytes, 9), None);
    assert_eq!(scan_for_comment_close(bytes, 99), None);
    assert_eq!(scan_for_comment_close("*".as_bytes(), 0), None);
    assert_eq!(scan_for_comment_close("".as_bytes(), 0), None);
}

#[test]
fn single_categories() {
    let bytes = ".ab #cd ef @gh \"ij\" 12% 34px 56 ; /* k */".as_bytes();
    assert_eq!(match_prefixed_ident(bytes, 0, b'.'), Some(3));
    assert_eq!(match_prefixed_ident(bytes, 0, b'#'), None);
    assert_eq!(match_prefixed_ident(bytes, 4, b'#'), Some(7));
    assert_eq!(match_ident(bytes, 8), Some(10));
    assert_eq!(match_ident(bytes, 0), None);
    assert_eq!(match_prefixed_ident(bytes, 11, b'@'), Some(14));
    assert_eq!(match_string(bytes, 15), Some(19));
    assert_eq!(match_string(bytes, 18), None);
    assert_eq!(match_percentage(bytes, 20), Some(23));
    assert_eq!(match_number(bytes, 20), Some(22));
    assert_eq!(match_dimension(bytes, 20), None);
    assert_eq!(match_dimension(bytes, 24), Some(28));
    assert_eq!(match_percentage(bytes, 24), None);
    assert_eq!(match_number(bytes, 29), Some(31));
    assert_eq!(match_byte(bytes, 32, b';'), Some(33));
    assert_eq!(match_byte(bytes, 32, b':'), None);
    assert_eq!(match_space(bytes, 31), Some(32));
    assert_eq!(match_space(bytes, 32), None);
    assert_eq!(match_comment(bytes, 34), Some(41));
    assert_eq!(match_comment(bytes, 35), None);
    assert_eq!(match_comment(bytes, bytes.len() - 1), None);
    assert_eq!(match_at(TokenType::Comment, bytes, 34), Some(41));
    assert_eq!(match_at(TokenType::Eof, bytes, bytes.len()), None);
}

#[test]
fn the_priority_table() {
    let table = priority_table();
    assert_eq!(
        table,
        vec![
            TokenType::ClassSelector,
            TokenType::IdSelector,
            TokenType::Ident,
            TokenType::Atkeyword,
            TokenType::String,
            TokenType::Percentage,
            TokenType::Dimension,
            TokenType::Number,
            TokenType::Colon,
            TokenType::Semicolon,
            TokenType::CurlyLeft,
            TokenType::CurlyRight,
            TokenType::ParenLeft,
            TokenType::ParenRight,
            TokenType::BracketLeft,
            TokenType::BracketRight,
            TokenType::Comma,
            TokenType::Greater,
            TokenType::Plus,
            TokenType::Tilde,
            TokenType::S,
            TokenType::Comment,
        ]
    );
    let bytes = "16px 100% 7 $".as_bytes();
    assert_eq!(
        first_match_in(&table, bytes, 0),
        Some((TokenType::Dimension, 4))
    );
    assert_eq!(first_match_in(&table, bytes, 4), Some((TokenType::S, 5)));
    assert_eq!(
        first_match_in(&table, bytes, 5),
        Some((TokenType::Percentage, 9))
    );
    assert_eq!(
        first_match_in(&table, bytes, 10),
        Some((TokenType::Number, 11))
    );
    assert_eq!(first_match_in(&table, bytes, 12), None);
    assert_eq!(first_match_in(&table, bytes, 13), None);
}

#[test]
fn the_order_of_the_table_decides() {
    // With number before dimension, "16px" would begin with a number.
    let number_first = vec![TokenType::Number, TokenType::Dimension];
    assert_eq!(
        first_match_in(&number_first, "16px".as_bytes(), 0),
        Some((TokenType::Number, 2))
    );
    let empty: Vec<TokenType> = Vec::new();
    assert_eq!(first_match_in(&empty, "16px".as_bytes(), 0), None);
}

#[test]
fn newline_counts() {
    let bytes = "\na\n\nb\r\n".as_bytes();
    assert_eq!(count_newlines(bytes, 0, bytes.len()), 4);
    assert_eq!(count_newlines(bytes, 1, 3), 1);
    assert_eq!(count_newlines(bytes, 2, 2), 0);
    assert_eq!(count_newlines(bytes, 3, 2), 0);
    assert_eq!(count_newlines(bytes, 0, bytes.len() + 1), 0);
}

#[test]
fn substrings() {
    let source = "a \"日本語\" b";
    assert_eq!(substring(source, 0, 1), "a");
    assert_eq!(substring(source, 2, 13), "\"日本語\"");
    assert_eq!(substring(source, 0, source.len()), source);
}
