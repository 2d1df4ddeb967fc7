use css_lens::error::{Expected, ParseError, UnsupportedKind};
use css_lens::generator::ASTGenerator;
use css_lens::get_css_info;
use css_lens::token::TokenType;

#[test]
fn generator_test_generate() {
    let source_text = r#"
            .container, div > span {
                display: flex;
                justify-content: center;
                align-items: center;
                font-size: 16px;
                width: 100%;
            }
        "#;
    let generator = ASTGenerator::new(source_text.to_string());
    let ast = generator.generate().unwrap();
    println!("{}", ast);
}

#[test]
fn printed_tree_names_what_it_holds() {
    let source = ".a { color: red; }";
    let text = ASTGenerator::new(source.to_string()).generate().unwrap();
    assert_ne!(text, source);
    assert!(text.starts_with("StyleSheet {\n    rules: [\n        StyleRule(\n"));
    assert!(text.contains("selector_text: \".a\","));
    assert!(text.contains("class_name: \".a\","));
    assert!(text.contains("property: \"color\","));
    assert!(text.contains("css_text: \"color: red;\","));
    assert!(text.contains("Ident(\n"));
    assert!(text.ends_with("}"));
}

#[test]
fn printed_tree_of_nothing() {
    let text = ASTGenerator::new(String::new()).generate().unwrap();
    assert_eq!(text, "StyleSheet {\n    rules: [],\n}");
}

#[test]
fn printing_fails_where_parsing_fails() {
    let result = ASTGenerator::new("@media x {}".to_string()).generate();
    assert_eq!(
        result,
        Err(ParseError::UnsupportedConstruct {
            kind: UnsupportedKind::MediaRule,
            line: 1,
        })
    );
}

#[test]
fn end_to_end_example() {
    let hir = get_css_info(
        ".container, div > span { display: flex; justify-content: center; align-items: center; font-size: 16px; width: 100%; }",
    )
    .unwrap();
    assert_eq!(hir.rules.len(), 1);
    let rule = &hir.rules[0];
    assert_eq!(rule.selector, ".container div span");
    let pairs: Vec<String> = rule
        .declarations
        .iter()
        .map(|d| format!("{}:{}", d.property, d.value))
        .collect();
    assert_eq!(
        pairs,
        vec![
            "display:flex",
            "justify-content:center",
            "align-items:center",
            "font-size:16px",
            "width:100%",
        ]
    );
}

#[test]
fn selector_grouping_reaches_the_selector_string() {
    let hir = get_css_info(".a, .b { color: red; }").unwrap();
    assert_eq!(hir.rules.len(), 1);
    assert!(!hir.rules[0].selector.is_empty());
    assert!(hir.rules[0].selector.contains(".a"));
    assert!(hir.rules[0].selector.contains(".b"));
    assert_eq!(hir.rules[0].selector, ".a .b");
}

#[test]
fn failure_on_malformed_declaration() {
    assert_eq!(
        get_css_info(".a { color red; }"),
        Err(ParseError::UnexpectedToken {
            expected: Expected::Category(TokenType::Colon),
            found: TokenType::Ident,
            line: 1,
        })
    );
}

#[test]
fn failure_names_the_line() {
    assert_eq!(
        get_css_info(".a {\n  color: red;\n  /* a\n comment */ width 3px;\n}"),
        Err(ParseError::UnexpectedToken {
            expected: Expected::Category(TokenType::Colon),
            found: TokenType::Dimension,
            line: 4,
        })
    );
}

#[test]
fn failure_at_end_of_input() {
    assert_eq!(
        get_css_info(".a { color: red;"),
        Err(ParseError::UnexpectedEndOfInput)
    );
    assert_eq!(get_css_info(".a"), Err(ParseError::UnexpectedEndOfInput));
}

#[test]
fn unsupported_constructs() {
    assert_eq!(
        get_css_info("@media screen { }"),
        Err(ParseError::UnsupportedConstruct {
            kind: UnsupportedKind::MediaRule,
            line: 1,
        })
    );
    assert_eq!(
        get_css_info("a { b: \"c\"; }"),
        Err(ParseError::UnsupportedConstruct {
            kind: UnsupportedKind::StringValue,
            line: 1,
        })
    );
    assert_eq!(
        get_css_info("a { b: #c; }"),
        Err(ParseError::UnsupportedConstruct {
            kind: UnsupportedKind::ColorValue,
            line: 1,
        })
    );
}

#[test]
fn same_text_same_result() {
    let source = "a > b { c: 1; } .d, #e { f: 2%; g: h; }";
    assert_eq!(get_css_info(source), get_css_info(source));
    let broken = "a > b { c: 1; } .d, #e { f 2%; }";
    assert_eq!(get_css_info(broken), get_css_info(broken));
}

#[test]
fn empty_text() {
    let hir = get_css_info("").unwrap();
    assert!(hir.rules.is_empty());
}

#[test]
fn skipped_bytes_do_not_reach_the_parser() {
    let hir = get_css_info("a $ { b ! : é 1 ; }").unwrap();
    assert_eq!(hir.rules.len(), 1);
    assert_eq!(hir.rules[0].selector, "a");
    assert_eq!(hir.rules[0].declarations[0].property, "b");
    assert_eq!(hir.rules[0].declarations[0].value, "1");
}
