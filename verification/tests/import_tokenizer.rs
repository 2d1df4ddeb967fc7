use css_lens::import::parser::{
    DefaultImportSpecifier, ImportDeclaration, ImportSpecifier, NamedImportSpecifier,
};
use css_lens::import::tokenizer::{Lexer, Token, TokenType};

fn walk(source: &str) -> Vec<Token> {
    let mut lexer = Lexer::new(source.to_string());
    lexer.walk();
    lexer.tokens()
}

fn kinds(tokens: &[Token]) -> Vec<TokenType> {
    tokens.iter().map(|t| t.token_type).collect()
}

fn lexemes(tokens: &[Token]) -> Vec<String> {
    tokens.iter().map(|t| t.lexeme.clone()).collect()
}

#[test]
fn tokenizer_test_lexer() {
    let source = "import { foo, bar } from 'baz';".to_string();
    let mut lexer = Lexer::new(source);
    lexer.walk();
    let expected = vec![
        Token {
            token_type: TokenType::Import,
            lexeme: "import".to_string(),
        },
        Token {
            token_type: TokenType::Whitespace,
            lexeme: " ".to_string(),
        },
        Token {
            token_type: TokenType::LeftCurly,
            lexeme: "{".to_string(),
        },
        Token {
            token_type: TokenType::Whitespace,
            lexeme: " ".to_string(),
        },
        Token {
            token_type: TokenType::Ident,
            lexeme: "foo".to_string(),
        },
        Token {
            token_type: TokenType::Comma,
            lexeme: ",".to_string(),
        },
        Token {
            token_type: TokenType::Whitespace,
            lexeme: " ".to_string(),
        },
        Token {
            token_type: TokenType::Ident,
            lexeme: "bar".to_string(),
        },
        Token {
            token_type: TokenType::Whitespace,
            lexeme: " ".to_string(),
        },
        Token {
            token_type: TokenType::RightCurly,
            lexeme: "}".to_string(),
        },
        Token {
            token_type: TokenType::Whitespace,
            lexeme: " ".to_string(),
        },
        Token {
            token_type: TokenType::From,
            lexeme: "from".to_string(),
        },
        Token {
            token_type: TokenType::Whitespace,
            lexeme: " ".to_string(),
        },
        Token {
            token_type: TokenType::StringLiteral,
            lexeme: "'baz'".to_string(),
        },
        Token {
            token_type: TokenType::SemiColon,
            lexeme: ";".to_string(),
        },
        Token {
            token_type: TokenType::Eof,
            lexeme: "".to_string(),
        },
    ];
    let tokens = lexer.tokens();
    assert_eq!(tokens.len(), expected.len());
    for (actual, expected) in tokens.iter().zip(expected.iter()) {
        assert_eq!(actual.token_type, expected.token_type);
    }
}

#[test]
fn import_lexemes() {
    let tokens = walk("import { foo, bar } from 'baz';");
    assert_eq!(
        lexemes(&tokens),
        vec![
            "import", " ", "{", " ", "foo", ",", " ", "bar", " ", "}", " ", "from", " ", "baz",
            ";", ""
        ]
    );
}

#[test]
fn import_empty_source() {
    let tokens = walk("");
    assert_eq!(kinds(&tokens), vec![TokenType::Eof]);
    assert_eq!(lexemes(&tokens), vec![""]);
}

#[test]
fn import_every_blank_is_a_token() {
    let tokens = walk(" \t\r\n");
    assert_eq!(
        kinds(&tokens),
        vec![
            TokenType::Whitespace,
            TokenType::Whitespace,
            TokenType::Whitespace,
            TokenType::Whitespace,
            TokenType::Eof
        ]
    );
    assert_eq!(lexemes(&tokens), vec![" ", "\t", "\r", "\n", ""]);
}

#[test]
fn import_words() {
    let tokens = walk("imports From from_ a1_b import");
    assert_eq!(
        kinds(&tokens),
        vec![
            TokenType::Ident,
            TokenType::Whitespace,
            TokenType::Ident,
            TokenType::Whitespace,
            TokenType::Ident,
            TokenType::Whitespace,
            TokenType::Ident,
            TokenType::Whitespace,
            TokenType::Import,
            TokenType::Eof
        ]
    );
    assert_eq!(
        lexemes(&tokens),
        vec!["imports", " ", "From", " ", "from_", " ", "a1_b", " ", "import", ""]
    );
}

#[test]
fn import_literals() {
    let tokens = walk("\"a 'b' 1\"'c \"d\"'");
    assert_eq!(
        kinds(&tokens),
        vec![
            TokenType::StringLiteral,
            TokenType::StringLiteral,
            TokenType::Eof
        ]
    );
    assert_eq!(lexemes(&tokens), vec!["a 'b' 1", "c \"d\"", ""]);
    let tokens = walk("''");
    assert_eq!(lexemes(&tokens), vec!["", ""]);
}

#[test]
fn import_unterminated_literal_runs_to_the_end() {
    let tokens = walk("from 'abc; 12");
    assert_eq!(
        kinds(&tokens),
        vec![
            TokenType::From,
            TokenType::Whitespace,
            TokenType::StringLiteral,
            TokenType::Eof
        ]
    );
    assert_eq!(lexemes(&tokens), vec!["from", " ", "abc; 12", ""]);
}

#[test]
fn import_walking_twice_adds_one_more_end_token() {
    let mut lexer = Lexer::new("a".to_string());
    lexer.walk();
    lexer.walk();
    assert_eq!(
        kinds(&lexer.tokens()),
        vec![TokenType::Ident, TokenType::Eof, TokenType::Eof]
    );
}

#[test]
fn import_declaration_shape() {
    let declaration = ImportDeclaration {
        source: "baz".to_string(),
        specifiers: vec![
            ImportSpecifier::Default(DefaultImportSpecifier {
                local: "foo".to_string(),
            }),
            ImportSpecifier::Named("bar".to_string()),
        ],
    };
    assert_eq!(declaration.source, "baz");
    assert_eq!(declaration.specifiers.len(), 2);
    let named = NamedImportSpecifier {
        local: "b".to_string(),
        imported: "a".to_string(),
    };
    assert_eq!(named.local, "b");
    assert_eq!(named.imported, "a");
}

#[test]
fn import_can_walk() {
    assert!(Lexer::new("import { foo, bar } from 'baz';".to_string()).can_walk());
    assert!(Lexer::new(String::new()).can_walk());
    assert!(Lexer::new("a1 'b 2 $' \"unterminated 3 %".to_string()).can_walk());
    // A digit, an underscore or another sign begins no token.
    assert!(!Lexer::new("import 1".to_string()).can_walk());
    assert!(!Lexer::new("_a".to_string()).can_walk());
    assert!(!Lexer::new("a = b".to_string()).can_walk());
    assert!(!Lexer::new("a; 'b' (".to_string()).can_walk());
    // The text must be ASCII, inside literals too.
    assert!(!Lexer::new("é".to_string()).can_walk());
    assert!(!Lexer::new("from 'é'".to_string()).can_walk());
    let mut lexer = Lexer::new("from 'x'".to_string());
    assert!(lexer.can_walk());
    lexer.walk();
    assert!(lexer.can_walk());
}
