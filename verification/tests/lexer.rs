use lib::lexer::{Lexer, Token, TokenKind};

fn lex(src: &str) -> Vec<Token> {
    Lexer::new(src).tokenize().expect("lexes")
}

fn kinds(src: &str) -> Vec<TokenKind> {
    lex(src).into_iter().map(|t| t.kind).collect()
}

fn lex_err(src: &str) -> (u32, u32, String) {
    match Lexer::new(src).tokenize() {
        Ok(_) => panic!("expected a lexical error"),
        Err(e) => (e.loc.line, e.loc.col, e.message),
    }
}

#[test]
fn empty_input_is_just_eof() {
    let toks = lex("");
    assert_eq!(toks.len(), 1);
    assert_eq!(toks[0].kind, TokenKind::Eof);
    assert_eq!((toks[0].line, toks[0].col), (1, 1));
}

#[test]
fn function_header_tokens() {
    assert_eq!(
        kinds("fn main() -> i32 { let mut x = 1; }"),
        vec![
            TokenKind::Fn,
            TokenKind::Ident("main".to_string()),
            TokenKind::LParen,
            TokenKind::RParen,
            TokenKind::Arrow,
            TokenKind::Ident("i32".to_string()),
            TokenKind::LBrace,
            TokenKind::Let,
            TokenKind::Mut,
            TokenKind::Ident("x".to_string()),
            TokenKind::Eq,
            TokenKind::IntLit(1),
            TokenKind::Semicolon,
            TokenKind::RBrace,
            TokenKind::Eof,
        ]
    );
}

#[test]
fn keywords_and_identifiers() {
    assert_eq!(
        kinds("if else while true false struct impl self enum match unsafe as return selfish _x"),
        vec![
            TokenKind::If,
            TokenKind::Else,
            TokenKind::While,
            TokenKind::True,
            TokenKind::False,
            TokenKind::Struct,
            TokenKind::Impl,
            TokenKind::SelfKw,
            TokenKind::Enum,
            TokenKind::Match,
            TokenKind::Unsafe,
            TokenKind::As,
            TokenKind::Return,
            TokenKind::Ident("selfish".to_string()),
            TokenKind::Ident("_x".to_string()),
            TokenKind::Eof,
        ]
    );
}

#[test]
fn longest_operator_wins() {
    assert_eq!(
        kinds("== != <= >= << >> && || -> => :: = ! < > & | - :"),
        vec![
            TokenKind::EqEq,
            TokenKind::BangEq,
            TokenKind::Le,
            TokenKind::Ge,
            TokenKind::Shl,
            TokenKind::Shr,
            TokenKind::AmpAmp,
            TokenKind::PipePipe,
            TokenKind::Arrow,
            TokenKind::FatArrow,
            TokenKind::ColonColon,
            TokenKind::Eq,
            TokenKind::Bang,
            TokenKind::Lt,
            TokenKind::Gt,
            TokenKind::Amp,
            TokenKind::Pipe,
            TokenKind::Minus,
            TokenKind::Colon,
            TokenKind::Eof,
        ]
    );
}

#[test]
fn single_byte_punctuation() {
    assert_eq!(
        kinds("(){};,.+*/%^~"),
        vec![
            TokenKind::LParen,
            TokenKind::RParen,
            TokenKind::LBrace,
            TokenKind::RBrace,
            TokenKind::Semicolon,
            TokenKind::Comma,
            TokenKind::Dot,
            TokenKind::Plus,
            TokenKind::Star,
            TokenKind::Slash,
            TokenKind::Percent,
            TokenKind::Caret,
            TokenKind::Tilde,
            TokenKind::Eof,
        ]
    );
}

#[test]
fn comments_and_positions() {
    let toks = lex("// a comment\n  x // trailing\n\ty");
    assert_eq!(toks.len(), 3);
    assert_eq!(toks[0].kind, TokenKind::Ident("x".to_string()));
    assert_eq!((toks[0].line, toks[0].col), (2, 3));
    assert_eq!(toks[1].kind, TokenKind::Ident("y".to_string()));
    assert_eq!((toks[1].line, toks[1].col), (3, 2));
    assert_eq!(toks[2].kind, TokenKind::Eof);
    assert_eq!((toks[2].line, toks[2].col), (3, 3));
}

#[test]
fn integer_literals() {
    assert_eq!(
        kinds("0 42 1_000 0x1F 0XfF 0b101 0B1_0"),
        vec![
            TokenKind::IntLit(0),
            TokenKind::IntLit(42),
            TokenKind::IntLit(1000),
            TokenKind::IntLit(31),
            TokenKind::IntLit(255),
            TokenKind::IntLit(5),
            TokenKind::IntLit(2),
            TokenKind::Eof,
        ]
    );
    assert_eq!(kinds("9223372036854775807")[0], TokenKind::IntLit(i64::MAX));
}

#[test]
fn integer_literal_out_of_range() {
    assert_eq!(
        lex_err("  9223372036854775808"),
        (1, 3, "integer literal '9223372036854775808' out of range".to_string())
    );
    assert_eq!(lex_err("0x"), (1, 1, "hex literal '0x' out of range".to_string()));
    assert_eq!(
        lex_err("0x8000_0000_0000_0000"),
        (1, 1, "hex literal '0x8000000000000000' out of range".to_string())
    );
    assert_eq!(lex_err("0b"), (1, 1, "binary literal '0b' out of range".to_string()));
}

#[test]
fn float_literals_keep_their_digits() {
    assert_eq!(
        kinds("3.14 1e10 2.5E-3 1_0.2_5 7.0f32 1."),
        vec![
            TokenKind::FloatLit("3.14".to_string()),
            TokenKind::FloatLit("1e10".to_string()),
            TokenKind::FloatLit("2.5e-3".to_string()),
            TokenKind::FloatLit("10.25".to_string()),
            TokenKind::FloatLit("7.0".to_string()),
            TokenKind::FloatLit("1.".to_string()),
            TokenKind::Eof,
        ]
    );
}

#[test]
fn float_exponent_needs_digits() {
    assert_eq!(lex_err("1e"), (1, 1, "float literal '1e' out of range".to_string()));
    assert_eq!(lex_err("x 2.5e+"), (1, 3, "float literal '2.5e+' out of range".to_string()));
}

#[test]
fn range_is_not_a_float() {
    assert_eq!(
        kinds("1..2"),
        vec![
            TokenKind::IntLit(1),
            TokenKind::Dot,
            TokenKind::Dot,
            TokenKind::IntLit(2),
            TokenKind::Eof,
        ]
    );
}

#[test]
fn string_literals_and_escapes() {
    assert_eq!(
        kinds(r#""a\n\t\\\"b\q""#),
        vec![TokenKind::StringLit("a\n\t\\\"bq".to_string()), TokenKind::Eof]
    );
    assert_eq!(lex_err("x \"abc"), (1, 3, "unterminated string literal".to_string()));
    assert_eq!(lex_err("\"abc\\"), (1, 1, "unterminated escape sequence".to_string()));
}

#[test]
fn char_literals() {
    assert_eq!(
        kinds(r"'a' '\n' '\0' '\'' '\u{1F600}' '\u{41}'"),
        vec![
            TokenKind::CharLit(97),
            TokenKind::CharLit(10),
            TokenKind::CharLit(0),
            TokenKind::CharLit(39),
            TokenKind::CharLit(0x1F600),
            TokenKind::CharLit(65),
            TokenKind::Eof,
        ]
    );
}

#[test]
fn char_literal_errors() {
    assert_eq!(lex_err("'"), (1, 1, "unterminated char literal".to_string()));
    assert_eq!(lex_err(r"'\q'"), (1, 1, r"unknown escape '\q'".to_string()));
    assert_eq!(lex_err("'ab'"), (1, 1, "expected closing ' in char literal".to_string()));
    assert_eq!(lex_err(r"'\u41'"), (1, 1, "expected '{' in unicode escape".to_string()));
    assert_eq!(lex_err(r"'\u{4g}'"), (1, 1, "invalid unicode escape".to_string()));
    assert_eq!(
        lex_err(r"'\u{100000000}'"),
        (1, 1, "unicode escape out of range".to_string())
    );
    assert_eq!(lex_err("'\\"), (1, 1, "unterminated escape".to_string()));
}

#[test]
fn unexpected_character() {
    assert_eq!(lex_err("let x = @;"), (1, 9, "unexpected character '@'".to_string()));
    assert_eq!(lex_err("\n\n  #"), (3, 3, "unexpected character '#'".to_string()));
}

#[test]
fn token_stream_ends_with_single_eof() {
    let toks = lex("fn f() { return 1 + 2 * 3; } // done");
    let eofs = toks.iter().filter(|t| t.kind == TokenKind::Eof).count();
    assert_eq!(eofs, 1);
    assert_eq!(toks.last().unwrap().kind, TokenKind::Eof);
}
