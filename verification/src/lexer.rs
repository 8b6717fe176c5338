//! The lexer: turns source text into tokens.
//!
//! It works on the UTF-8 bytes of the source. Line and column numbers are 1-based and
//! count bytes; a token carries the position of its first byte.
use crate::error::{Error, ErrM};
use crate::loc::Loc;
use crate::text::{push_char, str_eq};
use vstd::prelude::*;
use vstd::string::StringSliceAdditionalSpecFns;

verus! {

#[derive(Debug, Clone, PartialEq)]
pub enum TokenKind {
    // Keywords
    Fn,
    Let,
    Mut,
    Return,
    If,
    Else,
    While,
    True,
    False,
    Struct,
    Impl,
    /// `self`
    SelfKw,
    Enum,
    Match,
    Unsafe,
    As,
    // Identifiers and literals
    Ident(String),
    IntLit(i64),
    /// A float literal, as its digits: `_` separators dropped, the exponent marker
    /// written `e`, any `f32`/`f64` suffix left out.
    FloatLit(String),
    CharLit(u32),
    StringLit(String),
    // Arithmetic operators
    Plus,
    Minus,
    Star,
    Slash,
    Percent,
    // Bitwise operators
    /// `&`
    Amp,
    /// `|`
    Pipe,
    /// `^`
    Caret,
    /// `~`
    Tilde,
    /// `<<`
    Shl,
    /// `>>`
    Shr,
    // Comparison operators
    EqEq,
    BangEq,
    Lt,
    Gt,
    Le,
    Ge,
    // Logical operators
    AmpAmp,
    PipePipe,
    // Punctuation
    LParen,
    RParen,
    LBrace,
    RBrace,
    Semicolon,
    Comma,
    Dot,
    Colon,
    ColonColon,
    Eq,
    /// `->`
    Arrow,
    /// `=>`
    FatArrow,
    Bang,
    Eof,
}

/// The model of a token kind, with text as character sequences.
pub enum TokM {
    Fn,
    Let,
    Mut,
    Return,
    If,
    Else,
    While,
    True,
    False,
    Struct,
    Impl,
    SelfKw,
    Enum,
    Match,
    Unsafe,
    As,
    Ident(Seq<char>),
    IntLit(i64),
    FloatLit(Seq<char>),
    CharLit(u32),
    StringLit(Seq<char>),
    Plus,
    Minus,
    Star,
    Slash,
    Percent,
    Amp,
    Pipe,
    Caret,
    Tilde,
    Shl,
    Shr,
    EqEq,
    BangEq,
    Lt,
    Gt,
    Le,
    Ge,
    AmpAmp,
    PipePipe,
    LParen,
    RParen,
    LBrace,
    RBrace,
    Semicolon,
    Comma,
    Dot,
    Colon,
    ColonColon,
    Eq,
    Arrow,
    FatArrow,
    Bang,
    Eof,
}

impl View for TokenKind {
    type V = TokM;

    open spec fn view(&self) -> TokM {
        match self {
            TokenKind::Fn => TokM::Fn,
            TokenKind::Let => TokM::Let,
            TokenKind::Mut => TokM::Mut,
            TokenKind::Return => TokM::Return,
            TokenKind::If => TokM::If,
            TokenKind::Else => TokM::Else,
            TokenKind::While => TokM::While,
            TokenKind::True => TokM::True,
            TokenKind::False => TokM::False,
            TokenKind::Struct => TokM::Struct,
            TokenKind::Impl => TokM::Impl,
            TokenKind::SelfKw => TokM::SelfKw,
            TokenKind::Enum => TokM::Enum,
            TokenKind::Match => TokM::Match,
            TokenKind::Unsafe => TokM::Unsafe,
            TokenKind::As => TokM::As,
            TokenKind::Ident(s) => TokM::Ident(s@),
            TokenKind::IntLit(n) => TokM::IntLit(*n),
            TokenKind::FloatLit(s) => TokM::FloatLit(s@),
            TokenKind::CharLit(c) => TokM::CharLit(*c),
            TokenKind::StringLit(s) => TokM::StringLit(s@),
            TokenKind::Plus => TokM::Plus,
            TokenKind::Minus => TokM::Minus,
            TokenKind::Star => TokM::Star,
            TokenKind::Slash => TokM::Slash,
            TokenKind::Percent => TokM::Percent,
            TokenKind::Amp => TokM::Amp,
            TokenKind::Pipe => TokM::Pipe,
            TokenKind::Caret => TokM::Caret,
            TokenKind::Tilde => TokM::Tilde,
            TokenKind::Shl => TokM::Shl,
            TokenKind::Shr => TokM::Shr,
            TokenKind::EqEq => TokM::EqEq,
            TokenKind::BangEq => TokM::BangEq,
            TokenKind::Lt => TokM::Lt,
            TokenKind::Gt => TokM::Gt,
            TokenKind::Le => TokM::Le,
            TokenKind::Ge => TokM::Ge,
            TokenKind::AmpAmp => TokM::AmpAmp,
            TokenKind::PipePipe => TokM::PipePipe,
            TokenKind::LParen => TokM::LParen,
            TokenKind::RParen => TokM::RParen,
            TokenKind::LBrace => TokM::LBrace,
            TokenKind::RBrace => TokM::RBrace,
            TokenKind::Semicolon => TokM::Semicolon,
            TokenKind::Comma => TokM::Comma,
            TokenKind::Dot => TokM::Dot,
            TokenKind::Colon => TokM::Colon,
            TokenKind::ColonColon => TokM::ColonColon,
            TokenKind::Eq => TokM::Eq,
            TokenKind::Arrow => TokM::Arrow,
            TokenKind::FatArrow => TokM::FatArrow,
            TokenKind::Bang => TokM::Bang,
            TokenKind::Eof => TokM::Eof,
        }
    }
}

#[derive(Debug, Clone)]
pub struct Token {
    pub kind: TokenKind,
    pub line: usize,
    pub col: usize,
}

pub struct TokenM {
    pub kind: TokM,
    pub line: nat,
    pub col: nat,
}

impl View for Token {
    type V = TokenM;

    open spec fn view(&self) -> TokenM {
        TokenM { kind: self.kind@, line: self.line as nat, col: self.col as nat }
    }
}

pub open spec fn toks_view(ts: Seq<Token>) -> Seq<TokenM> {
    ts.map_values(|t: Token| t@)
}

// ---------------------------------------------------------------------------
// The lexical rules
// ---------------------------------------------------------------------------

/// Where the lexer stands: the next byte's index, and its line and column.
pub struct LexSt {
    pub pos: nat,
    pub line: nat,
    pub col: nat,
}

pub open spec fn start_st() -> LexSt {
    LexSt { pos: 0, line: 1, col: 1 }
}

pub open spec fn byte_at(src: Seq<u8>, i: nat) -> Option<u8> {
    if i < src.len() {
        Some(src[i as int])
    } else {
        None
    }
}

pub open spec fn peek_is(src: Seq<u8>, st: LexSt, b: u8) -> bool {
    byte_at(src, st.pos) == Some(b)
}

/// Moves past the next byte (if any); a newline starts a new line.
pub open spec fn adv(src: Seq<u8>, st: LexSt) -> LexSt {
    if st.pos < src.len() {
        if src[st.pos as int] == ('\n' as u8) {
            LexSt { pos: st.pos + 1, line: st.line + 1, col: 1 }
        } else {
            LexSt { pos: st.pos + 1, line: st.line, col: st.col + 1 }
        }
    } else {
        st
    }
}

pub open spec fn is_ws(c: u8) -> bool {
    c == (' ' as u8) || c == ('\t' as u8) || c == ('\n' as u8) || c == 12u8 || c == ('\r' as u8)
}

pub open spec fn is_digit(c: u8) -> bool {
    ('0' as u8) <= c <= ('9' as u8)
}

pub open spec fn is_hex(c: u8) -> bool {
    is_digit(c) || (('a' as u8) <= c <= ('f' as u8)) || (('A' as u8) <= c <= ('F' as u8))
}

pub open spec fn is_alpha(c: u8) -> bool {
    (('a' as u8) <= c <= ('z' as u8)) || (('A' as u8) <= c <= ('Z' as u8))
}

/// Skips whitespace and `//` comments; `in_comment` is true inside a comment, which
/// runs up to (not including) the end of its line.
pub open spec fn skip_ws(src: Seq<u8>, st: LexSt, in_comment: bool) -> LexSt
    decreases src.len() - st.pos, if in_comment { 1int } else { 0int },
{
    if in_comment {
        if st.pos < src.len() && src[st.pos as int] != ('\n' as u8) {
            skip_ws(src, adv(src, st), true)
        } else {
            skip_ws(src, st, false)
        }
    } else if st.pos < src.len() && is_ws(src[st.pos as int]) {
        skip_ws(src, adv(src, st), false)
    } else if byte_at(src, st.pos) == Some(('/' as u8)) && byte_at(src, st.pos + 1) == Some(('/' as u8)) {
        skip_ws(src, adv(src, adv(src, st)), true)
    } else {
        st
    }
}

/// The classes of bytes that literals and identifiers are made of.
#[derive(Clone, Copy)]
pub enum Class {
    /// Hex digits and `_`.
    HexUs,
    /// `0`, `1` and `_`.
    BinUs,
    /// Decimal digits and `_`.
    DecUs,
    /// Decimal digits.
    Dec,
    /// Letters, digits and `_`.
    Word,
}

pub open spec fn class_ok(k: Class, c: u8) -> bool {
    match k {
        Class::HexUs => is_hex(c) || c == ('_' as u8),
        Class::BinUs => c == ('0' as u8) || c == ('1' as u8) || c == ('_' as u8),
        Class::DecUs => is_digit(c) || c == ('_' as u8),
        Class::Dec => is_digit(c),
        Class::Word => is_alpha(c) || is_digit(c) || c == ('_' as u8),
    }
}

/// Whether a byte of class `k` is a separator that the literal's text leaves out.
pub open spec fn class_drops(k: Class, c: u8) -> bool {
    c == ('_' as u8) && (k is HexUs || k is BinUs || k is DecUs)
}

/// Consumes the bytes of class `k`, appending them (but separators) to `acc`.
pub open spec fn scan(src: Seq<u8>, st: LexSt, acc: Seq<char>, k: Class) -> (Seq<char>, LexSt)
    decreases src.len() - st.pos,
{
    match byte_at(src, st.pos) {
        Some(c) => if class_ok(k, c) {
            let acc1 = if class_drops(k, c) {
                acc
            } else {
                acc.push(c as char)
            };
            scan(src, adv(src, st), acc1, k)
        } else {
            (acc, st)
        },
        None => (acc, st),
    }
}

/// The value of a digit character in bases up to 16.
pub open spec fn digit_val(c: char) -> nat {
    if '0' <= c <= '9' {
        (c as int - 48) as nat
    } else if 'a' <= c <= 'f' {
        (c as int - 87) as nat
    } else if 'A' <= c <= 'F' {
        (c as int - 55) as nat
    } else {
        0
    }
}

/// The number the digits `s` denote in base `base`.
pub open spec fn digits_value(s: Seq<char>, base: nat) -> nat
    decreases s.len(),
{
    if s.len() == 0 {
        0
    } else {
        digits_value(s.drop_last(), base) * base + digit_val(s.last())
    }
}

/// Whether `s` parses in base `base` as a number no greater than `max`.
pub open spec fn fits(s: Seq<char>, base: nat, max: nat) -> bool {
    s.len() > 0 && digits_value(s, base) <= max
}

pub open spec fn keyword_m(name: Seq<char>) -> TokM {
    if name == "fn"@ {
        TokM::Fn
    } else if name == "let"@ {
        TokM::Let
    } else if name == "mut"@ {
        TokM::Mut
    } else if name == "return"@ {
        TokM::Return
    } else if name == "if"@ {
        TokM::If
    } else if name == "else"@ {
        TokM::Else
    } else if name == "while"@ {
        TokM::While
    } else if name == "true"@ {
        TokM::True
    } else if name == "false"@ {
        TokM::False
    } else if name == "struct"@ {
        TokM::Struct
    } else if name == "impl"@ {
        TokM::Impl
    } else if name == "self"@ {
        TokM::SelfKw
    } else if name == "enum"@ {
        TokM::Enum
    } else if name == "match"@ {
        TokM::Match
    } else if name == "unsafe"@ {
        TokM::Unsafe
    } else if name == "as"@ {
        TokM::As
    } else {
        TokM::Ident(name)
    }
}

/// An operator or punctuation token starting with byte `c` (the longest match), or
/// `None` when `c` starts none.
pub open spec fn punct_m(src: Seq<u8>, st: LexSt, c: u8) -> Option<(TokM, LexSt)> {
    let st1 = adv(src, st);
    let st2 = adv(src, st1);
    if c == ('(' as u8) {
        Some((TokM::LParen, st1))
    } else if c == (')' as u8) {
        Some((TokM::RParen, st1))
    } else if c == ('{' as u8) {
        Some((TokM::LBrace, st1))
    } else if c == ('}' as u8) {
        Some((TokM::RBrace, st1))
    } else if c == (';' as u8) {
        Some((TokM::Semicolon, st1))
    } else if c == (',' as u8) {
        Some((TokM::Comma, st1))
    } else if c == ('.' as u8) {
        Some((TokM::Dot, st1))
    } else if c == (':' as u8) {
        if peek_is(src, st1, (':' as u8)) {
            Some((TokM::ColonColon, st2))
        } else {
            Some((TokM::Colon, st1))
        }
    } else if c == ('=' as u8) {
        if peek_is(src, st1, ('=' as u8)) {
            Some((TokM::EqEq, st2))
        } else if peek_is(src, st1, ('>' as u8)) {
            Some((TokM::FatArrow, st2))
        } else {
            Some((TokM::Eq, st1))
        }
    } else if c == ('!' as u8) {
        if peek_is(src, st1, ('=' as u8)) {
            Some((TokM::BangEq, st2))
        } else {
            Some((TokM::Bang, st1))
        }
    } else if c == ('<' as u8) {
        if peek_is(src, st1, ('=' as u8)) {
            Some((TokM::Le, st2))
        } else if peek_is(src, st1, ('<' as u8)) {
            Some((TokM::Shl, st2))
        } else {
            Some((TokM::Lt, st1))
        }
    } else if c == ('>' as u8) {
        if peek_is(src, st1, ('=' as u8)) {
            Some((TokM::Ge, st2))
        } else if peek_is(src, st1, ('>' as u8)) {
            Some((TokM::Shr, st2))
        } else {
            Some((TokM::Gt, st1))
        }
    } else if c == ('&' as u8) {
        if peek_is(src, st1, ('&' as u8)) {
            Some((TokM::AmpAmp, st2))
        } else {
            Some((TokM::Amp, st1))
        }
    } else if c == ('|' as u8) {
        if peek_is(src, st1, ('|' as u8)) {
            Some((TokM::PipePipe, st2))
        } else {
            Some((TokM::Pipe, st1))
        }
    } else if c == ('+' as u8) {
        Some((TokM::Plus, st1))
    } else if c == ('-' as u8) {
        if peek_is(src, st1, ('>' as u8)) {
            Some((TokM::Arrow, st2))
        } else {
            Some((TokM::Minus, st1))
        }
    } else if c == ('*' as u8) {
        Some((TokM::Star, st1))
    } else if c == ('/' as u8) {
        Some((TokM::Slash, st1))
    } else if c == ('%' as u8) {
        Some((TokM::Percent, st1))
    } else if c == ('^' as u8) {
        Some((TokM::Caret, st1))
    } else if c == ('~' as u8) {
        Some((TokM::Tilde, st1))
    } else {
        None
    }
}

/// The character an escape `\d` in a string literal stands for.
pub open spec fn str_escape(d: u8) -> char {
    if d == ('n' as u8) {
        '\n'
    } else if d == ('t' as u8) {
        '\t'
    } else if d == ('\\' as u8) {
        '\\'
    } else if d == ('"' as u8) {
        '"'
    } else {
        d as char
    }
}

/// The rest of a string literal after its opening quote; `acc` holds the characters
/// so far.
pub open spec fn str_body(src: Seq<u8>, st: LexSt, acc: Seq<char>) -> Result<(TokM, LexSt), Seq<char>>
    decreases src.len() - st.pos,
{
    match byte_at(src, st.pos) {
        None => Err("unterminated string literal"@),
        Some(c) => {
            let st1 = adv(src, st);
            if c == ('"' as u8) {
                Ok((TokM::StringLit(acc), st1))
            } else if c == ('\\' as u8) {
                match byte_at(src, st1.pos) {
                    None => Err("unterminated escape sequence"@),
                    Some(d) => str_body(src, adv(src, st1), acc.push(str_escape(d))),
                }
            } else {
                str_body(src, st1, acc.push(c as char))
            }
        },
    }
}

/// The hex digits of a `\u{...}` escape after its `{`, through the closing `}`.
pub open spec fn unicode_body(src: Seq<u8>, st: LexSt, acc: Seq<char>) -> Result<(Seq<char>, LexSt), Seq<char>>
    decreases src.len() - st.pos,
{
    match byte_at(src, st.pos) {
        Some(c) => if c == ('}' as u8) {
            Ok((acc, adv(src, st)))
        } else if is_hex(c) {
            unicode_body(src, adv(src, st), acc.push(c as char))
        } else {
            Err("invalid unicode escape"@)
        },
        None => Err("invalid unicode escape"@),
    }
}

/// The code of an escape in a char literal, after its backslash.
pub open spec fn char_escape(src: Seq<u8>, st: LexSt) -> Result<(u32, LexSt), Seq<char>> {
    match byte_at(src, st.pos) {
        None => Err("unterminated escape"@),
        Some(d) => {
            let st1 = adv(src, st);
            if d == ('n' as u8) {
                Ok((10, st1))
            } else if d == ('t' as u8) {
                Ok((9, st1))
            } else if d == ('r' as u8) {
                Ok((13, st1))
            } else if d == ('\\' as u8) {
                Ok((92, st1))
            } else if d == ('\'' as u8) {
                Ok((39, st1))
            } else if d == ('"' as u8) {
                Ok((34, st1))
            } else if d == ('0' as u8) {
                Ok((0, st1))
            } else if d == ('u' as u8) {
                if peek_is(src, st1, ('{' as u8)) {
                    match unicode_body(src, adv(src, st1), Seq::empty()) {
                        Ok((hex, st2)) => if fits(hex, 16, u32::MAX as nat) {
                            Ok((digits_value(hex, 16) as u32, st2))
                        } else {
                            Err("unicode escape out of range"@)
                        },
                        Err(m) => Err(m),
                    }
                } else {
                    Err("expected '{' in unicode escape"@)
                }
            } else {
                Err("unknown escape '\\"@ + seq![d as char] + "'"@)
            }
        },
    }
}

/// A char literal, from its opening quote.
pub open spec fn char_lit(src: Seq<u8>, st: LexSt) -> Result<(TokM, LexSt), Seq<char>> {
    let st1 = adv(src, st);
    match byte_at(src, st1.pos) {
        None => Err("unterminated char literal"@),
        Some(c) => {
            let st2 = adv(src, st1);
            let body = if c == ('\\' as u8) {
                char_escape(src, st2)
            } else {
                Ok((c as u32, st2))
            };
            match body {
                Ok((v, st3)) => if peek_is(src, st3, ('\'' as u8)) {
                    Ok((TokM::CharLit(v), adv(src, st3)))
                } else {
                    Err("expected closing ' in char literal"@)
                },
                Err(m) => Err(m),
            }
        },
    }
}

/// A `0x` or `0b` literal from its first digit after the prefix: the digits, read in
/// `base`, must be present and fit in `i64`.
pub open spec fn radix_lit(src: Seq<u8>, st: LexSt, k: Class, base: nat, prefix: Seq<char>) -> Result<(TokM, LexSt), Seq<char>> {
    let (s, st1) = scan(src, st, Seq::empty(), k);
    if fits(s, base, i64::MAX as nat) {
        Ok((TokM::IntLit(digits_value(s, base) as i64), st1))
    } else {
        Err(prefix + s + "' out of range"@)
    }
}

/// The fraction and exponent of a float literal whose integer digits are `s`; gives
/// the text, the state after it, and whether an exponent (if any) has digits.
pub open spec fn float_rest(src: Seq<u8>, st: LexSt, s: Seq<char>) -> (Seq<char>, LexSt, bool) {
    let (s1, st1) = if peek_is(src, st, ('.' as u8)) {
        scan(src, adv(src, st), s.push('.'), Class::DecUs)
    } else {
        (s, st)
    };
    if peek_is(src, st1, ('e' as u8)) || peek_is(src, st1, ('E' as u8)) {
        let st2 = adv(src, st1);
        let (s2, st3) = if peek_is(src, st2, ('+' as u8)) || peek_is(src, st2, ('-' as u8)) {
            (s1.push('e').push(src[st2.pos as int] as char), adv(src, st2))
        } else {
            (s1.push('e'), st2)
        };
        let (s3, st4) = scan(src, st3, s2, Class::Dec);
        (s3, st4, s3.len() > s2.len())
    } else {
        (s1, st1, true)
    }
}

/// Whether the three bytes at `st` are `f32` or `f64`.
pub open spec fn float_suffix(src: Seq<u8>, st: LexSt) -> bool {
    byte_at(src, st.pos) == Some(('f' as u8)) && ((byte_at(src, st.pos + 1) == Some(('3' as u8))
        && byte_at(src, st.pos + 2) == Some(('2' as u8))) || (byte_at(src, st.pos + 1) == Some(('6' as u8))
        && byte_at(src, st.pos + 2) == Some(('4' as u8))))
}

/// A number literal, from its first digit. A digit sequence followed by `.` (but not
/// `..`) or by an exponent is a float.
pub open spec fn number_lit(src: Seq<u8>, st: LexSt) -> Result<(TokM, LexSt), Seq<char>> {
    let next = byte_at(src, st.pos + 1);
    if peek_is(src, st, ('0' as u8)) && (next == Some(('x' as u8)) || next == Some(('X' as u8))) {
        radix_lit(src, adv(src, adv(src, st)), Class::HexUs, 16, "hex literal '0x"@)
    } else if peek_is(src, st, ('0' as u8)) && (next == Some(('b' as u8)) || next == Some(('B' as u8))) {
        radix_lit(src, adv(src, adv(src, st)), Class::BinUs, 2, "binary literal '0b"@)
    } else {
        let (s, st1) = scan(src, st, Seq::empty(), Class::DecUs);
        let is_float = (peek_is(src, st1, ('.' as u8)) && byte_at(src, st1.pos + 1) != Some(('.' as u8)))
            || peek_is(src, st1, ('e' as u8)) || peek_is(src, st1, ('E' as u8));
        if is_float {
            let (text, st2, exp_ok) = float_rest(src, st1, s);
            let st3 = if float_suffix(src, st2) {
                adv(src, adv(src, adv(src, st2)))
            } else {
                st2
            };
            if s.len() > 0 && exp_ok {
                Ok((TokM::FloatLit(text), st3))
            } else {
                Err("float literal '"@ + text + "' out of range"@)
            }
        } else if fits(s, 10, i64::MAX as nat) {
            Ok((TokM::IntLit(digits_value(s, 10) as i64), st1))
        } else {
            Err("integer literal '"@ + s + "' out of range"@)
        }
    }
}

/// The token kind starting with byte `c` at `st`, or the message of a lexical error.
pub open spec fn lex_kind(src: Seq<u8>, st: LexSt, c: u8) -> Result<(TokM, LexSt), Seq<char>> {
    if c == ('"' as u8) {
        str_body(src, adv(src, st), Seq::empty())
    } else if c == ('\'' as u8) {
        char_lit(src, st)
    } else if is_digit(c) {
        number_lit(src, st)
    } else if is_alpha(c) || c == ('_' as u8) {
        let (name, st1) = scan(src, st, Seq::empty(), Class::Word);
        Ok((keyword_m(name), st1))
    } else {
        match punct_m(src, st, c) {
            Some(p) => Ok(p),
            None => Err("unexpected character '"@ + seq![c as char] + "'"@),
        }
    }
}

/// Whether the byte at `st` exists and starts no token (an unexpected character).
pub open spec fn starts_nothing(src: Seq<u8>, st: LexSt) -> bool {
    match byte_at(src, st.pos) {
        Some(c) => !(c == ('"' as u8) || c == ('\'' as u8) || is_digit(c) || is_alpha(c) || c
            == ('_' as u8)) && punct_m(src, st, c) is None,
        None => false,
    }
}

/// The next token after whitespace and comments; `Eof` at the end of the input. An
/// error is reported at the position of the token it stops.
pub open spec fn next_tok(src: Seq<u8>, st0: LexSt) -> Result<(TokenM, LexSt), ErrM> {
    let st = skip_ws(src, st0, false);
    match byte_at(src, st.pos) {
        None => Ok((TokenM { kind: TokM::Eof, line: st.line, col: st.col }, st)),
        Some(c) => match lex_kind(src, st, c) {
            Ok((k, st1)) => Ok((TokenM { kind: k, line: st.line, col: st.col }, st1)),
            Err(msg) => Err(
                ErrM { loc: Loc { line: st.line as u32, col: st.col as u32 }, message: msg },
            ),
        },
    }
}

// ---------------------------------------------------------------------------
// Every token but `Eof` consumes input
// ---------------------------------------------------------------------------

pub proof fn lemma_skip_ws(src: Seq<u8>, st: LexSt, in_comment: bool)
    ensures
        skip_ws(src, st, in_comment).pos >= st.pos,
        st.pos <= src.len() ==> skip_ws(src, st, in_comment).pos <= src.len(),
    decreases src.len() - st.pos, if in_comment { 1int } else { 0int },
{
    if in_comment {
        if st.pos < src.len() && src[st.pos as int] != ('\n' as u8) {
            lemma_skip_ws(src, adv(src, st), true);
        } else {
            lemma_skip_ws(src, st, false);
        }
    } else if st.pos < src.len() && is_ws(src[st.pos as int]) {
        lemma_skip_ws(src, adv(src, st), false);
    } else if byte_at(src, st.pos) == Some(('/' as u8)) && byte_at(src, st.pos + 1) == Some(('/' as u8)) {
        lemma_skip_ws(src, adv(src, adv(src, st)), true);
    }
}

proof fn lemma_scan(src: Seq<u8>, st: LexSt, acc: Seq<char>, k: Class)
    ensures
        scan(src, st, acc, k).1.pos >= st.pos,
        st.pos <= src.len() ==> scan(src, st, acc, k).1.pos <= src.len(),
        (st.pos < src.len() && class_ok(k, src[st.pos as int])) ==> scan(src, st, acc, k).1.pos
            > st.pos,
    decreases src.len() - st.pos,
{
    if let Some(c) = byte_at(src, st.pos) {
        if class_ok(k, c) {
            let acc1 = if class_drops(k, c) {
                acc
            } else {
                acc.push(c as char)
            };
            lemma_scan(src, adv(src, st), acc1, k);
        }
    }
}

proof fn lemma_str_body(src: Seq<u8>, st: LexSt, acc: Seq<char>)
    ensures
        str_body(src, st, acc) matches Ok((_, st1)) ==> st.pos < st1.pos <= src.len(),
    decreases src.len() - st.pos,
{
    if let Some(c) = byte_at(src, st.pos) {
        let st1 = adv(src, st);
        if c == ('\\' as u8) {
            if let Some(d) = byte_at(src, st1.pos) {
                lemma_str_body(src, adv(src, st1), acc.push(str_escape(d)));
            }
        } else if c != ('"' as u8) {
            lemma_str_body(src, st1, acc.push(c as char));
        }
    }
}

proof fn lemma_unicode_body(src: Seq<u8>, st: LexSt, acc: Seq<char>)
    ensures
        unicode_body(src, st, acc) matches Ok((_, st1)) ==> st.pos < st1.pos <= src.len(),
    decreases src.len() - st.pos,
{
    if let Some(c) = byte_at(src, st.pos) {
        if c != ('}' as u8) && is_hex(c) {
            lemma_unicode_body(src, adv(src, st), acc.push(c as char));
        }
    }
}

proof fn lemma_float_rest(src: Seq<u8>, st: LexSt, s: Seq<char>)
    requires
        st.pos <= src.len(),
    ensures
        st.pos <= float_rest(src, st, s).1.pos <= src.len(),
{
    let st1 = if peek_is(src, st, ('.' as u8)) {
        lemma_scan(src, adv(src, st), s.push('.'), Class::DecUs);
        scan(src, adv(src, st), s.push('.'), Class::DecUs).1
    } else {
        st
    };
    if peek_is(src, st1, ('e' as u8)) || peek_is(src, st1, ('E' as u8)) {
        let s1 = if peek_is(src, st, ('.' as u8)) {
            scan(src, adv(src, st), s.push('.'), Class::DecUs).0
        } else {
            s
        };
        let st2 = adv(src, st1);
        let (s2, st3) = if peek_is(src, st2, ('+' as u8)) || peek_is(src, st2, ('-' as u8)) {
            (s1.push('e').push(src[st2.pos as int] as char), adv(src, st2))
        } else {
            (s1.push('e'), st2)
        };
        lemma_scan(src, st3, s2, Class::Dec);
    }
}

pub proof fn lemma_lex_kind(src: Seq<u8>, st: LexSt, c: u8)
    requires
        byte_at(src, st.pos) == Some(c),
    ensures
        lex_kind(src, st, c) matches Ok((_, st1)) ==> st.pos < st1.pos <= src.len(),
{
    if c == ('"' as u8) {
        lemma_str_body(src, adv(src, st), Seq::empty());
    } else if c == ('\'' as u8) {
        let st1 = adv(src, st);
        if let Some(c2) = byte_at(src, st1.pos) {
            let st2 = adv(src, st1);
            if c2 == ('\\' as u8) {
                if let Some(d) = byte_at(src, st2.pos) {
                    let st3 = adv(src, st2);
                    if d == ('u' as u8) && peek_is(src, st3, ('{' as u8)) {
                        lemma_unicode_body(src, adv(src, st3), Seq::empty());
                    }
                }
            }
        }
    } else if is_digit(c) {
        let next = byte_at(src, st.pos + 1);
        if peek_is(src, st, ('0' as u8)) && (next == Some(('x' as u8)) || next == Some(('X' as u8))) {
            lemma_scan(src, adv(src, adv(src, st)), Seq::empty(), Class::HexUs);
        } else if peek_is(src, st, ('0' as u8)) && (next == Some(('b' as u8)) || next == Some(('B' as u8))) {
            lemma_scan(src, adv(src, adv(src, st)), Seq::empty(), Class::BinUs);
        } else {
            lemma_scan(src, st, Seq::empty(), Class::DecUs);
            let (s, st1) = scan(src, st, Seq::empty(), Class::DecUs);
            lemma_float_rest(src, st1, s);
        }
    } else if is_alpha(c) || c == ('_' as u8) {
        lemma_scan(src, st, Seq::empty(), Class::Word);
    }
}

/// A token other than `Eof` moves the lexer forward, within the input.
pub proof fn lemma_next_tok(src: Seq<u8>, st: LexSt)
    ensures
        next_tok(src, st) matches Ok((t, st1)) ==> (!(t.kind is Eof) ==> st.pos < st1.pos
            <= src.len()),
{
    let s = skip_ws(src, st, false);
    lemma_skip_ws(src, st, false);
    if let Some(c) = byte_at(src, s.pos) {
        lemma_lex_kind(src, s, c);
    }
}

/// The tokens from `st` on, after `acc`: up to and including `Eof`, or the first error.
pub open spec fn tokens_from(src: Seq<u8>, st: LexSt, acc: Seq<TokenM>) -> Result<Seq<TokenM>, ErrM>
    decreases src.len() - st.pos,
{
    match next_tok(src, st) {
        Err(e) => Err(e),
        Ok((t, st1)) => if t.kind is Eof {
            Ok(acc.push(t))
        } else {
            proof {
                lemma_next_tok(src, st);
            }
            tokens_from(src, st1, acc.push(t))
        },
    }
}

/// The tokens of a source text, given as its bytes, ending with `Eof`; or the first
/// lexical error.
pub open spec fn spec_tokenize(src: Seq<u8>) -> Result<Seq<TokenM>, ErrM> {
    tokens_from(src, start_st(), Seq::empty())
}

// ---------------------------------------------------------------------------
// Byte classes and numbers
// ---------------------------------------------------------------------------

fn byte_is_ws(c: u8) -> (r: bool)
    ensures
        r == is_ws(c),
{
    c == (' ' as u8) || c == ('\t' as u8) || c == ('\n' as u8) || c == 12u8 || c == ('\r' as u8)
}

fn byte_is_digit(c: u8) -> (r: bool)
    ensures
        r == is_digit(c),
{
    ('0' as u8) <= c && c <= ('9' as u8)
}

fn byte_is_hex(c: u8) -> (r: bool)
    ensures
        r == is_hex(c),
{
    byte_is_digit(c) || (('a' as u8) <= c && c <= ('f' as u8)) || (('A' as u8) <= c && c <= (
    'F' as u8))
}

fn byte_is_alpha(c: u8) -> (r: bool)
    ensures
        r == is_alpha(c),
{
    (('a' as u8) <= c && c <= ('z' as u8)) || (('A' as u8) <= c && c <= ('Z' as u8))
}

fn class_accepts(k: Class, c: u8) -> (r: bool)
    ensures
        r == class_ok(k, c),
{
    match k {
        Class::HexUs => byte_is_hex(c) || c == ('_' as u8),
        Class::BinUs => c == ('0' as u8) || c == ('1' as u8) || c == ('_' as u8),
        Class::DecUs => byte_is_digit(c) || c == ('_' as u8),
        Class::Dec => byte_is_digit(c),
        Class::Word => byte_is_alpha(c) || byte_is_digit(c) || c == ('_' as u8),
    }
}

fn digit_value(c: char) -> (r: u64)
    ensures
        r == digit_val(c),
        r <= 15,
{
    if '0' <= c && c <= '9' {
        ((c as u32) - 48) as u64
    } else if 'a' <= c && c <= 'f' {
        ((c as u32) - 87) as u64
    } else if 'A' <= c && c <= 'F' {
        ((c as u32) - 55) as u64
    } else {
        0
    }
}

proof fn lemma_digits_prefix(s: Seq<char>, i: int, base: nat)
    requires
        0 <= i <= s.len(),
        base >= 1,
    ensures
        digits_value(s.take(i), base) <= digits_value(s, base),
    decreases s.len() - i,
{
    if i < s.len() {
        lemma_digits_prefix(s, i + 1, base);
        assert(s.take(i + 1).drop_last() =~= s.take(i));
        let v = digits_value(s.take(i), base);
        assert(v * base + digit_val(s[i]) >= v) by (nonlinear_arith)
            requires
                base >= 1,
        ;
    } else {
        assert(s.take(i) =~= s);
    }
}

/// The number `s` denotes in `base`, when `s` is non-empty and it is at most `max`.
fn parse_digits(s: &str, base: u64, max: u64) -> (r: Option<u64>)
    requires
        2 <= base <= 16,
        15 <= max,
    ensures
        match r {
            Some(v) => fits(s@, base as nat, max as nat) && v == digits_value(s@, base as nat),
            None => !fits(s@, base as nat, max as nat),
        },
{
    let n = s.unicode_len();
    if n == 0 {
        return None;
    }
    let mut acc: u64 = 0;
    let mut i: usize = 0;
    while i < n
        invariant
            n == s@.len(),
            i <= n,
            2 <= base <= 16,
            15 <= max,
            acc <= max,
            acc as nat == digits_value(s@.take(i as int), base as nat),
        decreases n - i,
    {
        let d = digit_value(s.get_char(i));
        assert(s@.take(i + 1).drop_last() =~= s@.take(i as int));
        if acc > (max - d) / base {
            proof {
                assert(acc * base + d > max) by (nonlinear_arith)
                    requires
                        acc > (max - d) as int / base as int,
                        base >= 2,
                        d <= max,
                ;
                lemma_digits_prefix(s@, i + 1, base as nat);
            }
            return None;
        }
        assert(acc * base + d <= max) by (nonlinear_arith)
            requires
                acc <= (max - d) as int / base as int,
                base >= 2,
                d <= max,
        ;
        acc = acc * base + d;
        i += 1;
    }
    assert(s@.take(n as int) =~= s@);
    Some(acc)
}

fn keyword(name: String) -> (r: TokenKind)
    ensures
        r@ == keyword_m(name@),
{
    if str_eq(name.as_str(), "fn") {
        TokenKind::Fn
    } else if str_eq(name.as_str(), "let") {
        TokenKind::Let
    } else if str_eq(name.as_str(), "mut") {
        TokenKind::Mut
    } else if str_eq(name.as_str(), "return") {
        TokenKind::Return
    } else if str_eq(name.as_str(), "if") {
        TokenKind::If
    } else if str_eq(name.as_str(), "else") {
        TokenKind::Else
    } else if str_eq(name.as_str(), "while") {
        TokenKind::While
    } else if str_eq(name.as_str(), "true") {
        TokenKind::True
    } else if str_eq(name.as_str(), "false") {
        TokenKind::False
    } else if str_eq(name.as_str(), "struct") {
        TokenKind::Struct
    } else if str_eq(name.as_str(), "impl") {
        TokenKind::Impl
    } else if str_eq(name.as_str(), "self") {
        TokenKind::SelfKw
    } else if str_eq(name.as_str(), "enum") {
        TokenKind::Enum
    } else if str_eq(name.as_str(), "match") {
        TokenKind::Match
    } else if str_eq(name.as_str(), "unsafe") {
        TokenKind::Unsafe
    } else if str_eq(name.as_str(), "as") {
        TokenKind::As
    } else {
        TokenKind::Ident(name)
    }
}

/// An error at a token's position.
fn lex_error(line: usize, col: usize, message: String) -> (e: Error)
    ensures
        e@ == (ErrM { loc: Loc { line: line as u32, col: col as u32 }, message: message@ }),
{
    Error::new(Loc::new(line as u32, col as u32), message)
}

/// The outcome of lexing one token kind, against its rule: on success the kind and the
/// state after it; on failure the message, reported at `line`:`col`.
pub open spec fn lexed(
    r: Result<TokenKind, Error>,
    rule: Result<(TokM, LexSt), Seq<char>>,
    after: LexSt,
    line: usize,
    col: usize,
) -> bool {
    match r {
        Ok(k) => rule == Ok::<(TokM, LexSt), Seq<char>>((k@, after)),
        Err(e) => rule == Err::<(TokM, LexSt), Seq<char>>(e.message@) && e.loc == Loc {
            line: line as u32,
            col: col as u32,
        },
    }
}

// ---------------------------------------------------------------------------
// The lexer
// ---------------------------------------------------------------------------

/// Turns source text into tokens.
pub struct Lexer<'a> {
    src: &'a [u8],
    pos: usize,
    line: usize,
    col: usize,
}

impl<'a> Lexer<'a> {
    /// The bytes of the source.
    pub closed spec fn bytes(&self) -> Seq<u8> {
        self.src@
    }

    /// Where the lexer stands.
    pub closed spec fn st(&self) -> LexSt {
        LexSt { pos: self.pos as nat, line: self.line as nat, col: self.col as nat }
    }

    /// The position lies within the source, and the line and column are bounded by it
    /// (so that counting them cannot overflow).
    pub closed spec fn wf(&self) -> bool {
        &&& self.pos <= self.src@.len()
        &&& self.src@.len() < usize::MAX
        &&& 1 <= self.line <= self.pos + 1
        &&& 1 <= self.col <= self.pos + 1
    }

    pub fn new(src: &'a str) -> (r: Self)
        requires
            src.spec_bytes().len() < usize::MAX,
        ensures
            r.wf(),
            r.bytes() == src.spec_bytes(),
            r.st() == start_st(),
    {
        Lexer { src: src.as_bytes(), pos: 0, line: 1, col: 1 }
    }

    /// The tokens of the whole source, ending with `Eof`, or the first lexical error.
    pub fn tokenize(self) -> (r: Result<Vec<Token>, Error>)
        requires
            self.wf(),
        ensures
            match r {
                Ok(v) => tokens_from(self.bytes(), self.st(), Seq::empty()) == Ok::<
                    Seq<TokenM>,
                    ErrM,
                >(toks_view(v@)),
                Err(e) => tokens_from(self.bytes(), self.st(), Seq::empty()) == Err::<
                    Seq<TokenM>,
                    ErrM,
                >(e@),
            },
    {
        let mut lx = self;
        let ghost src = lx.bytes();
        let mut tokens: Vec<Token> = Vec::new();
        assert(toks_view(tokens@) =~= Seq::<TokenM>::empty());
        loop
            invariant
                lx.wf(),
                lx.bytes() == src,
                src == self.bytes(),
                lx.pos <= src.len(),
                tokens_from(src, lx.st(), toks_view(tokens@)) == tokens_from(
                    src,
                    self.st(),
                    Seq::empty(),
                ),
            decreases src.len() - lx.pos,
        {
            let ghost before = lx.st();
            let tok = match lx.next_token() {
                Ok(t) => t,
                Err(e) => return Err(e),
            };
            proof {
                lemma_next_tok(src, before);
            }
            let done = matches!(tok.kind, TokenKind::Eof);
            assert(done || lx.st().pos > before.pos);
            let ghost old_tokens = tokens@;
            tokens.push(tok);
            assert(toks_view(tokens@) =~= toks_view(old_tokens).push(tokens@.last()@));
            if done {
                return Ok(tokens);
            }
        }
    }

    fn peek(&self) -> (r: Option<u8>)
        ensures
            r == byte_at(self.bytes(), self.pos as nat),
    {
        if self.pos < self.src.len() {
            Some(self.src[self.pos])
        } else {
            None
        }
    }

    fn byte(&self, i: usize) -> (r: Option<u8>)
        ensures
            r == byte_at(self.bytes(), i as nat),
    {
        if i < self.src.len() {
            Some(self.src[i])
        } else {
            None
        }
    }

    /// Whether the next byte is `b`.
    fn peek_eq(&self, b: u8) -> (r: bool)
        ensures
            r == peek_is(self.bytes(), self.st(), b),
    {
        match self.peek() {
            Some(c) => c == b,
            None => false,
        }
    }

    fn advance(&mut self) -> (r: Option<u8>)
        requires
            old(self).wf(),
        ensures
            final(self).wf(),
            final(self).bytes() == old(self).bytes(),
            final(self).st() == adv(old(self).bytes(), old(self).st()),
            r == byte_at(old(self).bytes(), old(self).pos as nat),
    {
        if self.pos >= self.src.len() {
            return None;
        }
        let ch = self.src[self.pos];
        self.pos += 1;
        if ch == ('\n' as u8) {
            self.line += 1;
            self.col = 1;
        } else {
            self.col += 1;
        }
        Some(ch)
    }

    fn skip_whitespace_and_comments(&mut self)
        requires
            old(self).wf(),
        ensures
            final(self).wf(),
            final(self).bytes() == old(self).bytes(),
            final(self).st() == skip_ws(old(self).bytes(), old(self).st(), false),
    {
        let ghost src = self.bytes();
        loop
            invariant
                self.wf(),
                self.bytes() == src,
                src == old(self).bytes(),
                skip_ws(src, self.st(), false) == skip_ws(src, old(self).st(), false),
            decreases src.len() - self.pos,
        {
            let ghost p0 = self.pos;
            // Whitespace.
            loop
                invariant
                    self.wf(),
                    self.bytes() == src,
                    src == old(self).bytes(),
                    self.pos >= p0,
                    skip_ws(src, self.st(), false) == skip_ws(src, old(self).st(), false),
                ensures
                    self.pos >= p0,
                    self.wf(),
                    self.bytes() == src,
                    skip_ws(src, self.st(), false) == skip_ws(src, old(self).st(), false),
                    !(self.pos < src.len() && is_ws(src[self.pos as int])),
                decreases src.len() - self.pos,
            {
                let ws = match self.peek() {
                    Some(c) => byte_is_ws(c),
                    None => false,
                };
                if !ws {
                    break;
                }
                self.advance();
            }
            // A `//` comment runs to the end of its line.
            let a = self.peek();
            let b = self.byte(self.pos + 1);
            let slash2 = match (a, b) {
                (Some(x), Some(y)) => x == ('/' as u8) && y == ('/' as u8),
                _ => false,
            };
            if !slash2 {
                return;
            }
            self.advance();
            self.advance();
            loop
                invariant
                    self.wf(),
                    self.bytes() == src,
                    src == old(self).bytes(),
                    self.pos >= p0 + 2,
                    skip_ws(src, self.st(), true) == skip_ws(src, old(self).st(), false),
                ensures
                    self.pos >= p0 + 2,
                    self.wf(),
                    self.bytes() == src,
                    skip_ws(src, self.st(), false) == skip_ws(src, old(self).st(), false),
                decreases src.len() - self.pos,
            {
                let more = match self.peek() {
                    Some(c) => c != ('\n' as u8),
                    None => false,
                };
                if !more {
                    break;
                }
                self.advance();
            }
        }
    }

    fn next_token(&mut self) -> (r: Result<Token, Error>)
        requires
            old(self).wf(),
        ensures
            final(self).wf(),
            final(self).bytes() == old(self).bytes(),
            match r {
                Ok(t) => next_tok(old(self).bytes(), old(self).st()) == Ok::<(TokenM, LexSt), ErrM>(
                    (t@, final(self).st()),
                ),
                Err(e) => next_tok(old(self).bytes(), old(self).st()) == Err::<
                    (TokenM, LexSt),
                    ErrM,
                >(e@) && (starts_nothing(old(self).bytes(), skip_ws(old(self).bytes(), old(self).st(), false))
                    ==> final(self).st() == adv(
                    old(self).bytes(),
                    skip_ws(old(self).bytes(), old(self).st(), false),
                )),
            },
    {
        self.skip_whitespace_and_comments();
        let line = self.line;
        let col = self.col;
        let ghost st = self.st();
        let ch = match self.peek() {
            None => {
                return Ok(Token { kind: TokenKind::Eof, line, col });
            },
            Some(c) => c,
        };
        let r = if ch == ('"' as u8) {
            self.lex_string(line, col)
        } else if ch == ('\'' as u8) {
            self.lex_char(line, col)
        } else if byte_is_digit(ch) {
            self.lex_number(line, col)
        } else if byte_is_alpha(ch) || ch == ('_' as u8) {
            Ok(self.lex_ident_or_keyword())
        } else {
            match self.punct(ch) {
                Some(k) => Ok(k),
                None => {
                    self.advance();
                    let mut m = String::from_str("unexpected character '");
                    push_char(&mut m, ch as char);
                    m.append("'");
                    assert(m@ =~= "unexpected character '"@ + seq![ch as char] + "'"@);
                    Err(lex_error(line, col, m))
                },
            }
        };
        assert(lexed(r, lex_kind(self.bytes(), st, ch), self.st(), line, col));
        match r {
            Ok(kind) => Ok(Token { kind, line, col }),
            Err(e) => Err(e),
        }
    }

    /// Consumes the bytes of class `k`, appending them (but separators) to `s`.
    fn scan(&mut self, k: Class, s: &mut String)
        requires
            old(self).wf(),
        ensures
            final(self).wf(),
            final(self).bytes() == old(self).bytes(),
            (final(s)@, final(self).st()) == scan(old(self).bytes(), old(self).st(), old(s)@, k),
    {
        let ghost src = self.bytes();
        loop
            invariant
                self.wf(),
                self.bytes() == src,
                src == old(self).bytes(),
                scan(src, self.st(), s@, k) == scan(src, old(self).st(), old(s)@, k),
            ensures
                self.wf(),
                self.bytes() == src,
                (s@, self.st()) == scan(src, old(self).st(), old(s)@, k),
            decreases src.len() - self.pos,
        {
            match self.peek() {
                Some(c) => {
                    if !class_accepts(k, c) {
                        break;
                    }
                    self.advance();
                    let drops = c == ('_' as u8) && match k {
                        Class::HexUs | Class::BinUs | Class::DecUs => true,
                        _ => false,
                    };
                    if !drops {
                        push_char(s, c as char);
                    }
                },
                None => break,
            }
        }
    }

    /// An operator or punctuation token starting with `c`, the next byte; the longest
    /// match wins. Consumes nothing when `c` starts none.
    fn punct(&mut self, c: u8) -> (r: Option<TokenKind>)
        requires
            old(self).wf(),
            byte_at(old(self).bytes(), old(self).pos as nat) == Some(c),
        ensures
            final(self).wf(),
            final(self).bytes() == old(self).bytes(),
            match r {
                Some(k) => punct_m(old(self).bytes(), old(self).st(), c) == Some((k@, final(self).st())),
                None => punct_m(old(self).bytes(), old(self).st(), c) is None && final(self).st()
                    == old(self).st(),
            },
    {
        let single = if c == ('(' as u8) {
            Some(TokenKind::LParen)
        } else if c == (')' as u8) {
            Some(TokenKind::RParen)
        } else if c == ('{' as u8) {
            Some(TokenKind::LBrace)
        } else if c == ('}' as u8) {
            Some(TokenKind::RBrace)
        } else if c == (';' as u8) {
            Some(TokenKind::Semicolon)
        } else if c == (',' as u8) {
            Some(TokenKind::Comma)
        } else if c == ('.' as u8) {
            Some(TokenKind::Dot)
        } else if c == ('+' as u8) {
            Some(TokenKind::Plus)
        } else if c == ('*' as u8) {
            Some(TokenKind::Star)
        } else if c == ('/' as u8) {
            Some(TokenKind::Slash)
        } else if c == ('%' as u8) {
            Some(TokenKind::Percent)
        } else if c == ('^' as u8) {
            Some(TokenKind::Caret)
        } else if c == ('~' as u8) {
            Some(TokenKind::Tilde)
        } else {
            None
        };
        if single.is_some() {
            self.advance();
            return single;
        }
        if c == ('=' as u8) {
            self.advance();
            if self.peek_eq('=' as u8) {
                self.advance();
                return Some(TokenKind::EqEq);
            } else if self.peek_eq('>' as u8) {
                self.advance();
                return Some(TokenKind::FatArrow);
            } else {
                return Some(TokenKind::Eq);
            }
        }
        if c == ('<' as u8) {
            self.advance();
            if self.peek_eq('=' as u8) {
                self.advance();
                return Some(TokenKind::Le);
            } else if self.peek_eq('<' as u8) {
                self.advance();
                return Some(TokenKind::Shl);
            } else {
                return Some(TokenKind::Lt);
            }
        }
        if c == ('>' as u8) {
            self.advance();
            if self.peek_eq('=' as u8) {
                self.advance();
                return Some(TokenKind::Ge);
            } else if self.peek_eq('>' as u8) {
                self.advance();
                return Some(TokenKind::Shr);
            } else {
                return Some(TokenKind::Gt);
            }
        }
        // Tokens of one or two bytes: the second byte, the two-byte token, the one-byte token.
        let pairing = if c == (':' as u8) {
            Some((':' as u8, TokenKind::ColonColon, TokenKind::Colon))
        } else if c == ('!' as u8) {
            Some(('=' as u8, TokenKind::BangEq, TokenKind::Bang))
        } else if c == ('&' as u8) {
            Some(('&' as u8, TokenKind::AmpAmp, TokenKind::Amp))
        } else if c == ('|' as u8) {
            Some(('|' as u8, TokenKind::PipePipe, TokenKind::Pipe))
        } else if c == ('-' as u8) {
            Some(('>' as u8, TokenKind::Arrow, TokenKind::Minus))
        } else {
            None
        };
        match pairing {
            Some((second, pair, one)) => {
                self.advance();
                if self.peek_eq(second) {
                    self.advance();
                    Some(pair)
                } else {
                    Some(one)
                }
            },
            None => None,
        }
    }

    /// A string literal, from its opening quote.
    fn lex_string(&mut self, line: usize, col: usize) -> (r: Result<TokenKind, Error>)
        requires
            old(self).wf(),
        ensures
            final(self).wf(),
            final(self).bytes() == old(self).bytes(),
            lexed(
                r,
                str_body(old(self).bytes(), adv(old(self).bytes(), old(self).st()), Seq::empty()),
                final(self).st(),
                line,
                col,
            ),
    {
        let ghost src = self.bytes();
        self.advance();  // the opening quote
        let ghost start = self.st();
        let mut s = String::new();
        loop
            invariant
                self.wf(),
                self.bytes() == src,
                src == old(self).bytes(),
                start == adv(src, old(self).st()),
                str_body(src, self.st(), s@) == str_body(src, start, Seq::empty()),
            decreases src.len() - self.pos,
        {
            match self.advance() {
                None => {
                    return Err(lex_error(line, col, String::from_str("unterminated string literal")));
                },
                Some(c) => {
                    if c == ('"' as u8) {
                        return Ok(TokenKind::StringLit(s));
                    } else if c == ('\\' as u8) {
                        match self.advance() {
                            None => {
                                return Err(
                                    lex_error(
                                        line,
                                        col,
                                        String::from_str("unterminated escape sequence"),
                                    ),
                                );
                            },
                            Some(d) => {
                                let e = if d == ('n' as u8) {
                                    '\n'
                                } else if d == ('t' as u8) {
                                    '\t'
                                } else if d == ('\\' as u8) {
                                    '\\'
                                } else if d == ('"' as u8) {
                                    '"'
                                } else {
                                    d as char
                                };
                                push_char(&mut s, e);
                            },
                        }
                    } else {
                        push_char(&mut s, c as char);
                    }
                },
            }
        }
    }

    /// A char literal, from its opening quote.
    fn lex_char(&mut self, line: usize, col: usize) -> (r: Result<TokenKind, Error>)
        requires
            old(self).wf(),
        ensures
            final(self).wf(),
            final(self).bytes() == old(self).bytes(),
            lexed(r, char_lit(old(self).bytes(), old(self).st()), final(self).st(), line, col),
    {
        self.advance();  // the opening quote
        let v: u32 = match self.advance() {
            None => {
                return Err(lex_error(line, col, String::from_str("unterminated char literal")));
            },
            Some(c) => {
                if c == ('\\' as u8) {
                    match self.char_escape(line, col) {
                        Ok(v) => v,
                        Err(e) => return Err(e),
                    }
                } else {
                    c as u32
                }
            },
        };
        let closed = match self.advance() {
            Some(c) => c == ('\'' as u8),
            None => false,
        };
        if !closed {
            return Err(lex_error(line, col, String::from_str("expected closing ' in char literal")));
        }
        Ok(TokenKind::CharLit(v))
    }

    /// The code of an escape in a char literal, after its backslash.
    fn char_escape(&mut self, line: usize, col: usize) -> (r: Result<u32, Error>)
        requires
            old(self).wf(),
        ensures
            final(self).wf(),
            final(self).bytes() == old(self).bytes(),
            match r {
                Ok(v) => char_escape(old(self).bytes(), old(self).st()) == Ok::<(u32, LexSt), Seq<char>>(
                    (v, final(self).st()),
                ),
                Err(e) => char_escape(old(self).bytes(), old(self).st()) == Err::<
                    (u32, LexSt),
                    Seq<char>,
                >(e.message@) && e.loc == Loc { line: line as u32, col: col as u32 },
            },
    {
        let ghost src = self.bytes();
        let d = match self.advance() {
            None => {
                return Err(lex_error(line, col, String::from_str("unterminated escape")));
            },
            Some(d) => d,
        };
        if d == ('n' as u8) {
            Ok(10)
        } else if d == ('t' as u8) {
            Ok(9)
        } else if d == ('r' as u8) {
            Ok(13)
        } else if d == ('\\' as u8) {
            Ok(92)
        } else if d == ('\'' as u8) {
            Ok(39)
        } else if d == ('"' as u8) {
            Ok(34)
        } else if d == ('0' as u8) {
            Ok(0)
        } else if d == ('u' as u8) {
            // `\u{XXXXXX}`
            let open = match self.advance() {
                Some(c) => c == ('{' as u8),
                None => false,
            };
            if !open {
                return Err(lex_error(line, col, String::from_str("expected '{' in unicode escape")));
            }
            let ghost start = self.st();
            let mut hex = String::new();
            loop
                invariant_except_break
                    unicode_body(src, self.st(), hex@) == unicode_body(src, start, Seq::empty()),
                invariant
                    self.wf(),
                    self.bytes() == src,
                    src == old(self).bytes(),
                    d == ('u' as u8),
                    byte_at(src, old(self).pos as nat) == Some(d),
                    peek_is(src, adv(src, old(self).st()), '{' as u8),
                    start == adv(src, adv(src, old(self).st())),
                ensures
                    self.wf(),
                    self.bytes() == src,
                    unicode_body(src, start, Seq::empty()) == Ok::<(Seq<char>, LexSt), Seq<char>>(
                        (hex@, self.st()),
                    ),
                decreases src.len() - self.pos,
            {
                match self.peek() {
                    Some(c) => {
                        if c == ('}' as u8) {
                            self.advance();
                            break;
                        } else if byte_is_hex(c) {
                            self.advance();
                            push_char(&mut hex, c as char);
                        } else {
                            return Err(lex_error(line, col, String::from_str("invalid unicode escape")));
                        }
                    },
                    None => {
                        return Err(lex_error(line, col, String::from_str("invalid unicode escape")));
                    },
                }
            }
            match parse_digits(hex.as_str(), 16, u32::MAX as u64) {
                Some(v) => Ok(v as u32),
                None => Err(lex_error(line, col, String::from_str("unicode escape out of range"))),
            }
        } else {
            let mut m = String::from_str("unknown escape '\\");
            push_char(&mut m, d as char);
            m.append("'");
            assert(m@ =~= "unknown escape '\\"@ + seq![d as char] + "'"@);
            Err(lex_error(line, col, m))
        }
    }

    /// An identifier or keyword.
    fn lex_ident_or_keyword(&mut self) -> (r: TokenKind)
        requires
            old(self).wf(),
        ensures
            final(self).wf(),
            final(self).bytes() == old(self).bytes(),
            (r@, final(self).st()) == ({
                let (name, st1) = scan(old(self).bytes(), old(self).st(), Seq::empty(), Class::Word);
                (keyword_m(name), st1)
            }),
    {
        let mut name = String::new();
        self.scan(Class::Word, &mut name);
        keyword(name)
    }

    /// A `0x`/`0b` literal, after the prefix.
    fn lex_radix(&mut self, k: Class, base: u64, prefix: &str, line: usize, col: usize) -> (r: Result<TokenKind, Error>)
        requires
            old(self).wf(),
            base == 16 || base == 2,
        ensures
            final(self).wf(),
            final(self).bytes() == old(self).bytes(),
            lexed(
                r,
                radix_lit(old(self).bytes(), old(self).st(), k, base as nat, prefix@),
                final(self).st(),
                line,
                col,
            ),
    {
        let mut s = String::new();
        self.scan(k, &mut s);
        match parse_digits(s.as_str(), base, i64::MAX as u64) {
            Some(v) => Ok(TokenKind::IntLit(v as i64)),
            None => {
                let mut m = String::from_str(prefix);
                m.append(s.as_str());
                m.append("' out of range");
                Err(lex_error(line, col, m))
            },
        }
    }

    /// A number literal, from its first digit.
    fn lex_number(&mut self, line: usize, col: usize) -> (r: Result<TokenKind, Error>)
        requires
            old(self).wf(),
        ensures
            final(self).wf(),
            final(self).bytes() == old(self).bytes(),
            lexed(r, number_lit(old(self).bytes(), old(self).st()), final(self).st(), line, col),
    {
        let ghost src = self.bytes();
        // `0x` (hex) or `0b` (binary) prefix
        let zero = self.peek_eq('0' as u8);
        let next = self.byte(self.pos + 1);
        let (hex, bin) = match next {
            Some(c) => (c == ('x' as u8) || c == ('X' as u8), c == ('b' as u8) || c == ('B' as u8)),
            None => (false, false),
        };
        if zero && hex {
            self.advance();
            self.advance();
            return self.lex_radix(Class::HexUs, 16, "hex literal '0x", line, col);
        }
        if zero && bin {
            self.advance();
            self.advance();
            return self.lex_radix(Class::BinUs, 2, "binary literal '0b", line, col);
        }
        let mut s = String::new();
        self.scan(Class::DecUs, &mut s);
        let ghost st1 = self.st();
        let ghost s0 = s@;
        let int_digits = s.as_str().unicode_len();
        // A float: digits followed by `.` (not `..`) or by an exponent.
        let dot = self.peek_eq('.' as u8);
        let dot_dot = match self.byte(self.pos + 1) {
            Some(c) => c == ('.' as u8),
            None => false,
        };
        let exp = self.peek_eq('e' as u8) || self.peek_eq('E' as u8);
        let is_float = dot && !dot_dot || exp;
        if is_float {
            if dot {
                push_char(&mut s, '.');
                self.advance();
                self.scan(Class::DecUs, &mut s);
            }
            let mut exp_ok = true;
            if self.peek_eq('e' as u8) || self.peek_eq('E' as u8) {
                push_char(&mut s, 'e');
                self.advance();
                if self.peek_eq('+' as u8) || self.peek_eq('-' as u8) {
                    match self.advance() {
                        Some(c) => push_char(&mut s, c as char),
                        None => {},
                    }
                }
                let before = s.as_str().unicode_len();
                self.scan(Class::Dec, &mut s);
                exp_ok = s.as_str().unicode_len() > before;
            }
            assert((s@, self.st(), exp_ok) == float_rest(src, st1, s0));
            // An optional `f32`/`f64` suffix.
            let suffix = if self.peek_eq('f' as u8) {
                let b1 = self.byte(self.pos + 1);
                let b2 = self.byte(self.pos + 2);
                match (b1, b2) {
                    (Some(x), Some(y)) => (x == ('3' as u8) && y == ('2' as u8)) || (x == ('6' as u8)
                        && y == ('4' as u8)),
                    _ => false,
                }
            } else {
                false
            };
            if suffix {
                self.advance();
                self.advance();
                self.advance();
            }
            if int_digits > 0 && exp_ok {
                return Ok(TokenKind::FloatLit(s));
            } else {
                let mut m = String::from_str("float literal '");
                m.append(s.as_str());
                m.append("' out of range");
                return Err(lex_error(line, col, m));
            }
        }
        match parse_digits(s.as_str(), 10, i64::MAX as u64) {
            Some(v) => Ok(TokenKind::IntLit(v as i64)),
            None => {
                let mut m = String::from_str("integer literal '");
                m.append(s.as_str());
                m.append("' out of range");
                Err(lex_error(line, col, m))
            },
        }
    }
}

} // verus!
