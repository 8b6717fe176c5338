//! Recursive-descent parser from tokens to the syntax tree.
//!
//! Every parsing method is proved to do what the rule of the same name in
//! [`grammar`] says: to return the model that the rule yields and to stop where the
//! rule stops, or to fail with the rule's diagnostic.
pub mod tree;
pub mod grammar;

use crate::ast::{
    BinOp, Block, EnumDecl, EnumVariant, Expr, ExprKind, FieldDecl, File, FnDecl, ImplBlock, Item,
    MatchArm, Param, Pat, PatBindings, Receiver, Stmt, StmtKind, StructDecl, Ty, TyM, UnOp,
    VariantFields, lemma_tys_view, tys_view,
};
use crate::error::{Error, ErrM};
use crate::lexer::{TokM, Token, TokenKind, TokenM, toks_view};
use crate::loc::Loc;
use crate::text::{
    cat, cat3, char_is_uppercase, debug_str, i64_to_string, is_upper, str_eq, to_owned,
    u64_to_string,
};
use self::grammar::{
    Parsed, bin_rank, s_parse, expect, expect_ident, fail_at, got, kind_at, kind_debug, left, loc_at, mk_expr,
    mk_stmt, named_ty, op_at, plain, s_args, s_arm_body, s_arm_stmt, s_arms, s_binary,
    s_binary_rest, s_block, s_call_args, s_cast, s_cast_rest, s_enum, s_expr, s_expr_stmt,
    s_field_decls, s_fn, s_ident_stmt, s_if, s_impl, s_inits, s_item, s_items, s_let, s_match,
    s_methods, s_named_binds, s_params, s_paren, s_pat, s_path, s_postfix, s_postfix_rest,
    s_primary, s_print_args, s_print_call, s_println, s_receiver_and_params, s_return, s_stmt,
    s_stmts, s_struct, s_tuple_binds, s_tuple_rest, s_ty, s_ty_list, s_ty_tuple, s_unary,
    s_unsafe_stmt, s_variant_fields, s_variant_pat, s_variants, s_while,
};
use self::tree::{
    ExprKindM, FieldM, FnM, ItemM, ParamM, StmtKindM, VariantM, arms_m, ekind_m, enum_m, expr_m,
    exprs_m, field_m, fields_m, file_m, fn_m, fns_m, impl_m, inits_m, item_m, items_m,
    lemma_arms_push, lemma_empty_m, lemma_exprs_push, lemma_inits_push, lemma_pats_push,
    lemma_stmts_push, lemma_tys_push, lemma_var_m, names_m, param_m, params_m, pat_m, pats_m,
    skind_m, stmt_m, stmts_m, struct_m, ty_opt_m, variant_m, variants_m, vfields_m,
};
use vstd::prelude::*;

verus! {

/// Whether the parser can be handed token sequence `t`: it ends with `Eof`, as the
/// lexer's output does. The parser never moves past the last token, so without a final
/// `Eof` a prefix operator there (`-`, `!`, `~`, `*`, `&`) would be read again and again
/// without end; such sequences are not accepted.
pub open spec fn parsable(t: Seq<TokenM>) -> bool {
    &&& t.len() > 0
    &&& t.last().kind is Eof
}

/// Whether the outcome `r` of a parsing method, which left the parser at position `q`,
/// is what rule outcome `s` says, with results taken to their models by `m`.
pub open spec fn agrees<A, M>(r: Result<A, Error>, s: Parsed<M>, m: spec_fn(A) -> M, q: nat) -> bool {
    match r {
        Ok(x) => s == Ok::<(M, nat), ErrM>((m(x), q)),
        Err(e) => s == Err::<(M, nat), ErrM>(e@),
    }
}

/// A number for each token kind, payloads left out.
pub open spec fn kind_code(k: TokM) -> u8 {
    match k {
        TokM::Fn => 0,
        TokM::Let => 1,
        TokM::Mut => 2,
        TokM::Return => 3,
        TokM::If => 4,
        TokM::Else => 5,
        TokM::While => 6,
        TokM::True => 7,
        TokM::False => 8,
        TokM::Struct => 9,
        TokM::Impl => 10,
        TokM::SelfKw => 11,
        TokM::Enum => 12,
        TokM::Match => 13,
        TokM::Unsafe => 14,
        TokM::As => 15,
        TokM::Ident(_) => 16,
        TokM::IntLit(_) => 17,
        TokM::FloatLit(_) => 18,
        TokM::CharLit(_) => 19,
        TokM::StringLit(_) => 20,
        TokM::Plus => 21,
        TokM::Minus => 22,
        TokM::Star => 23,
        TokM::Slash => 24,
        TokM::Percent => 25,
        TokM::Amp => 26,
        TokM::Pipe => 27,
        TokM::Caret => 28,
        TokM::Tilde => 29,
        TokM::Shl => 30,
        TokM::Shr => 31,
        TokM::EqEq => 32,
        TokM::BangEq => 33,
        TokM::Lt => 34,
        TokM::Gt => 35,
        TokM::Le => 36,
        TokM::Ge => 37,
        TokM::AmpAmp => 38,
        TokM::PipePipe => 39,
        TokM::LParen => 40,
        TokM::RParen => 41,
        TokM::LBrace => 42,
        TokM::RBrace => 43,
        TokM::Semicolon => 44,
        TokM::Comma => 45,
        TokM::Dot => 46,
        TokM::Colon => 47,
        TokM::ColonColon => 48,
        TokM::Eq => 49,
        TokM::Arrow => 50,
        TokM::FatArrow => 51,
        TokM::Bang => 52,
        TokM::Eof => 53,
    }
}

fn code(k: &TokenKind) -> (c: u8)
    ensures
        c == kind_code(k@),
{
    match k {
        TokenKind::Fn => 0,
        TokenKind::Let => 1,
        TokenKind::Mut => 2,
        TokenKind::Return => 3,
        TokenKind::If => 4,
        TokenKind::Else => 5,
        TokenKind::While => 6,
        TokenKind::True => 7,
        TokenKind::False => 8,
        TokenKind::Struct => 9,
        TokenKind::Impl => 10,
        TokenKind::SelfKw => 11,
        TokenKind::Enum => 12,
        TokenKind::Match => 13,
        TokenKind::Unsafe => 14,
        TokenKind::As => 15,
        TokenKind::Ident(_) => 16,
        TokenKind::IntLit(_) => 17,
        TokenKind::FloatLit(_) => 18,
        TokenKind::CharLit(_) => 19,
        TokenKind::StringLit(_) => 20,
        TokenKind::Plus => 21,
        TokenKind::Minus => 22,
        TokenKind::Star => 23,
        TokenKind::Slash => 24,
        TokenKind::Percent => 25,
        TokenKind::Amp => 26,
        TokenKind::Pipe => 27,
        TokenKind::Caret => 28,
        TokenKind::Tilde => 29,
        TokenKind::Shl => 30,
        TokenKind::Shr => 31,
        TokenKind::EqEq => 32,
        TokenKind::BangEq => 33,
        TokenKind::Lt => 34,
        TokenKind::Gt => 35,
        TokenKind::Le => 36,
        TokenKind::Ge => 37,
        TokenKind::AmpAmp => 38,
        TokenKind::PipePipe => 39,
        TokenKind::LParen => 40,
        TokenKind::RParen => 41,
        TokenKind::LBrace => 42,
        TokenKind::RBrace => 43,
        TokenKind::Semicolon => 44,
        TokenKind::Comma => 45,
        TokenKind::Dot => 46,
        TokenKind::Colon => 47,
        TokenKind::ColonColon => 48,
        TokenKind::Eq => 49,
        TokenKind::Arrow => 50,
        TokenKind::FatArrow => 51,
        TokenKind::Bang => 52,
        TokenKind::Eof => 53,
    }
}

/// Whether `a` is the payload-free kind `b`.
fn same_plain(a: &TokenKind, b: &TokenKind) -> (r: bool)
    requires
        plain(b@),
    ensures
        r == (a@ == b@),
{
    code(a) == code(b)
}

/// The `Debug` form of a token kind, as diagnostics print it.
fn debug_kind(k: &TokenKind) -> (s: String)
    ensures
        s@ == kind_debug(k@),
{
    proof {
        reveal(kind_debug);
    }
    match k {
        TokenKind::Fn => to_owned("Fn"),
        TokenKind::Let => to_owned("Let"),
        TokenKind::Mut => to_owned("Mut"),
        TokenKind::Return => to_owned("Return"),
        TokenKind::If => to_owned("If"),
        TokenKind::Else => to_owned("Else"),
        TokenKind::While => to_owned("While"),
        TokenKind::True => to_owned("True"),
        TokenKind::False => to_owned("False"),
        TokenKind::Struct => to_owned("Struct"),
        TokenKind::Impl => to_owned("Impl"),
        TokenKind::SelfKw => to_owned("SelfKw"),
        TokenKind::Enum => to_owned("Enum"),
        TokenKind::Match => to_owned("Match"),
        TokenKind::Unsafe => to_owned("Unsafe"),
        TokenKind::As => to_owned("As"),
        TokenKind::Plus => to_owned("Plus"),
        TokenKind::Minus => to_owned("Minus"),
        TokenKind::Star => to_owned("Star"),
        TokenKind::Slash => to_owned("Slash"),
        TokenKind::Percent => to_owned("Percent"),
        TokenKind::Amp => to_owned("Amp"),
        TokenKind::Pipe => to_owned("Pipe"),
        TokenKind::Caret => to_owned("Caret"),
        TokenKind::Tilde => to_owned("Tilde"),
        TokenKind::Shl => to_owned("Shl"),
        TokenKind::Shr => to_owned("Shr"),
        TokenKind::EqEq => to_owned("EqEq"),
        TokenKind::BangEq => to_owned("BangEq"),
        TokenKind::Lt => to_owned("Lt"),
        TokenKind::Gt => to_owned("Gt"),
        TokenKind::Le => to_owned("Le"),
        TokenKind::Ge => to_owned("Ge"),
        TokenKind::AmpAmp => to_owned("AmpAmp"),
        TokenKind::PipePipe => to_owned("PipePipe"),
        TokenKind::LParen => to_owned("LParen"),
        TokenKind::RParen => to_owned("RParen"),
        TokenKind::LBrace => to_owned("LBrace"),
        TokenKind::RBrace => to_owned("RBrace"),
        TokenKind::Semicolon => to_owned("Semicolon"),
        TokenKind::Comma => to_owned("Comma"),
        TokenKind::Dot => to_owned("Dot"),
        TokenKind::Colon => to_owned("Colon"),
        TokenKind::ColonColon => to_owned("ColonColon"),
        TokenKind::Eq => to_owned("Eq"),
        TokenKind::Arrow => to_owned("Arrow"),
        TokenKind::FatArrow => to_owned("FatArrow"),
        TokenKind::Bang => to_owned("Bang"),
        TokenKind::Eof => to_owned("Eof"),
        TokenKind::Ident(s) => {
            let d = debug_str(s.as_str());
            cat3("Ident(", d.as_str(), ")")
        },
        TokenKind::IntLit(n) => {
            let d = i64_to_string(*n);
            cat3("IntLit(", d.as_str(), ")")
        },
        TokenKind::FloatLit(s) => cat3("FloatLit(", s.as_str(), ")"),
        TokenKind::CharLit(c) => {
            let d = u64_to_string(*c as u64);
            cat3("CharLit(", d.as_str(), ")")
        },
        TokenKind::StringLit(s) => {
            let d = debug_str(s.as_str());
            cat3("StringLit(", d.as_str(), ")")
        },
    }
}

/// The message `expected <what>, got <k>`.
fn got_msg(what: &str, k: &TokenKind) -> (s: String)
    ensures
        s@ == got(what@, k@),
{
    let head = cat3("expected ", what, ", got ");
    let d = debug_kind(k);
    cat(head.as_str(), d.as_str())
}

pub struct Parser {
    tokens: Vec<Token>,
    pos: usize,
}

impl Parser {
    /// The tokens, as the grammar reads them.
    pub closed spec fn toks(&self) -> Seq<TokenM> {
        toks_view(self.tokens@)
    }

    /// The position of the next token.
    pub closed spec fn at(&self) -> nat {
        self.pos as nat
    }

    pub closed spec fn wf(&self) -> bool {
        &&& parsable(self.toks())
        &&& self.pos < self.tokens.len()
    }

    /// `self` is well formed, reads the same tokens as `prev`, and stands no earlier.
    pub closed spec fn follows(&self, prev: &Parser) -> bool {
        &&& self.wf()
        &&& self.toks() == prev.toks()
        &&& prev.at() <= self.at()
    }

    /// `tokens` is what the lexer produced: it ends with `Eof`.
    pub fn new(tokens: Vec<Token>) -> (r: Self)
        requires
            parsable(toks_view(tokens@)),
        ensures
            r.wf(),
            r.toks() == toks_view(tokens@),
            r.at() == 0,
    {
        Self { tokens, pos: 0 }
    }

    // --- helpers ---

    fn peek(&self) -> (k: &TokenKind)
        requires
            self.wf(),
        ensures
            k@ == kind_at(self.toks(), self.at()),
    {
        &self.tokens[self.pos].kind
    }

    fn at_eof(&self) -> (r: bool)
        requires
            self.wf(),
        ensures
            r == (kind_at(self.toks(), self.at()) is Eof),
    {
        matches!(self.peek(), TokenKind::Eof)
    }

    fn advance(&mut self)
        requires
            old(self).wf(),
            !(kind_at(old(self).toks(), old(self).at()) is Eof),
        ensures
            final(self).wf(),
            final(self).toks() == old(self).toks(),
            final(self).at() == old(self).at() + 1,
    {
        if self.pos + 1 < self.tokens.len() {
            self.pos += 1;
        }
    }

    fn here(&self) -> (l: Loc)
        requires
            self.wf(),
        ensures
            l == loc_at(self.toks(), self.at()),
    {
        let tok = &self.tokens[self.pos];
        Loc::new(tok.line as u32, tok.col as u32)
    }

    fn fail(&self, message: String) -> (e: Error)
        requires
            self.wf(),
        ensures
            e@ == fail_at(self.toks(), self.at(), message@),
    {
        Error::new(self.here(), message)
    }

    /// The diagnostic `expected <what>, got <next token>`.
    fn fail_got(&self, what: &str) -> (e: Error)
        requires
            self.wf(),
        ensures
            e@ == fail_at(self.toks(), self.at(), got(what@, kind_at(self.toks(), self.at()))),
    {
        let m = got_msg(what, self.peek());
        self.fail(m)
    }

    fn expect(&mut self, k: &TokenKind) -> (r: Result<(), Error>)
        requires
            old(self).wf(),
            plain(k@),
            !(k@ is Eof),
        ensures
            final(self).follows(old(self)),
            match r {
                Ok(_) => expect(old(self).toks(), old(self).at(), k@) == Ok::<nat, ErrM>(
                    final(self).at(),
                ),
                Err(e) => expect(old(self).toks(), old(self).at(), k@) == Err::<nat, ErrM>(e@),
            },
    {
        if same_plain(self.peek(), k) {
            self.advance();
            Ok(())
        } else {
            let d = debug_kind(k);
            Err(self.fail_got(d.as_str()))
        }
    }

    fn expect_ident(&mut self) -> (r: Result<String, Error>)
        requires
            old(self).wf(),
        ensures
            final(self).follows(old(self)),
            agrees(r, expect_ident(old(self).toks(), old(self).at()), |s: String| s@, final(self).at()),
    {
        match self.peek() {
            TokenKind::Ident(name) => {
                let name = name.clone();
                self.advance();
                Ok(name)
            },
            _ => Err(self.fail_got("identifier")),
        }
    }
}

/// The type that one identifier names: a primitive type, or a named type.
fn ty_named(name: &String) -> (t: Ty)
    ensures
        t@ == named_ty(name@),
{
    proof {
        reveal(named_ty);
    }
    let n = name.as_str();
    if str_eq(n, "i8") {
        Ty::I8
    } else if str_eq(n, "i16") {
        Ty::I16
    } else if str_eq(n, "i32") {
        Ty::I32
    } else if str_eq(n, "i64") {
        Ty::I64
    } else if str_eq(n, "isize") {
        Ty::Isize
    } else if str_eq(n, "u8") {
        Ty::U8
    } else if str_eq(n, "u16") {
        Ty::U16
    } else if str_eq(n, "u32") {
        Ty::U32
    } else if str_eq(n, "u64") {
        Ty::U64
    } else if str_eq(n, "usize") {
        Ty::Usize
    } else if str_eq(n, "bool") {
        Ty::Bool
    } else {
        Ty::Named(name.clone())
    }
}

impl Parser {
    // --- types ---

    fn parse_ty(&mut self) -> (r: Result<Ty, Error>)
        requires
            old(self).wf(),
        ensures
            final(self).follows(old(self)),
            agrees(r, s_ty(old(self).toks(), old(self).at()), |x: Ty| x@, final(self).at()),
            r is Ok ==> old(self).at() < final(self).at(),
        decreases left(old(self).toks(), old(self).at()), 1nat,
    {
        match self.peek() {
            TokenKind::Amp => {
                self.advance();
                if matches!(self.peek(), TokenKind::Mut) {
                    self.advance();
                    let inner = match self.parse_ty() {
                        Ok(x) => x,
                        Err(e) => return Err(e),
                    };
                    Ok(Ty::RefMut(Box::new(inner)))
                } else {
                    let inner = match self.parse_ty() {
                        Ok(x) => x,
                        Err(e) => return Err(e),
                    };
                    Ok(Ty::Ref(Box::new(inner)))
                }
            },
            TokenKind::Star => {
                self.advance();
                match self.peek() {
                    TokenKind::Ident(kw) => {
                        if str_eq(kw.as_str(), "const") {
                            self.advance();
                            let inner = match self.parse_ty() {
                                Ok(x) => x,
                                Err(e) => return Err(e),
                            };
                            Ok(Ty::RawConst(Box::new(inner)))
                        } else {
                            Err(self.fail(to_owned("expected `const` or `mut` after `*` in type")))
                        }
                    },
                    TokenKind::Mut => {
                        self.advance();
                        let inner = match self.parse_ty() {
                            Ok(x) => x,
                            Err(e) => return Err(e),
                        };
                        Ok(Ty::RawMut(Box::new(inner)))
                    },
                    _ => Err(self.fail(to_owned("expected `const` or `mut` after `*` in type"))),
                }
            },
            TokenKind::Ident(name) => {
                let ty = ty_named(name);
                self.advance();
                Ok(ty)
            },
            TokenKind::LParen => {
                self.advance();
                if matches!(self.peek(), TokenKind::RParen) {
                    self.advance();
                    return Ok(Ty::Unit);
                }
                let first = match self.parse_ty() {
                    Ok(x) => x,
                    Err(e) => return Err(e),
                };
                if matches!(self.peek(), TokenKind::Comma) {
                    let tys = match self.parse_ty_tuple(first) {
                        Ok(x) => x,
                        Err(e) => return Err(e),
                    };
                    match self.expect(&TokenKind::RParen) {
                        Ok(()) => Ok(Ty::Tuple(tys)),
                        Err(e) => Err(e),
                    }
                } else {
                    match self.expect(&TokenKind::RParen) {
                        Ok(()) => Ok(first),
                        Err(e) => Err(e),
                    }
                }
            },
            _ => Err(self.fail_got("type")),
        }
    }

    /// The types of a tuple type after its first: `, T` while a comma follows.
    fn parse_ty_tuple(&mut self, first: Ty) -> (r: Result<Vec<Ty>, Error>)
        requires
            old(self).wf(),
        ensures
            final(self).follows(old(self)),
            agrees(
                r,
                s_ty_tuple(old(self).toks(), old(self).at(), seq![first@]),
                |v: Vec<Ty>| tys_view(v@),
                final(self).at(),
            ),
        decreases left(old(self).toks(), old(self).at()), 0nat,
    {
        let ghost t = self.toks();
        let ghost p0 = self.at();
        let ghost first_m = first@;
        let mut tys: Vec<Ty> = Vec::new();
        tys.push(first);
        proof {
            lemma_tys_view(tys@);
            assert(tys_view(tys@) =~= seq![first_m]);
        }
        loop
            invariant
                self.wf(),
                self.toks() == t,
                t == old(self).toks(),
                p0 == old(self).at(),
                first_m == first@,
                p0 <= self.at(),
                s_ty_tuple(t, p0, seq![first_m]) == s_ty_tuple(t, self.at(), tys_view(tys@)),
            decreases t.len() - self.at(),
        {
            if !matches!(self.peek(), TokenKind::Comma) {
                return Ok(tys);
            }
            self.advance();
            if matches!(self.peek(), TokenKind::RParen) {
                return Ok(tys);
            }
            let ty = match self.parse_ty() {
                Ok(x) => x,
                Err(e) => return Err(e),
            };
            proof {
                lemma_tys_push(tys@, ty);
            }
            tys.push(ty);
        }
    }
}

/// Whether `name` starts with an uppercase character.
fn starts_upper(name: &String) -> (r: bool)
    ensures
        r == (name@.len() > 0 && is_upper(name@[0])),
{
    let n = name.as_str();
    if n.unicode_len() == 0 {
        false
    } else {
        char_is_uppercase(n.get_char(0))
    }
}

impl Parser {
    // --- patterns ---

    fn parse_pat(&mut self) -> (r: Result<Pat, Error>)
        requires
            old(self).wf(),
        ensures
            final(self).follows(old(self)),
            agrees(r, s_pat(old(self).toks(), old(self).at()), |x: Pat| pat_m(x), final(self).at()),
            r is Ok ==> old(self).at() < final(self).at(),
    {
        match self.peek() {
            TokenKind::Ident(name) => {
                if str_eq(name.as_str(), "_") {
                    self.advance();
                    Ok(Pat::Wildcard)
                } else if starts_upper(name) {
                    let ty_name = name.clone();
                    self.advance();
                    self.parse_variant_pat(ty_name)
                } else {
                    Err(self.fail_got("pattern"))
                }
            },
            TokenKind::True => {
                self.advance();
                Ok(Pat::Bool(true))
            },
            TokenKind::False => {
                self.advance();
                Ok(Pat::Bool(false))
            },
            TokenKind::IntLit(n) => {
                let n = *n;
                self.advance();
                Ok(Pat::Int(n))
            },
            TokenKind::Minus => {
                let minus = self.here();
                self.advance();
                match self.peek() {
                    TokenKind::IntLit(n) => {
                        // Negation wraps: `-i64::MIN` is `i64::MIN`.
                        let n = if *n == i64::MIN {
                            *n
                        } else {
                            -*n
                        };
                        self.advance();
                        Ok(Pat::Int(n))
                    },
                    _ => Err(Error::new(minus, to_owned("expected integer after `-` in pattern"))),
                }
            },
            _ => Err(self.fail_got("pattern")),
        }
    }

    /// `::Variant` and its bindings, after the enum's name.
    fn parse_variant_pat(&mut self, ty_name: String) -> (r: Result<Pat, Error>)
        requires
            old(self).wf(),
        ensures
            final(self).follows(old(self)),
            agrees(
                r,
                s_variant_pat(old(self).toks(), old(self).at(), ty_name@),
                |x: Pat| pat_m(x),
                final(self).at(),
            ),
            r is Ok ==> old(self).at() < final(self).at(),
    {
        match self.expect(&TokenKind::ColonColon) {
            Ok(()) => {},
            Err(e) => return Err(e),
        }
        let variant = match self.expect_ident() {
            Ok(x) => x,
            Err(e) => return Err(e),
        };
        if matches!(self.peek(), TokenKind::LParen) {
            self.advance();
            let binds = match self.parse_tuple_binds() {
                Ok(x) => x,
                Err(e) => return Err(e),
            };
            match self.expect(&TokenKind::RParen) {
                Ok(()) => Ok(Pat::EnumVariant { ty_name, variant, bindings: PatBindings::Tuple(binds) }),
                Err(e) => Err(e),
            }
        } else if matches!(self.peek(), TokenKind::LBrace) {
            self.advance();
            let binds = match self.parse_named_binds() {
                Ok(x) => x,
                Err(e) => return Err(e),
            };
            match self.expect(&TokenKind::RBrace) {
                Ok(()) => Ok(
                    Pat::EnumVariant { ty_name, variant, bindings: PatBindings::Named(binds, false) },
                ),
                Err(e) => Err(e),
            }
        } else {
            Ok(Pat::EnumVariant { ty_name, variant, bindings: PatBindings::Empty })
        }
    }

    /// Comma-separated names up to `)`.
    fn parse_tuple_binds(&mut self) -> (r: Result<Vec<Pat>, Error>)
        requires
            old(self).wf(),
        ensures
            final(self).follows(old(self)),
            agrees(
                r,
                s_tuple_binds(old(self).toks(), old(self).at(), Seq::empty()),
                |v: Vec<Pat>| pats_m(v@),
                final(self).at(),
            ),
    {
        let ghost t = self.toks();
        let ghost p0 = self.at();
        let mut binds: Vec<Pat> = Vec::new();
        proof {
            lemma_empty_m();
        }
        loop
            invariant
                self.wf(),
                self.toks() == t,
                t == old(self).toks(),
                p0 == old(self).at(),
                p0 <= self.at(),
                pats_m(binds@).len() == binds@.len(),
                s_tuple_binds(t, p0, Seq::empty()) == s_tuple_binds(t, self.at(), pats_m(binds@)),
            decreases t.len() - self.at(),
        {
            if matches!(self.peek(), TokenKind::RParen) || self.at_eof() {
                return Ok(binds);
            }
            if binds.len() > 0 {
                match self.expect(&TokenKind::Comma) {
                    Ok(()) => {},
                    Err(e) => return Err(e),
                }
            }
            let name = match self.expect_ident() {
                Ok(x) => x,
                Err(e) => return Err(e),
            };
            let b = Pat::Binding(name);
            proof {
                lemma_pats_push(binds@, b);
            }
            binds.push(b);
        }
    }

    /// Comma-separated `field` or `field: name` up to `}`.
    fn parse_named_binds(&mut self) -> (r: Result<Vec<(String, String)>, Error>)
        requires
            old(self).wf(),
        ensures
            final(self).follows(old(self)),
            agrees(
                r,
                s_named_binds(old(self).toks(), old(self).at(), Seq::empty()),
                |v: Vec<(String, String)>| names_m(v@),
                final(self).at(),
            ),
    {
        let ghost t = self.toks();
        let ghost p0 = self.at();
        let mut binds: Vec<(String, String)> = Vec::new();
        assert(names_m(binds@) =~= Seq::<(Seq<char>, Seq<char>)>::empty());
        loop
            invariant
                self.wf(),
                self.toks() == t,
                t == old(self).toks(),
                p0 == old(self).at(),
                p0 <= self.at(),
                s_named_binds(t, p0, Seq::empty()) == s_named_binds(t, self.at(), names_m(binds@)),
            decreases t.len() - self.at(),
        {
            if matches!(self.peek(), TokenKind::RBrace) || self.at_eof() {
                return Ok(binds);
            }
            if binds.len() > 0 {
                match self.expect(&TokenKind::Comma) {
                    Ok(()) => {},
                    Err(e) => return Err(e),
                }
            }
            if matches!(self.peek(), TokenKind::RBrace) {
                return Ok(binds);
            }
            let field = match self.expect_ident() {
                Ok(x) => x,
                Err(e) => return Err(e),
            };
            let binding = if matches!(self.peek(), TokenKind::Colon) {
                self.advance();
                match self.expect_ident() {
                    Ok(x) => x,
                    Err(e) => return Err(e),
                }
            } else {
                field.clone()
            };
            let pair = (field, binding);
            proof {
                assert(names_m(binds@.push(pair)) =~= names_m(binds@).push((pair.0@, pair.1@)));
            }
            binds.push(pair);
        }
    }
}

// ---------------------------------------------------------------------------
// Building nodes, with their models
// ---------------------------------------------------------------------------

fn e_int(n: i64, loc: Loc) -> (e: Expr)
    ensures
        expr_m(e) == mk_expr(ExprKindM::Int(n), loc),
{
    proof {
        reveal(ekind_m);
    }
    Expr { kind: ExprKind::Int(n, None), loc }
}

fn e_bool(b: bool, loc: Loc) -> (e: Expr)
    ensures
        expr_m(e) == mk_expr(ExprKindM::Bool(b), loc),
{
    proof {
        reveal(ekind_m);
    }
    Expr { kind: ExprKind::Bool(b), loc }
}

fn e_var(name: String, loc: Loc) -> (e: Expr)
    ensures
        expr_m(e) == mk_expr(ExprKindM::Var(name@), loc),
{
    proof {
        reveal(ekind_m);
    }
    Expr { kind: ExprKind::Var(name), loc }
}

fn e_tuple(elems: Vec<Expr>, loc: Loc) -> (e: Expr)
    ensures
        expr_m(e) == mk_expr(ExprKindM::Tuple(exprs_m(elems@)), loc),
{
    proof {
        reveal(ekind_m);
    }
    Expr { kind: ExprKind::Tuple(elems), loc }
}

fn e_struct_lit(name: String, fields: Vec<(String, Expr)>, loc: Loc) -> (e: Expr)
    ensures
        expr_m(e) == mk_expr(ExprKindM::StructLit(name@, inits_m(fields@)), loc),
{
    proof {
        reveal(ekind_m);
    }
    Expr { kind: ExprKind::StructLit { name, fields, rest: None }, loc }
}

fn e_enum_struct_lit(ty_name: String, variant: String, fields: Vec<(String, Expr)>, loc: Loc) -> (e:
    Expr)
    ensures
        expr_m(e) == mk_expr(
            ExprKindM::EnumStructLit(ty_name@, variant@, inits_m(fields@)),
            loc,
        ),
{
    proof {
        reveal(ekind_m);
    }
    Expr { kind: ExprKind::EnumStructLit { ty_name, variant, fields }, loc }
}

fn e_field(base: Expr, field: String, loc: Loc) -> (e: Expr)
    ensures
        expr_m(e) == mk_expr(ExprKindM::Field(Box::new(expr_m(base)), field@), loc),
{
    proof {
        reveal(ekind_m);
    }
    Expr { kind: ExprKind::Field { expr: Box::new(base), field }, loc }
}

fn e_call(name: String, args: Vec<Expr>, loc: Loc) -> (e: Expr)
    ensures
        expr_m(e) == mk_expr(ExprKindM::Call(name@, exprs_m(args@)), loc),
{
    proof {
        reveal(ekind_m);
    }
    Expr { kind: ExprKind::Call { name, args }, loc }
}

fn e_assoc_call(ty_name: String, method: String, args: Vec<Expr>, loc: Loc) -> (e: Expr)
    ensures
        expr_m(e) == mk_expr(ExprKindM::AssocCall(ty_name@, method@, exprs_m(args@)), loc),
{
    proof {
        reveal(ekind_m);
    }
    Expr { kind: ExprKind::AssocCall { ty_name, method, args }, loc }
}

fn e_method_call(base: Expr, method: String, args: Vec<Expr>, loc: Loc) -> (e: Expr)
    ensures
        expr_m(e) == mk_expr(
            ExprKindM::MethodCall(Box::new(expr_m(base)), method@, exprs_m(args@)),
            loc,
        ),
{
    proof {
        reveal(ekind_m);
    }
    Expr { kind: ExprKind::MethodCall { expr: Box::new(base), method, args }, loc }
}

fn e_unop(op: UnOp, operand: Expr, loc: Loc) -> (e: Expr)
    ensures
        expr_m(e) == mk_expr(ExprKindM::UnOp(op, Box::new(expr_m(operand))), loc),
{
    proof {
        reveal(ekind_m);
    }
    Expr { kind: ExprKind::UnOp { op, operand: Box::new(operand) }, loc }
}

fn e_binop(op: BinOp, lhs: Expr, rhs: Expr, loc: Loc) -> (e: Expr)
    ensures
        expr_m(e) == mk_expr(
            ExprKindM::BinOp(op, Box::new(expr_m(lhs)), Box::new(expr_m(rhs))),
            loc,
        ),
{
    proof {
        reveal(ekind_m);
    }
    Expr { kind: ExprKind::BinOp { op, lhs: Box::new(lhs), rhs: Box::new(rhs) }, loc }
}

fn e_addr_of(mutable: bool, operand: Expr, loc: Loc) -> (e: Expr)
    ensures
        expr_m(e) == mk_expr(ExprKindM::AddrOf(mutable, Box::new(expr_m(operand))), loc),
{
    proof {
        reveal(ekind_m);
    }
    Expr { kind: ExprKind::AddrOf { mutable, expr: Box::new(operand) }, loc }
}

fn e_deref(operand: Expr, loc: Loc) -> (e: Expr)
    ensures
        expr_m(e) == mk_expr(ExprKindM::Deref(Box::new(expr_m(operand))), loc),
{
    proof {
        reveal(ekind_m);
    }
    Expr { kind: ExprKind::Deref(Box::new(operand)), loc }
}

fn e_cast(operand: Expr, ty: Ty, loc: Loc) -> (e: Expr)
    ensures
        expr_m(e) == mk_expr(ExprKindM::Cast(Box::new(expr_m(operand)), ty@), loc),
{
    proof {
        reveal(ekind_m);
    }
    Expr { kind: ExprKind::Cast { expr: Box::new(operand), ty }, loc }
}

fn e_unsafe(block: Block, loc: Loc) -> (e: Expr)
    ensures
        expr_m(e) == mk_expr(ExprKindM::Unsafe(stmts_m(block.stmts@)), loc),
{
    proof {
        reveal(ekind_m);
    }
    Expr { kind: ExprKind::Unsafe(block), loc }
}

fn s_let_node(name: String, mutable: bool, ty: Option<Ty>, init: Expr, loc: Loc) -> (s: Stmt)
    ensures
        stmt_m(s) == mk_stmt(
            StmtKindM::Let(name@, mutable, ty_opt_m(ty), expr_m(init)),
            loc,
        ),
{
    proof {
        reveal(skind_m);
    }
    Stmt { kind: StmtKind::Let { name, mutable, ty, expr: init }, loc }
}

fn s_assign_node(name: String, value: Expr, loc: Loc) -> (s: Stmt)
    ensures
        stmt_m(s) == mk_stmt(StmtKindM::Assign(name@, expr_m(value)), loc),
{
    proof {
        reveal(skind_m);
    }
    Stmt { kind: StmtKind::Assign { name, expr: value }, loc }
}

fn s_return_node(value: Option<Expr>, loc: Loc) -> (s: Stmt)
    ensures
        stmt_m(s) == mk_stmt(
            StmtKindM::Return(
                match value {
                    Some(e) => Some(expr_m(e)),
                    None => None,
                },
            ),
            loc,
        ),
{
    proof {
        reveal(skind_m);
    }
    Stmt { kind: StmtKind::Return(value), loc }
}

fn s_if_node(cond: Expr, then_block: Block, else_block: Option<Block>, loc: Loc) -> (s: Stmt)
    ensures
        stmt_m(s) == mk_stmt(
            StmtKindM::If(
                expr_m(cond),
                stmts_m(then_block.stmts@),
                match else_block {
                    Some(b) => Some(stmts_m(b.stmts@)),
                    None => None,
                },
            ),
            loc,
        ),
{
    proof {
        reveal(skind_m);
    }
    Stmt { kind: StmtKind::If { cond, then_block, else_block }, loc }
}

fn s_while_node(cond: Expr, body: Block, loc: Loc) -> (s: Stmt)
    ensures
        stmt_m(s) == mk_stmt(StmtKindM::While(expr_m(cond), stmts_m(body.stmts@)), loc),
{
    proof {
        reveal(skind_m);
    }
    Stmt { kind: StmtKind::While { cond, body }, loc }
}

fn s_match_node(scrutinee: Expr, arms: Vec<MatchArm>, loc: Loc) -> (s: Stmt)
    ensures
        stmt_m(s) == mk_stmt(StmtKindM::Match(expr_m(scrutinee), arms_m(arms@)), loc),
{
    proof {
        reveal(skind_m);
    }
    Stmt { kind: StmtKind::Match { expr: scrutinee, arms, scrutinee_ty: None }, loc }
}

fn s_println_node(format: String, args: Vec<Expr>, loc: Loc) -> (s: Stmt)
    ensures
        stmt_m(s) == mk_stmt(StmtKindM::Println(format@, exprs_m(args@)), loc),
{
    proof {
        reveal(skind_m);
    }
    Stmt { kind: StmtKind::Println { format, args }, loc }
}

fn s_expr_node(e: Expr, loc: Loc) -> (s: Stmt)
    ensures
        stmt_m(s) == mk_stmt(StmtKindM::Expr(expr_m(e)), loc),
{
    proof {
        reveal(skind_m);
    }
    Stmt { kind: StmtKind::Expr(e), loc }
}

/// The binary operator that `k` stands for at precedence level `level`.
fn binop_at(level: u8, k: &TokenKind) -> (r: Option<BinOp>)
    ensures
        r == op_at(level as nat, k@),
{
    match level {
        0 => match k {
            TokenKind::PipePipe => Some(BinOp::Or),
            _ => None,
        },
        1 => match k {
            TokenKind::AmpAmp => Some(BinOp::And),
            _ => None,
        },
        2 => match k {
            TokenKind::EqEq => Some(BinOp::Eq),
            TokenKind::BangEq => Some(BinOp::Ne),
            _ => None,
        },
        3 => match k {
            TokenKind::Lt => Some(BinOp::Lt),
            TokenKind::Gt => Some(BinOp::Gt),
            TokenKind::Le => Some(BinOp::Le),
            TokenKind::Ge => Some(BinOp::Ge),
            _ => None,
        },
        4 => match k {
            TokenKind::Pipe => Some(BinOp::BitOr),
            _ => None,
        },
        5 => match k {
            TokenKind::Caret => Some(BinOp::BitXor),
            _ => None,
        },
        6 => match k {
            TokenKind::Amp => Some(BinOp::BitAnd),
            _ => None,
        },
        7 => match k {
            TokenKind::Shl => Some(BinOp::Shl),
            TokenKind::Shr => Some(BinOp::Shr),
            _ => None,
        },
        8 => match k {
            TokenKind::Plus => Some(BinOp::Add),
            TokenKind::Minus => Some(BinOp::Sub),
            _ => None,
        },
        _ => match k {
            TokenKind::Star => Some(BinOp::Mul),
            TokenKind::Slash => Some(BinOp::Div),
            TokenKind::Percent => Some(BinOp::Rem),
            _ => None,
        },
    }
}

impl Parser {
    // --- blocks and statements ---

    fn parse_block(&mut self) -> (r: Result<Block, Error>)
        requires
            old(self).wf(),
        ensures
            final(self).follows(old(self)),
            agrees(
                r,
                s_block(old(self).toks(), old(self).at()),
                |b: Block| stmts_m(b.stmts@),
                final(self).at(),
            ),
            r is Ok ==> old(self).at() < final(self).at(),
        decreases left(old(self).toks(), old(self).at()), 50nat,
    {
        match self.expect(&TokenKind::LBrace) {
            Ok(()) => {},
            Err(e) => return Err(e),
        }
        let stmts = match self.parse_stmts() {
            Ok(x) => x,
            Err(e) => return Err(e),
        };
        match self.expect(&TokenKind::RBrace) {
            Ok(()) => Ok(Block { stmts }),
            Err(e) => Err(e),
        }
    }

    /// Statements up to `}`.
    fn parse_stmts(&mut self) -> (r: Result<Vec<Stmt>, Error>)
        requires
            old(self).wf(),
        ensures
            final(self).follows(old(self)),
            agrees(
                r,
                s_stmts(old(self).toks(), old(self).at(), Seq::empty()),
                |v: Vec<Stmt>| stmts_m(v@),
                final(self).at(),
            ),
        decreases left(old(self).toks(), old(self).at()), 49nat,
    {
        let ghost t = self.toks();
        let ghost p0 = self.at();
        let mut stmts: Vec<Stmt> = Vec::new();
        proof {
            lemma_empty_m();
        }
        loop
            invariant
                self.wf(),
                self.toks() == t,
                t == old(self).toks(),
                p0 == old(self).at(),
                p0 <= self.at(),
                s_stmts(t, p0, Seq::empty()) == s_stmts(t, self.at(), stmts_m(stmts@)),
            decreases t.len() - self.at(),
        {
            if matches!(self.peek(), TokenKind::RBrace) || self.at_eof() {
                return Ok(stmts);
            }
            let st = match self.parse_stmt() {
                Ok(x) => x,
                Err(e) => return Err(e),
            };
            proof {
                lemma_stmts_push(stmts@, st);
            }
            stmts.push(st);
        }
    }

    #[verifier::spinoff_prover]
    #[verifier::rlimit(100)]
    fn parse_stmt(&mut self) -> (r: Result<Stmt, Error>)
        requires
            old(self).wf(),
        ensures
            final(self).follows(old(self)),
            agrees(r, s_stmt(old(self).toks(), old(self).at()), |x: Stmt| stmt_m(x), final(self).at()),
            r is Ok ==> old(self).at() < final(self).at(),
        decreases left(old(self).toks(), old(self).at()), 48nat,
    {
        let loc = self.here();
        match self.peek() {
            TokenKind::Let => self.parse_let(),
            TokenKind::Return => self.parse_return(),
            TokenKind::If => self.parse_if(),
            TokenKind::While => self.parse_while(),
            TokenKind::Match => self.parse_match(),
            TokenKind::Unsafe => self.parse_unsafe_stmt(),
            TokenKind::Ident(name) => {
                if str_eq(name.as_str(), "println") {
                    self.parse_println()
                } else {
                    self.parse_ident_stmt()
                }
            },
            TokenKind::SelfKw => self.parse_ident_stmt(),
            // Any other expression: an assignment through a place, or a tail value.
            _ => self.parse_expr_stmt(),
        }
    }

    /// `unsafe { ... }` as a statement wraps the block.
    fn parse_unsafe_stmt(&mut self) -> (r: Result<Stmt, Error>)
        requires
            old(self).wf(),
        ensures
            final(self).follows(old(self)),
            agrees(
                r,
                s_unsafe_stmt(old(self).toks(), old(self).at()),
                |x: Stmt| stmt_m(x),
                final(self).at(),
            ),
            r is Ok ==> old(self).at() < final(self).at(),
        decreases left(old(self).toks(), old(self).at()), 47nat,
    {
        let loc = self.here();
        match self.expect(&TokenKind::Unsafe) {
            Ok(()) => {},
            Err(e) => return Err(e),
        }
        let block = match self.parse_block() {
            Ok(x) => x,
            Err(e) => return Err(e),
        };
        let e = e_unsafe(block, loc);
        // As the block's last statement, it is the block's value.
        if matches!(self.peek(), TokenKind::RBrace) {
            return Ok(s_return_node(Some(e), loc));
        }
        if matches!(self.peek(), TokenKind::Semicolon) {
            self.advance();
        }
        Ok(s_expr_node(e, loc))
    }

    #[verifier::spinoff_prover]
    #[verifier::rlimit(40)]
    fn parse_let(&mut self) -> (r: Result<Stmt, Error>)
        requires
            old(self).wf(),
        ensures
            final(self).follows(old(self)),
            agrees(r, s_let(old(self).toks(), old(self).at()), |x: Stmt| stmt_m(x), final(self).at()),
            r is Ok ==> old(self).at() < final(self).at(),
        decreases left(old(self).toks(), old(self).at()), 47nat,
    {
        let loc = self.here();
        match self.expect(&TokenKind::Let) {
            Ok(()) => {},
            Err(e) => return Err(e),
        }
        let mutable = if matches!(self.peek(), TokenKind::Mut) {
            self.advance();
            true
        } else {
            false
        };
        let name = match self.expect_ident() {
            Ok(x) => x,
            Err(e) => return Err(e),
        };
        let ty = if matches!(self.peek(), TokenKind::Colon) {
            self.advance();
            match self.parse_ty() {
                Ok(x) => Some(x),
                Err(e) => return Err(e),
            }
        } else {
            None
        };
        match self.expect(&TokenKind::Eq) {
            Ok(()) => {},
            Err(e) => return Err(e),
        }
        let init = match self.parse_expr() {
            Ok(x) => x,
            Err(e) => return Err(e),
        };
        match self.expect(&TokenKind::Semicolon) {
            Ok(()) => Ok(s_let_node(name, mutable, ty, init, loc)),
            Err(e) => Err(e),
        }
    }

    /// An expression statement that starts with an identifier or `self`.
    #[verifier::spinoff_prover]
    #[verifier::rlimit(40)]
    fn parse_ident_stmt(&mut self) -> (r: Result<Stmt, Error>)
        requires
            old(self).wf(),
        ensures
            final(self).follows(old(self)),
            agrees(
                r,
                s_ident_stmt(old(self).toks(), old(self).at()),
                |x: Stmt| stmt_m(x),
                final(self).at(),
            ),
            r is Ok ==> old(self).at() < final(self).at(),
        decreases left(old(self).toks(), old(self).at()), 47nat,
    {
        let loc = self.here();
        let lhs = match self.parse_expr() {
            Ok(x) => x,
            Err(e) => return Err(e),
        };
        if matches!(self.peek(), TokenKind::Eq) {
            self.advance();
            let rhs = match self.parse_expr() {
                Ok(x) => x,
                Err(e) => return Err(e),
            };
            match self.expect(&TokenKind::Semicolon) {
                Ok(()) => {},
                Err(e) => return Err(e),
            }
            proof {
                lemma_var_m(lhs.kind);
            }
            let Expr { kind: lhs_kind, loc: lhs_loc } = lhs;
            let st = match lhs_kind {
                ExprKind::Var(name) => s_assign_node(name, rhs, loc),
                other => {
                    let place = Expr { kind: other, loc: lhs_loc };
                    s_expr_node(e_binop(BinOp::Eq, place, rhs, loc), loc)
                },
            };
            return Ok(st);
        }
        // Implicit tail return: last expression in a block without `;`
        if matches!(self.peek(), TokenKind::RBrace) {
            return Ok(s_return_node(Some(lhs), loc));
        }
        match self.expect(&TokenKind::Semicolon) {
            Ok(()) => Ok(s_expr_node(lhs, loc)),
            Err(e) => Err(e),
        }
    }

    /// Any other expression statement.
    #[verifier::spinoff_prover]
    #[verifier::rlimit(40)]
    fn parse_expr_stmt(&mut self) -> (r: Result<Stmt, Error>)
        requires
            old(self).wf(),
        ensures
            final(self).follows(old(self)),
            agrees(
                r,
                s_expr_stmt(old(self).toks(), old(self).at()),
                |x: Stmt| stmt_m(x),
                final(self).at(),
            ),
            r is Ok ==> old(self).at() < final(self).at(),
        decreases left(old(self).toks(), old(self).at()), 47nat,
    {
        let loc = self.here();
        let lhs = match self.parse_expr() {
            Ok(x) => x,
            Err(e) => return Err(e),
        };
        // `*ptr = rhs;` and `expr.field = rhs;` assign through a place
        if matches!(self.peek(), TokenKind::Eq) {
            self.advance();
            let rhs = match self.parse_expr() {
                Ok(x) => x,
                Err(e) => return Err(e),
            };
            match self.expect(&TokenKind::Semicolon) {
                Ok(()) => {},
                Err(e) => return Err(e),
            }
            return Ok(s_expr_node(e_binop(BinOp::Eq, lhs, rhs, loc), loc));
        }
        if matches!(self.peek(), TokenKind::RBrace) {
            return Ok(s_return_node(Some(lhs), loc));
        }
        match self.expect(&TokenKind::Semicolon) {
            Ok(()) => Ok(s_expr_node(lhs, loc)),
            Err(e) => Err(e),
        }
    }

    fn parse_return(&mut self) -> (r: Result<Stmt, Error>)
        requires
            old(self).wf(),
        ensures
            final(self).follows(old(self)),
            agrees(r, s_return(old(self).toks(), old(self).at()), |x: Stmt| stmt_m(x), final(self).at()),
            r is Ok ==> old(self).at() < final(self).at(),
        decreases left(old(self).toks(), old(self).at()), 47nat,
    {
        let loc = self.here();
        match self.expect(&TokenKind::Return) {
            Ok(()) => {},
            Err(e) => return Err(e),
        }
        if matches!(self.peek(), TokenKind::Semicolon) {
            self.advance();
            Ok(s_return_node(None, loc))
        } else {
            let e = match self.parse_expr() {
                Ok(x) => x,
                Err(e) => return Err(e),
            };
            match self.expect(&TokenKind::Semicolon) {
                Ok(()) => Ok(s_return_node(Some(e), loc)),
                Err(err) => Err(err),
            }
        }
    }

    #[verifier::spinoff_prover]
    #[verifier::rlimit(40)]
    fn parse_if(&mut self) -> (r: Result<Stmt, Error>)
        requires
            old(self).wf(),
        ensures
            final(self).follows(old(self)),
            agrees(r, s_if(old(self).toks(), old(self).at()), |x: Stmt| stmt_m(x), final(self).at()),
            r is Ok ==> old(self).at() < final(self).at(),
        decreases left(old(self).toks(), old(self).at()), 47nat,
    {
        let loc = self.here();
        match self.expect(&TokenKind::If) {
            Ok(()) => {},
            Err(e) => return Err(e),
        }
        let cond = match self.parse_expr() {
            Ok(x) => x,
            Err(e) => return Err(e),
        };
        let then_block = match self.parse_block() {
            Ok(x) => x,
            Err(e) => return Err(e),
        };
        let else_block = if matches!(self.peek(), TokenKind::Else) {
            self.advance();
            if matches!(self.peek(), TokenKind::If) {
                let inner = match self.parse_if() {
                    Ok(x) => x,
                    Err(e) => return Err(e),
                };
                let mut stmts: Vec<Stmt> = Vec::new();
                proof {
                    lemma_empty_m();
                    lemma_stmts_push(stmts@, inner);
                }
                stmts.push(inner);
                assert(stmts_m(stmts@) =~= seq![stmt_m(inner)]);
                Some(Block { stmts })
            } else {
                match self.parse_block() {
                    Ok(x) => Some(x),
                    Err(e) => return Err(e),
                }
            }
        } else {
            None
        };
        Ok(s_if_node(cond, then_block, else_block, loc))
    }

    fn parse_while(&mut self) -> (r: Result<Stmt, Error>)
        requires
            old(self).wf(),
        ensures
            final(self).follows(old(self)),
            agrees(r, s_while(old(self).toks(), old(self).at()), |x: Stmt| stmt_m(x), final(self).at()),
            r is Ok ==> old(self).at() < final(self).at(),
        decreases left(old(self).toks(), old(self).at()), 47nat,
    {
        let loc = self.here();
        match self.expect(&TokenKind::While) {
            Ok(()) => {},
            Err(e) => return Err(e),
        }
        let cond = match self.parse_expr() {
            Ok(x) => x,
            Err(e) => return Err(e),
        };
        let body = match self.parse_block() {
            Ok(x) => x,
            Err(e) => return Err(e),
        };
        Ok(s_while_node(cond, body, loc))
    }

    fn parse_match(&mut self) -> (r: Result<Stmt, Error>)
        requires
            old(self).wf(),
        ensures
            final(self).follows(old(self)),
            agrees(r, s_match(old(self).toks(), old(self).at()), |x: Stmt| stmt_m(x), final(self).at()),
            r is Ok ==> old(self).at() < final(self).at(),
        decreases left(old(self).toks(), old(self).at()), 47nat,
    {
        let loc = self.here();
        match self.expect(&TokenKind::Match) {
            Ok(()) => {},
            Err(e) => return Err(e),
        }
        let scrutinee = match self.parse_expr() {
            Ok(x) => x,
            Err(e) => return Err(e),
        };
        match self.expect(&TokenKind::LBrace) {
            Ok(()) => {},
            Err(e) => return Err(e),
        }
        let arms = match self.parse_arms() {
            Ok(x) => x,
            Err(e) => return Err(e),
        };
        match self.expect(&TokenKind::RBrace) {
            Ok(()) => Ok(s_match_node(scrutinee, arms, loc)),
            Err(e) => Err(e),
        }
    }

    /// Match arms up to `}`.
    fn parse_arms(&mut self) -> (r: Result<Vec<MatchArm>, Error>)
        requires
            old(self).wf(),
        ensures
            final(self).follows(old(self)),
            agrees(
                r,
                s_arms(old(self).toks(), old(self).at(), Seq::empty()),
                |v: Vec<MatchArm>| arms_m(v@),
                final(self).at(),
            ),
        decreases left(old(self).toks(), old(self).at()), 46nat,
    {
        let ghost t = self.toks();
        let ghost p0 = self.at();
        let mut arms: Vec<MatchArm> = Vec::new();
        proof {
            lemma_empty_m();
        }
        loop
            invariant
                self.wf(),
                self.toks() == t,
                t == old(self).toks(),
                p0 == old(self).at(),
                p0 <= self.at(),
                s_arms(t, p0, Seq::empty()) == s_arms(t, self.at(), arms_m(arms@)),
            decreases t.len() - self.at(),
        {
            if matches!(self.peek(), TokenKind::RBrace) || self.at_eof() {
                return Ok(arms);
            }
            let pat = match self.parse_pat() {
                Ok(x) => x,
                Err(e) => return Err(e),
            };
            match self.expect(&TokenKind::FatArrow) {
                Ok(()) => {},
                Err(e) => return Err(e),
            }
            let body = match self.parse_arm_body() {
                Ok(x) => x,
                Err(e) => return Err(e),
            };
            if matches!(self.peek(), TokenKind::Comma) {
                self.advance();
            }
            let arm = MatchArm { pat, guard: None, body };
            proof {
                lemma_arms_push(arms@, arm);
            }
            arms.push(arm);
        }
    }

    /// A block, or a single statement standing for one.
    #[verifier::spinoff_prover]
    #[verifier::rlimit(40)]
    fn parse_arm_body(&mut self) -> (r: Result<Block, Error>)
        requires
            old(self).wf(),
        ensures
            final(self).follows(old(self)),
            agrees(
                r,
                s_arm_body(old(self).toks(), old(self).at()),
                |b: Block| stmts_m(b.stmts@),
                final(self).at(),
            ),
            r is Ok ==> old(self).at() < final(self).at(),
        decreases left(old(self).toks(), old(self).at()), 51nat,
    {
        if matches!(self.peek(), TokenKind::LBrace) {
            self.parse_block()
        } else {
            let st = match self.parse_arm_stmt() {
                Ok(x) => x,
                Err(e) => return Err(e),
            };
            let mut stmts: Vec<Stmt> = Vec::new();
            proof {
                lemma_empty_m();
                lemma_stmts_push(stmts@, st);
            }
            stmts.push(st);
            assert(stmts_m(stmts@) =~= seq![stmt_m(st)]);
            Ok(Block { stmts })
        }
    }

    #[verifier::spinoff_prover]
    #[verifier::rlimit(40)]
    fn parse_arm_stmt(&mut self) -> (r: Result<Stmt, Error>)
        requires
            old(self).wf(),
        ensures
            final(self).follows(old(self)),
            agrees(
                r,
                s_arm_stmt(old(self).toks(), old(self).at()),
                |x: Stmt| stmt_m(x),
                final(self).at(),
            ),
            r is Ok ==> old(self).at() < final(self).at(),
        decreases left(old(self).toks(), old(self).at()), 45nat,
    {
        let loc = self.here();
        let is_print = match self.peek() {
            TokenKind::Ident(name) => str_eq(name.as_str(), "println"),
            _ => false,
        };
        if is_print {
            let (format, args) = match self.parse_print_call() {
                Ok(x) => x,
                Err(e) => return Err(e),
            };
            if matches!(self.peek(), TokenKind::Semicolon) {
                self.advance();
            }
            Ok(s_println_node(format, args, loc))
        } else {
            let e = match self.parse_expr() {
                Ok(x) => x,
                Err(e) => return Err(e),
            };
            // A single-expression arm is the arm's value.
            if matches!(self.peek(), TokenKind::Semicolon) {
                self.advance();
                Ok(s_expr_node(e, loc))
            } else {
                Ok(s_return_node(Some(e), loc))
            }
        }
    }

    fn parse_println(&mut self) -> (r: Result<Stmt, Error>)
        requires
            old(self).wf(),
        ensures
            final(self).follows(old(self)),
            agrees(r, s_println(old(self).toks(), old(self).at()), |x: Stmt| stmt_m(x), final(self).at()),
            r is Ok ==> old(self).at() < final(self).at(),
        decreases left(old(self).toks(), old(self).at()), 47nat,
    {
        let loc = self.here();
        let (format, args) = match self.parse_print_call() {
            Ok(x) => x,
            Err(e) => return Err(e),
        };
        match self.expect(&TokenKind::Semicolon) {
            Ok(()) => Ok(s_println_node(format, args, loc)),
            Err(e) => Err(e),
        }
    }

    /// `println!("format", args...)`.
    fn parse_print_call(&mut self) -> (r: Result<(String, Vec<Expr>), Error>)
        requires
            old(self).wf(),
        ensures
            final(self).follows(old(self)),
            agrees(
                r,
                s_print_call(old(self).toks(), old(self).at()),
                |x: (String, Vec<Expr>)| (x.0@, exprs_m(x.1@)),
                final(self).at(),
            ),
            r is Ok ==> old(self).at() < final(self).at(),
        decreases left(old(self).toks(), old(self).at()), 44nat,
    {
        match self.expect_ident() {
            Ok(_) => {},
            Err(e) => return Err(e),
        }
        match self.expect(&TokenKind::Bang) {
            Ok(()) => {},
            Err(e) => return Err(e),
        }
        match self.expect(&TokenKind::LParen) {
            Ok(()) => {},
            Err(e) => return Err(e),
        }
        let format = match self.peek() {
            TokenKind::StringLit(s) => s.clone(),
            _ => return Err(self.fail(to_owned("println! expects a string literal"))),
        };
        self.advance();
        let args = match self.parse_print_args() {
            Ok(x) => x,
            Err(e) => return Err(e),
        };
        match self.expect(&TokenKind::RParen) {
            Ok(()) => Ok((format, args)),
            Err(e) => Err(e),
        }
    }

    /// `, expr` while a comma follows.
    fn parse_print_args(&mut self) -> (r: Result<Vec<Expr>, Error>)
        requires
            old(self).wf(),
        ensures
            final(self).follows(old(self)),
            agrees(
                r,
                s_print_args(old(self).toks(), old(self).at(), Seq::empty()),
                |v: Vec<Expr>| exprs_m(v@),
                final(self).at(),
            ),
        decreases left(old(self).toks(), old(self).at()), 43nat,
    {
        let ghost t = self.toks();
        let ghost p0 = self.at();
        let mut args: Vec<Expr> = Vec::new();
        proof {
            lemma_empty_m();
        }
        loop
            invariant
                self.wf(),
                self.toks() == t,
                t == old(self).toks(),
                p0 == old(self).at(),
                p0 <= self.at(),
                s_print_args(t, p0, Seq::empty()) == s_print_args(t, self.at(), exprs_m(args@)),
            decreases t.len() - self.at(),
        {
            if !matches!(self.peek(), TokenKind::Comma) {
                return Ok(args);
            }
            self.advance();
            let e = match self.parse_expr() {
                Ok(x) => x,
                Err(e) => return Err(e),
            };
            proof {
                lemma_exprs_push(args@, e);
            }
            args.push(e);
        }
    }

    // --- expressions ---

    fn parse_expr(&mut self) -> (r: Result<Expr, Error>)
        requires
            old(self).wf(),
        ensures
            final(self).follows(old(self)),
            agrees(r, s_expr(old(self).toks(), old(self).at()), |x: Expr| expr_m(x), final(self).at()),
            r is Ok ==> old(self).at() < final(self).at(),
        decreases left(old(self).toks(), old(self).at()), 31nat,
    {
        self.parse_binary(0)
    }

    /// A left-associative chain of the binary operators of `level` (from `||` at 0 to
    /// `* / %` at 9) over operands of the next level.
    fn parse_binary(&mut self, level: u8) -> (r: Result<Expr, Error>)
        requires
            old(self).wf(),
            level <= 9,
        ensures
            final(self).follows(old(self)),
            agrees(
                r,
                s_binary(old(self).toks(), old(self).at(), level as nat),
                |x: Expr| expr_m(x),
                final(self).at(),
            ),
            r is Ok ==> old(self).at() < final(self).at(),
        decreases left(old(self).toks(), old(self).at()), bin_rank(level as nat),
    {
        let ghost t = self.toks();
        let ghost p0 = self.at();
        let loc = self.here();
        let first = if level >= 9 {
            self.parse_cast()
        } else {
            self.parse_binary(level + 1)
        };
        let mut lhs = match first {
            Ok(x) => x,
            Err(e) => return Err(e),
        };
        loop
            invariant
                self.wf(),
                self.toks() == t,
                t == old(self).toks(),
                p0 == old(self).at(),
                p0 < self.at(),
                level <= 9,
                loc == loc_at(t, p0),
                s_binary(t, p0, level as nat) == s_binary_rest(
                    t,
                    self.at(),
                    level as nat,
                    expr_m(lhs),
                    loc,
                ),
            decreases t.len() - self.at(),
        {
            let op = match binop_at(level, self.peek()) {
                Some(op) => op,
                None => return Ok(lhs),
            };
            self.advance();
            let next = if level >= 9 {
                self.parse_cast()
            } else {
                self.parse_binary(level + 1)
            };
            let rhs = match next {
                Ok(x) => x,
                Err(e) => return Err(e),
            };
            lhs = e_binop(op, lhs, rhs, loc);
        }
    }

    // `x as T`: binds tighter than the binary operators, looser than the unary ones.
    fn parse_cast(&mut self) -> (r: Result<Expr, Error>)
        requires
            old(self).wf(),
        ensures
            final(self).follows(old(self)),
            agrees(r, s_cast(old(self).toks(), old(self).at()), |x: Expr| expr_m(x), final(self).at()),
            r is Ok ==> old(self).at() < final(self).at(),
        decreases left(old(self).toks(), old(self).at()), 10nat,
    {
        let ghost t = self.toks();
        let ghost p0 = self.at();
        let loc = self.here();
        let mut e = match self.parse_unary() {
            Ok(x) => x,
            Err(e) => return Err(e),
        };
        loop
            invariant
                self.wf(),
                self.toks() == t,
                t == old(self).toks(),
                p0 == old(self).at(),
                p0 < self.at(),
                loc == loc_at(t, p0),
                s_cast(t, p0) == s_cast_rest(t, self.at(), expr_m(e), loc),
            decreases t.len() - self.at(),
        {
            if !matches!(self.peek(), TokenKind::As) {
                return Ok(e);
            }
            self.advance();
            let ty = match self.parse_ty() {
                Ok(x) => x,
                Err(err) => return Err(err),
            };
            e = e_cast(e, ty, loc);
        }
    }

    fn parse_unary(&mut self) -> (r: Result<Expr, Error>)
        requires
            old(self).wf(),
        ensures
            final(self).follows(old(self)),
            agrees(r, s_unary(old(self).toks(), old(self).at()), |x: Expr| expr_m(x), final(self).at()),
            r is Ok ==> old(self).at() < final(self).at(),
        decreases left(old(self).toks(), old(self).at()), 8nat,
    {
        let loc = self.here();
        match self.peek() {
            TokenKind::Minus => {
                self.advance();
                match self.parse_unary() {
                    Ok(e) => Ok(e_unop(UnOp::Neg, e, loc)),
                    Err(e) => Err(e),
                }
            },
            TokenKind::Bang => {
                self.advance();
                match self.parse_unary() {
                    Ok(e) => Ok(e_unop(UnOp::Not, e, loc)),
                    Err(e) => Err(e),
                }
            },
            TokenKind::Tilde => {
                self.advance();
                match self.parse_unary() {
                    Ok(e) => Ok(e_unop(UnOp::BitNot, e, loc)),
                    Err(e) => Err(e),
                }
            },
            TokenKind::Star => {
                self.advance();
                match self.parse_unary() {
                    Ok(e) => Ok(e_deref(e, loc)),
                    Err(e) => Err(e),
                }
            },
            TokenKind::Amp => {
                self.advance();
                let mutable = if matches!(self.peek(), TokenKind::Mut) {
                    self.advance();
                    true
                } else {
                    false
                };
                match self.parse_unary() {
                    Ok(e) => Ok(e_addr_of(mutable, e, loc)),
                    Err(e) => Err(e),
                }
            },
            _ => self.parse_postfix(),
        }
    }

    fn parse_postfix(&mut self) -> (r: Result<Expr, Error>)
        requires
            old(self).wf(),
        ensures
            final(self).follows(old(self)),
            agrees(r, s_postfix(old(self).toks(), old(self).at()), |x: Expr| expr_m(x), final(self).at()),
            r is Ok ==> old(self).at() < final(self).at(),
        decreases left(old(self).toks(), old(self).at()), 7nat,
    {
        let ghost t = self.toks();
        let ghost p0 = self.at();
        let loc = self.here();
        let mut e = match self.parse_primary() {
            Ok(x) => x,
            Err(err) => return Err(err),
        };
        loop
            invariant
                self.wf(),
                self.toks() == t,
                t == old(self).toks(),
                p0 == old(self).at(),
                p0 < self.at(),
                loc == loc_at(t, p0),
                s_postfix(t, p0) == s_postfix_rest(t, self.at(), expr_m(e), loc),
            decreases t.len() - self.at(),
        {
            if !matches!(self.peek(), TokenKind::Dot) {
                return Ok(e);
            }
            self.advance();
            match self.peek() {
                // Tuple/field index: `expr.0` is the field named `0`
                TokenKind::IntLit(idx) => {
                    let field = i64_to_string(*idx);
                    self.advance();
                    e = e_field(e, field, loc);
                },
                _ => {
                    let field = match self.expect_ident() {
                        Ok(x) => x,
                        Err(err) => return Err(err),
                    };
                    if matches!(self.peek(), TokenKind::LParen) {
                        let args = match self.parse_call_args() {
                            Ok(x) => x,
                            Err(err) => return Err(err),
                        };
                        e = e_method_call(e, field, args, loc);
                    } else {
                        e = e_field(e, field, loc);
                    }
                },
            }
        }
    }

    /// `(args...)`.
    fn parse_call_args(&mut self) -> (r: Result<Vec<Expr>, Error>)
        requires
            old(self).wf(),
        ensures
            final(self).follows(old(self)),
            agrees(
                r,
                s_call_args(old(self).toks(), old(self).at()),
                |v: Vec<Expr>| exprs_m(v@),
                final(self).at(),
            ),
            r is Ok ==> old(self).at() < final(self).at(),
        decreases left(old(self).toks(), old(self).at()), 5nat,
    {
        match self.expect(&TokenKind::LParen) {
            Ok(()) => {},
            Err(e) => return Err(e),
        }
        let args = match self.parse_args() {
            Ok(x) => x,
            Err(e) => return Err(e),
        };
        match self.expect(&TokenKind::RParen) {
            Ok(()) => Ok(args),
            Err(e) => Err(e),
        }
    }

    /// Comma-separated expressions up to `)`.
    fn parse_args(&mut self) -> (r: Result<Vec<Expr>, Error>)
        requires
            old(self).wf(),
        ensures
            final(self).follows(old(self)),
            agrees(
                r,
                s_args(old(self).toks(), old(self).at(), Seq::empty()),
                |v: Vec<Expr>| exprs_m(v@),
                final(self).at(),
            ),
        decreases left(old(self).toks(), old(self).at()), 32nat,
    {
        let ghost t = self.toks();
        let ghost p0 = self.at();
        let mut args: Vec<Expr> = Vec::new();
        proof {
            lemma_empty_m();
        }
        loop
            invariant
                self.wf(),
                self.toks() == t,
                t == old(self).toks(),
                p0 == old(self).at(),
                p0 <= self.at(),
                exprs_m(args@).len() == args@.len(),
                args@.len() == 0 ==> self.at() == p0,
                s_args(t, p0, Seq::empty()) == s_args(t, self.at(), exprs_m(args@)),
            decreases t.len() - self.at(),
        {
            if matches!(self.peek(), TokenKind::RParen) || self.at_eof() {
                return Ok(args);
            }
            if args.len() > 0 {
                match self.expect(&TokenKind::Comma) {
                    Ok(()) => {},
                    Err(e) => return Err(e),
                }
            }
            let e = match self.parse_expr() {
                Ok(x) => x,
                Err(e) => return Err(e),
            };
            proof {
                lemma_exprs_push(args@, e);
            }
            args.push(e);
        }
    }

    fn parse_primary(&mut self) -> (r: Result<Expr, Error>)
        requires
            old(self).wf(),
        ensures
            final(self).follows(old(self)),
            agrees(r, s_primary(old(self).toks(), old(self).at()), |x: Expr| expr_m(x), final(self).at()),
            r is Ok ==> old(self).at() < final(self).at(),
        decreases left(old(self).toks(), old(self).at()), 4nat,
    {
        let loc = self.here();
        match self.peek() {
            TokenKind::IntLit(n) => {
                let n = *n;
                self.advance();
                Ok(e_int(n, loc))
            },
            TokenKind::True => {
                self.advance();
                Ok(e_bool(true, loc))
            },
            TokenKind::False => {
                self.advance();
                Ok(e_bool(false, loc))
            },
            TokenKind::SelfKw => {
                self.advance();
                Ok(e_var(to_owned("self"), loc))
            },
            TokenKind::Ident(name) => {
                let name = name.clone();
                self.advance();
                self.parse_path(name, loc)
            },
            TokenKind::LParen => {
                self.advance();
                self.parse_paren(loc)
            },
            TokenKind::Unsafe => {
                self.advance();
                match self.parse_block() {
                    Ok(b) => Ok(e_unsafe(b, loc)),
                    Err(e) => Err(e),
                }
            },
            _ => Err(self.fail_got("expression")),
        }
    }

    /// What follows an identifier that starts an expression.
    #[verifier::spinoff_prover]
    #[verifier::rlimit(40)]
    fn parse_path(&mut self, name: String, loc: Loc) -> (r: Result<Expr, Error>)
        requires
            old(self).wf(),
        ensures
            final(self).follows(old(self)),
            agrees(
                r,
                s_path(old(self).toks(), old(self).at(), name@, loc),
                |x: Expr| expr_m(x),
                final(self).at(),
            ),
        decreases left(old(self).toks(), old(self).at()), 6nat,
    {
        if matches!(self.peek(), TokenKind::ColonColon) {
            self.advance();
            let method = match self.expect_ident() {
                Ok(x) => x,
                Err(e) => return Err(e),
            };
            if matches!(self.peek(), TokenKind::LParen) {
                match self.parse_call_args() {
                    Ok(args) => Ok(e_assoc_call(name, method, args, loc)),
                    Err(e) => Err(e),
                }
            } else if matches!(self.peek(), TokenKind::LBrace) {
                // Struct-like enum variant: `Type::Variant { x: expr, ... }`
                self.advance();
                let fields = match self.parse_inits() {
                    Ok(x) => x,
                    Err(e) => return Err(e),
                };
                match self.expect(&TokenKind::RBrace) {
                    Ok(()) => Ok(e_enum_struct_lit(name, method, fields, loc)),
                    Err(e) => Err(e),
                }
            } else {
                let args: Vec<Expr> = Vec::new();
                proof {
                    lemma_empty_m();
                }
                Ok(e_assoc_call(name, method, args, loc))
            }
        } else if matches!(self.peek(), TokenKind::LBrace) && starts_upper(&name) {
            self.advance();
            let fields = match self.parse_inits() {
                Ok(x) => x,
                Err(e) => return Err(e),
            };
            match self.expect(&TokenKind::RBrace) {
                Ok(()) => Ok(e_struct_lit(name, fields, loc)),
                Err(e) => Err(e),
            }
        } else if matches!(self.peek(), TokenKind::LParen) {
            match self.parse_call_args() {
                Ok(args) => Ok(e_call(name, args, loc)),
                Err(e) => Err(e),
            }
        } else {
            Ok(e_var(name, loc))
        }
    }

    /// What follows `(` in an expression.
    fn parse_paren(&mut self, loc: Loc) -> (r: Result<Expr, Error>)
        requires
            old(self).wf(),
        ensures
            final(self).follows(old(self)),
            agrees(
                r,
                s_paren(old(self).toks(), old(self).at(), loc),
                |x: Expr| expr_m(x),
                final(self).at(),
            ),
        decreases left(old(self).toks(), old(self).at()), 33nat,
    {
        if matches!(self.peek(), TokenKind::RParen) {
            self.advance();
            let elems: Vec<Expr> = Vec::new();
            proof {
                lemma_empty_m();
            }
            return Ok(e_tuple(elems, loc));
        }
        let first = match self.parse_expr() {
            Ok(x) => x,
            Err(e) => return Err(e),
        };
        if matches!(self.peek(), TokenKind::Comma) {
            let elems = match self.parse_tuple_rest(first) {
                Ok(x) => x,
                Err(e) => return Err(e),
            };
            match self.expect(&TokenKind::RParen) {
                Ok(()) => Ok(e_tuple(elems, loc)),
                Err(e) => Err(e),
            }
        } else {
            match self.expect(&TokenKind::RParen) {
                Ok(()) => Ok(first),
                Err(e) => Err(e),
            }
        }
    }

    /// The elements of a tuple after its first: `, expr` while a comma follows.
    fn parse_tuple_rest(&mut self, first: Expr) -> (r: Result<Vec<Expr>, Error>)
        requires
            old(self).wf(),
        ensures
            final(self).follows(old(self)),
            agrees(
                r,
                s_tuple_rest(old(self).toks(), old(self).at(), seq![expr_m(first)]),
                |v: Vec<Expr>| exprs_m(v@),
                final(self).at(),
            ),
        decreases left(old(self).toks(), old(self).at()), 3nat,
    {
        let ghost t = self.toks();
        let ghost p0 = self.at();
        let ghost first_m = expr_m(first);
        let mut elems: Vec<Expr> = Vec::new();
        proof {
            lemma_empty_m();
            lemma_exprs_push(elems@, first);
        }
        elems.push(first);
        assert(exprs_m(elems@) =~= seq![first_m]);
        loop
            invariant
                self.wf(),
                self.toks() == t,
                t == old(self).toks(),
                p0 == old(self).at(),
                first_m == expr_m(first),
                p0 <= self.at(),
                s_tuple_rest(t, p0, seq![first_m]) == s_tuple_rest(t, self.at(), exprs_m(elems@)),
            decreases t.len() - self.at(),
        {
            if !matches!(self.peek(), TokenKind::Comma) {
                return Ok(elems);
            }
            self.advance();
            if matches!(self.peek(), TokenKind::RParen) {
                return Ok(elems);
            }
            let e = match self.parse_expr() {
                Ok(x) => x,
                Err(e) => return Err(e),
            };
            proof {
                lemma_exprs_push(elems@, e);
            }
            elems.push(e);
        }
    }

    /// Comma-separated `field: expr` initialisers up to `}`.
    fn parse_inits(&mut self) -> (r: Result<Vec<(String, Expr)>, Error>)
        requires
            old(self).wf(),
        ensures
            final(self).follows(old(self)),
            agrees(
                r,
                s_inits(old(self).toks(), old(self).at(), Seq::empty()),
                |v: Vec<(String, Expr)>| inits_m(v@),
                final(self).at(),
            ),
        decreases left(old(self).toks(), old(self).at()), 3nat,
    {
        let ghost t = self.toks();
        let ghost p0 = self.at();
        let mut fields: Vec<(String, Expr)> = Vec::new();
        proof {
            lemma_empty_m();
        }
        loop
            invariant
                self.wf(),
                self.toks() == t,
                t == old(self).toks(),
                p0 == old(self).at(),
                p0 <= self.at(),
                inits_m(fields@).len() == fields@.len(),
                s_inits(t, p0, Seq::empty()) == s_inits(t, self.at(), inits_m(fields@)),
            decreases t.len() - self.at(),
        {
            if matches!(self.peek(), TokenKind::RBrace) || self.at_eof() {
                return Ok(fields);
            }
            if fields.len() > 0 {
                match self.expect(&TokenKind::Comma) {
                    Ok(()) => {},
                    Err(e) => return Err(e),
                }
                if matches!(self.peek(), TokenKind::RBrace) {
                    return Ok(fields);
                }
            }
            let fname = match self.expect_ident() {
                Ok(x) => x,
                Err(e) => return Err(e),
            };
            match self.expect(&TokenKind::Colon) {
                Ok(()) => {},
                Err(e) => return Err(e),
            }
            let e = match self.parse_expr() {
                Ok(x) => x,
                Err(e) => return Err(e),
            };
            let f = (fname, e);
            proof {
                lemma_inits_push(fields@, f);
            }
            fields.push(f);
        }
    }
}

impl Parser {
    /// Parses the whole token sequence as a file: items up to `Eof`.
    pub fn parse(self) -> (r: Result<File, Error>)
        requires
            self.wf(),
            self.at() == 0,
        ensures
            match r {
                Ok(f) => s_parse(self.toks()) == Ok::<Seq<ItemM>, ErrM>(file_m(f)),
                Err(e) => s_parse(self.toks()) == Err::<Seq<ItemM>, ErrM>(e@),
            },
    {
        let mut p = self;
        let ghost t = p.toks();
        let ghost p0 = p.at();
        let mut items: Vec<Item> = Vec::new();
        assert(items_m(items@) =~= Seq::<ItemM>::empty());
        loop
            invariant
                p.wf(),
                p.toks() == t,
                t == self.toks(),
                p0 == self.at(),
                p0 == 0,
                p0 <= p.at(),
                s_items(t, p0, Seq::empty()) == s_items(t, p.at(), items_m(items@)),
            decreases t.len() - p.at(),
        {
            if p.at_eof() {
                return Ok(File { items });
            }
            let item = match p.parse_item() {
                Ok(x) => x,
                Err(e) => return Err(e),
            };
            proof {
                assert(items_m(items@.push(item)) =~= items_m(items@).push(item_m(item)));
            }
            items.push(item);
        }
    }

    // --- items ---

    fn parse_item(&mut self) -> (r: Result<Item, Error>)
        requires
            old(self).wf(),
        ensures
            final(self).follows(old(self)),
            agrees(r, s_item(old(self).toks(), old(self).at()), |x: Item| item_m(x), final(self).at()),
            r is Ok ==> old(self).at() < final(self).at(),
    {
        proof {
            reveal(s_item);
        }
        match self.peek() {
            TokenKind::Fn => match self.parse_fn() {
                Ok(f) => Ok(Item::Fn(f)),
                Err(e) => Err(e),
            },
            TokenKind::Struct => match self.parse_struct() {
                Ok(s) => Ok(Item::Struct(s)),
                Err(e) => Err(e),
            },
            TokenKind::Impl => match self.parse_impl() {
                Ok(i) => Ok(Item::Impl(i)),
                Err(e) => Err(e),
            },
            TokenKind::Enum => match self.parse_enum() {
                Ok(en) => Ok(Item::Enum(en)),
                Err(e) => Err(e),
            },
            _ => Err(self.fail_got("item")),
        }
    }

    fn parse_enum(&mut self) -> (r: Result<EnumDecl, Error>)
        requires
            old(self).wf(),
        ensures
            final(self).follows(old(self)),
            agrees(r, s_enum(old(self).toks(), old(self).at()), |x: EnumDecl| enum_m(x), final(self).at()),
            r is Ok ==> old(self).at() < final(self).at(),
    {
        let loc = self.here();
        match self.expect(&TokenKind::Enum) {
            Ok(()) => {},
            Err(e) => return Err(e),
        }
        let name = match self.expect_ident() {
            Ok(x) => x,
            Err(e) => return Err(e),
        };
        match self.expect(&TokenKind::LBrace) {
            Ok(()) => {},
            Err(e) => return Err(e),
        }
        let variants = match self.parse_variants() {
            Ok(x) => x,
            Err(e) => return Err(e),
        };
        match self.expect(&TokenKind::RBrace) {
            Ok(()) => Ok(EnumDecl { name, variants, is_pub: false, loc }),
            Err(e) => Err(e),
        }
    }

    /// Comma-separated variants up to `}`.
    fn parse_variants(&mut self) -> (r: Result<Vec<EnumVariant>, Error>)
        requires
            old(self).wf(),
        ensures
            final(self).follows(old(self)),
            agrees(
                r,
                s_variants(old(self).toks(), old(self).at(), Seq::empty()),
                |v: Vec<EnumVariant>| variants_m(v@),
                final(self).at(),
            ),
    {
        let ghost t = self.toks();
        let ghost p0 = self.at();
        let mut variants: Vec<EnumVariant> = Vec::new();
        assert(variants_m(variants@) =~= Seq::<VariantM>::empty());
        loop
            invariant
                self.wf(),
                self.toks() == t,
                t == old(self).toks(),
                p0 == old(self).at(),
                p0 <= self.at(),
                s_variants(t, p0, Seq::empty()) == s_variants(t, self.at(), variants_m(variants@)),
            decreases t.len() - self.at(),
        {
            if matches!(self.peek(), TokenKind::RBrace) || self.at_eof() {
                return Ok(variants);
            }
            if variants.len() > 0 {
                match self.expect(&TokenKind::Comma) {
                    Ok(()) => {},
                    Err(e) => return Err(e),
                }
                if matches!(self.peek(), TokenKind::RBrace) {
                    return Ok(variants);
                }
            }
            let vname = match self.expect_ident() {
                Ok(x) => x,
                Err(e) => return Err(e),
            };
            let fields = match self.parse_variant_fields() {
                Ok(x) => x,
                Err(e) => return Err(e),
            };
            let v = EnumVariant { name: vname, fields };
            proof {
                assert(variants_m(variants@.push(v)) =~= variants_m(variants@).push(variant_m(v)));
            }
            variants.push(v);
        }
    }

    /// A variant's fields: `(T, ...)`, `{ name: T, ... }`, or none.
    fn parse_variant_fields(&mut self) -> (r: Result<VariantFields, Error>)
        requires
            old(self).wf(),
        ensures
            final(self).follows(old(self)),
            agrees(
                r,
                s_variant_fields(old(self).toks(), old(self).at()),
                |f: VariantFields| vfields_m(f),
                final(self).at(),
            ),
    {
        if matches!(self.peek(), TokenKind::LParen) {
            // Tuple variant: Variant(T0, T1)
            self.advance();
            let tys = match self.parse_ty_list() {
                Ok(x) => x,
                Err(e) => return Err(e),
            };
            match self.expect(&TokenKind::RParen) {
                Ok(()) => Ok(VariantFields::Tuple(tys)),
                Err(e) => Err(e),
            }
        } else if matches!(self.peek(), TokenKind::LBrace) {
            // Named struct variant: Variant { x: T, y: T }
            self.advance();
            let named = match self.parse_field_decls() {
                Ok(x) => x,
                Err(e) => return Err(e),
            };
            match self.expect(&TokenKind::RBrace) {
                Ok(()) => Ok(VariantFields::Named(named)),
                Err(e) => Err(e),
            }
        } else {
            Ok(VariantFields::Unit)
        }
    }

    /// Comma-separated types up to `)`.
    fn parse_ty_list(&mut self) -> (r: Result<Vec<Ty>, Error>)
        requires
            old(self).wf(),
        ensures
            final(self).follows(old(self)),
            agrees(
                r,
                s_ty_list(old(self).toks(), old(self).at(), Seq::empty()),
                |v: Vec<Ty>| tys_view(v@),
                final(self).at(),
            ),
    {
        let ghost t = self.toks();
        let ghost p0 = self.at();
        let mut tys: Vec<Ty> = Vec::new();
        proof {
            lemma_tys_view(tys@);
            assert(tys_view(tys@) =~= Seq::<TyM>::empty());
        }
        loop
            invariant
                self.wf(),
                self.toks() == t,
                t == old(self).toks(),
                p0 == old(self).at(),
                p0 <= self.at(),
                tys_view(tys@).len() == tys@.len(),
                s_ty_list(t, p0, Seq::empty()) == s_ty_list(t, self.at(), tys_view(tys@)),
            decreases t.len() - self.at(),
        {
            if matches!(self.peek(), TokenKind::RParen) || self.at_eof() {
                return Ok(tys);
            }
            if tys.len() > 0 {
                match self.expect(&TokenKind::Comma) {
                    Ok(()) => {},
                    Err(e) => return Err(e),
                }
            }
            let ty = match self.parse_ty() {
                Ok(x) => x,
                Err(e) => return Err(e),
            };
            proof {
                lemma_tys_push(tys@, ty);
            }
            tys.push(ty);
        }
    }

    /// Comma-separated `name: Type` declarations up to `}`.
    fn parse_field_decls(&mut self) -> (r: Result<Vec<FieldDecl>, Error>)
        requires
            old(self).wf(),
        ensures
            final(self).follows(old(self)),
            agrees(
                r,
                s_field_decls(old(self).toks(), old(self).at(), Seq::empty()),
                |v: Vec<FieldDecl>| fields_m(v@),
                final(self).at(),
            ),
    {
        let ghost t = self.toks();
        let ghost p0 = self.at();
        let mut fields: Vec<FieldDecl> = Vec::new();
        assert(fields_m(fields@) =~= Seq::<FieldM>::empty());
        loop
            invariant
                self.wf(),
                self.toks() == t,
                t == old(self).toks(),
                p0 == old(self).at(),
                p0 <= self.at(),
                s_field_decls(t, p0, Seq::empty()) == s_field_decls(t, self.at(), fields_m(fields@)),
            decreases t.len() - self.at(),
        {
            if matches!(self.peek(), TokenKind::RBrace) || self.at_eof() {
                return Ok(fields);
            }
            if fields.len() > 0 {
                match self.expect(&TokenKind::Comma) {
                    Ok(()) => {},
                    Err(e) => return Err(e),
                }
                if matches!(self.peek(), TokenKind::RBrace) {
                    return Ok(fields);
                }
            }
            let fname = match self.expect_ident() {
                Ok(x) => x,
                Err(e) => return Err(e),
            };
            match self.expect(&TokenKind::Colon) {
                Ok(()) => {},
                Err(e) => return Err(e),
            }
            let fty = match self.parse_ty() {
                Ok(x) => x,
                Err(e) => return Err(e),
            };
            let f = FieldDecl { name: fname, ty: fty, is_pub: false };
            proof {
                assert(fields_m(fields@.push(f)) =~= fields_m(fields@).push(field_m(f)));
            }
            fields.push(f);
        }
    }

    fn parse_struct(&mut self) -> (r: Result<StructDecl, Error>)
        requires
            old(self).wf(),
        ensures
            final(self).follows(old(self)),
            agrees(
                r,
                s_struct(old(self).toks(), old(self).at()),
                |x: StructDecl| struct_m(x),
                final(self).at(),
            ),
            r is Ok ==> old(self).at() < final(self).at(),
    {
        let loc = self.here();
        match self.expect(&TokenKind::Struct) {
            Ok(()) => {},
            Err(e) => return Err(e),
        }
        let name = match self.expect_ident() {
            Ok(x) => x,
            Err(e) => return Err(e),
        };
        match self.expect(&TokenKind::LBrace) {
            Ok(()) => {},
            Err(e) => return Err(e),
        }
        let fields = match self.parse_field_decls() {
            Ok(x) => x,
            Err(e) => return Err(e),
        };
        match self.expect(&TokenKind::RBrace) {
            Ok(()) => Ok(StructDecl { name, fields, is_pub: false, is_tuple: false, loc }),
            Err(e) => Err(e),
        }
    }

    fn parse_impl(&mut self) -> (r: Result<ImplBlock, Error>)
        requires
            old(self).wf(),
        ensures
            final(self).follows(old(self)),
            agrees(r, s_impl(old(self).toks(), old(self).at()), |x: ImplBlock| impl_m(x), final(self).at()),
            r is Ok ==> old(self).at() < final(self).at(),
    {
        match self.expect(&TokenKind::Impl) {
            Ok(()) => {},
            Err(e) => return Err(e),
        }
        let ty_name = match self.expect_ident() {
            Ok(x) => x,
            Err(e) => return Err(e),
        };
        match self.expect(&TokenKind::LBrace) {
            Ok(()) => {},
            Err(e) => return Err(e),
        }
        let methods = match self.parse_methods() {
            Ok(x) => x,
            Err(e) => return Err(e),
        };
        match self.expect(&TokenKind::RBrace) {
            Ok(()) => Ok(ImplBlock { ty_name, trait_name: None, methods }),
            Err(e) => Err(e),
        }
    }

    /// Methods up to `}`.
    fn parse_methods(&mut self) -> (r: Result<Vec<FnDecl>, Error>)
        requires
            old(self).wf(),
        ensures
            final(self).follows(old(self)),
            agrees(
                r,
                s_methods(old(self).toks(), old(self).at(), Seq::empty()),
                |v: Vec<FnDecl>| fns_m(v@),
                final(self).at(),
            ),
    {
        let ghost t = self.toks();
        let ghost p0 = self.at();
        let mut methods: Vec<FnDecl> = Vec::new();
        assert(fns_m(methods@) =~= Seq::<FnM>::empty());
        loop
            invariant
                self.wf(),
                self.toks() == t,
                t == old(self).toks(),
                p0 == old(self).at(),
                p0 <= self.at(),
                s_methods(t, p0, Seq::empty()) == s_methods(t, self.at(), fns_m(methods@)),
            decreases t.len() - self.at(),
        {
            if matches!(self.peek(), TokenKind::RBrace) || self.at_eof() {
                return Ok(methods);
            }
            let f = match self.parse_fn() {
                Ok(x) => x,
                Err(e) => return Err(e),
            };
            proof {
                assert(fns_m(methods@.push(f)) =~= fns_m(methods@).push(fn_m(f)));
            }
            methods.push(f);
        }
    }

    fn parse_fn(&mut self) -> (r: Result<FnDecl, Error>)
        requires
            old(self).wf(),
        ensures
            final(self).follows(old(self)),
            agrees(r, s_fn(old(self).toks(), old(self).at()), |x: FnDecl| fn_m(x), final(self).at()),
            r is Ok ==> old(self).at() < final(self).at(),
    {
        let loc = self.here();
        match self.expect(&TokenKind::Fn) {
            Ok(()) => {},
            Err(e) => return Err(e),
        }
        let name = match self.expect_ident() {
            Ok(x) => x,
            Err(e) => return Err(e),
        };
        match self.expect(&TokenKind::LParen) {
            Ok(()) => {},
            Err(e) => return Err(e),
        }
        let (receiver, params) = match self.parse_receiver_and_params() {
            Ok(x) => x,
            Err(e) => return Err(e),
        };
        match self.expect(&TokenKind::RParen) {
            Ok(()) => {},
            Err(e) => return Err(e),
        }
        let return_ty = if matches!(self.peek(), TokenKind::Arrow) {
            self.advance();
            match self.parse_ty() {
                Ok(x) => x,
                Err(e) => return Err(e),
            }
        } else {
            Ty::Unit
        };
        let body = match self.parse_block() {
            Ok(x) => x,
            Err(e) => return Err(e),
        };
        Ok(FnDecl { name, receiver, params, return_ty, body, is_pub: false, loc })
    }

    /// An optional `self`, `&self` or `&mut self` (and a comma after it), then the
    /// parameters.
    fn parse_receiver_and_params(&mut self) -> (r: Result<(Option<Receiver>, Vec<Param>), Error>)
        requires
            old(self).wf(),
        ensures
            final(self).follows(old(self)),
            agrees(
                r,
                s_receiver_and_params(old(self).toks(), old(self).at()),
                |x: (Option<Receiver>, Vec<Param>)| (x.0, params_m(x.1@)),
                final(self).at(),
            ),
    {
        let receiver = if matches!(self.peek(), TokenKind::SelfKw) {
            self.advance();
            if matches!(self.peek(), TokenKind::Comma) {
                self.advance();
            }
            Some(Receiver::Value)
        } else if matches!(self.peek(), TokenKind::Amp) {
            self.advance();
            let r = if matches!(self.peek(), TokenKind::Mut) {
                self.advance();
                Receiver::RefMut
            } else {
                Receiver::Ref
            };
            match self.expect(&TokenKind::SelfKw) {
                Ok(()) => {},
                Err(e) => return Err(e),
            }
            if matches!(self.peek(), TokenKind::Comma) {
                self.advance();
            }
            Some(r)
        } else {
            None
        };
        match self.parse_params() {
            Ok(params) => Ok((receiver, params)),
            Err(e) => Err(e),
        }
    }

    /// Comma-separated `name: Type` parameters up to `)`.
    fn parse_params(&mut self) -> (r: Result<Vec<Param>, Error>)
        requires
            old(self).wf(),
        ensures
            final(self).follows(old(self)),
            agrees(
                r,
                s_params(old(self).toks(), old(self).at(), Seq::empty()),
                |v: Vec<Param>| params_m(v@),
                final(self).at(),
            ),
    {
        let ghost t = self.toks();
        let ghost p0 = self.at();
        let mut params: Vec<Param> = Vec::new();
        assert(params_m(params@) =~= Seq::<ParamM>::empty());
        loop
            invariant
                self.wf(),
                self.toks() == t,
                t == old(self).toks(),
                p0 == old(self).at(),
                p0 <= self.at(),
                s_params(t, p0, Seq::empty()) == s_params(t, self.at(), params_m(params@)),
            decreases t.len() - self.at(),
        {
            if matches!(self.peek(), TokenKind::RParen) || self.at_eof() {
                return Ok(params);
            }
            if params.len() > 0 {
                match self.expect(&TokenKind::Comma) {
                    Ok(()) => {},
                    Err(e) => return Err(e),
                }
                if matches!(self.peek(), TokenKind::RParen) {
                    return Ok(params);
                }
            }
            let name = match self.expect_ident() {
                Ok(x) => x,
                Err(e) => return Err(e),
            };
            match self.expect(&TokenKind::Colon) {
                Ok(()) => {},
                Err(e) => return Err(e),
            }
            let ty = match self.parse_ty() {
                Ok(x) => x,
                Err(e) => return Err(e),
            };
            let prm = Param { name, ty };
            proof {
                assert(params_m(params@.push(prm)) =~= params_m(params@).push(param_m(prm)));
            }
            params.push(prm);
        }
    }
}

} // verus!
