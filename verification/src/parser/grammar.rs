//! The grammar the parser implements, as functions from a token sequence and a
//! position to the model of what is parsed there and the position after it, or to the
//! diagnostic of the first token that does not fit.
//!
//! Reading past the last token reads `Eof`. The recursive rules are ordered by the
//! number of tokens left and then by a rank, so that a rule may call a lower-ranked
//! rule at the same position. Where a rule goes on from a position that a sub-rule
//! returned, `resume` (or `past`) keeps that position within the tokens and not behind
//! the sub-rule's start: the parser never moves backwards, so this changes nothing.
use crate::ast::{BinOp, Receiver, TyM, UnOp};
use crate::error::ErrM;
use crate::lexer::{TokM, TokenM};
use crate::loc::Loc;
use crate::parser::tree::{
    ArmM, BindsM, EnumM, ExprKindM, ExprM, FieldM, FnM, ImplM, ItemM, ParamM, PatM, StmtKindM,
    StmtM, StructM, VarFieldsM, VariantM,
};
use crate::text::{int_to_dec, is_upper, nat_to_dec, str_debug};
use vstd::prelude::*;

verus! {

/// What a rule yields: the model and the position after it, or a diagnostic.
pub type Parsed<A> = Result<(A, nat), ErrM>;

// ---------------------------------------------------------------------------
// Reading tokens
// ---------------------------------------------------------------------------

pub open spec fn tok_at(t: Seq<TokenM>, p: nat) -> TokenM {
    if p < t.len() {
        t[p as int]
    } else {
        TokenM { kind: TokM::Eof, line: 0, col: 0 }
    }
}

pub open spec fn kind_at(t: Seq<TokenM>, p: nat) -> TokM {
    tok_at(t, p).kind
}

pub open spec fn loc_at(t: Seq<TokenM>, p: nat) -> Loc {
    Loc { line: tok_at(t, p).line as u32, col: tok_at(t, p).col as u32 }
}

pub open spec fn fail_at(t: Seq<TokenM>, p: nat, message: Seq<char>) -> ErrM {
    ErrM { loc: loc_at(t, p), message }
}

/// How many tokens are left from `p` on.
pub open spec fn left(t: Seq<TokenM>, p: nat) -> nat {
    if p <= t.len() {
        (t.len() - p) as nat
    } else {
        0
    }
}

/// The position `q` that a sub-rule started at `lo` returned, kept within `lo..=len`.
pub open spec fn resume(t: Seq<TokenM>, lo: nat, q: nat) -> nat {
    if lo <= q && q <= t.len() {
        q
    } else {
        lo
    }
}

/// The position `q` that a rule started at `lo` returned, kept beyond `lo`.
pub open spec fn past(t: Seq<TokenM>, lo: nat, q: nat) -> nat {
    if lo < q && q <= t.len() {
        q
    } else {
        lo + 1
    }
}

/// Whether `k` carries no payload (a keyword, an operator or a punctuation mark).
pub open spec fn plain(k: TokM) -> bool {
    !(k is Ident || k is IntLit || k is FloatLit || k is CharLit || k is StringLit)
}

// ---------------------------------------------------------------------------
// Diagnostics
// ---------------------------------------------------------------------------

/// How a token kind is printed in diagnostics (its `Debug` form).
#[verifier::opaque]
pub open spec fn kind_debug(k: TokM) -> Seq<char> {
    match k {
        TokM::Fn => "Fn"@,
        TokM::Let => "Let"@,
        TokM::Mut => "Mut"@,
        TokM::Return => "Return"@,
        TokM::If => "If"@,
        TokM::Else => "Else"@,
        TokM::While => "While"@,
        TokM::True => "True"@,
        TokM::False => "False"@,
        TokM::Struct => "Struct"@,
        TokM::Impl => "Impl"@,
        TokM::SelfKw => "SelfKw"@,
        TokM::Enum => "Enum"@,
        TokM::Match => "Match"@,
        TokM::Unsafe => "Unsafe"@,
        TokM::As => "As"@,
        TokM::Ident(s) => "Ident("@ + str_debug(s) + ")"@,
        TokM::IntLit(n) => "IntLit("@ + int_to_dec(n as int) + ")"@,
        TokM::FloatLit(s) => "FloatLit("@ + s + ")"@,
        TokM::CharLit(c) => "CharLit("@ + nat_to_dec(c as nat) + ")"@,
        TokM::StringLit(s) => "StringLit("@ + str_debug(s) + ")"@,
        TokM::Plus => "Plus"@,
        TokM::Minus => "Minus"@,
        TokM::Star => "Star"@,
        TokM::Slash => "Slash"@,
        TokM::Percent => "Percent"@,
        TokM::Amp => "Amp"@,
        TokM::Pipe => "Pipe"@,
        TokM::Caret => "Caret"@,
        TokM::Tilde => "Tilde"@,
        TokM::Shl => "Shl"@,
        TokM::Shr => "Shr"@,
        TokM::EqEq => "EqEq"@,
        TokM::BangEq => "BangEq"@,
        TokM::Lt => "Lt"@,
        TokM::Gt => "Gt"@,
        TokM::Le => "Le"@,
        TokM::Ge => "Ge"@,
        TokM::AmpAmp => "AmpAmp"@,
        TokM::PipePipe => "PipePipe"@,
        TokM::LParen => "LParen"@,
        TokM::RParen => "RParen"@,
        TokM::LBrace => "LBrace"@,
        TokM::RBrace => "RBrace"@,
        TokM::Semicolon => "Semicolon"@,
        TokM::Comma => "Comma"@,
        TokM::Dot => "Dot"@,
        TokM::Colon => "Colon"@,
        TokM::ColonColon => "ColonColon"@,
        TokM::Eq => "Eq"@,
        TokM::Arrow => "Arrow"@,
        TokM::FatArrow => "FatArrow"@,
        TokM::Bang => "Bang"@,
        TokM::Eof => "Eof"@,
    }
}

/// The message `expected <what>, got <token kind>`.
pub open spec fn got(what: Seq<char>, k: TokM) -> Seq<char> {
    "expected "@ + what + ", got "@ + kind_debug(k)
}

// ---------------------------------------------------------------------------
// Single tokens
// ---------------------------------------------------------------------------

pub open spec fn expect(t: Seq<TokenM>, p: nat, k: TokM) -> Result<nat, ErrM> {
    if kind_at(t, p) == k {
        Ok(p + 1)
    } else {
        Err(fail_at(t, p, got(kind_debug(k), kind_at(t, p))))
    }
}

pub open spec fn expect_ident(t: Seq<TokenM>, p: nat) -> Parsed<Seq<char>> {
    match kind_at(t, p) {
        TokM::Ident(n) => Ok((n, p + 1)),
        _ => Err(fail_at(t, p, got("identifier"@, kind_at(t, p)))),
    }
}

/// The separator of a comma-separated list: a `,` before every element but the first.
pub open spec fn sep(t: Seq<TokenM>, p: nat, first: bool) -> Result<nat, ErrM> {
    if first {
        Ok(p)
    } else {
        expect(t, p, TokM::Comma)
    }
}

/// Whether the list that stands at `p` has ended: at its closing token or at `Eof`.
pub open spec fn closes(t: Seq<TokenM>, p: nat, close: TokM) -> bool {
    kind_at(t, p) == close || kind_at(t, p) is Eof
}

// ---------------------------------------------------------------------------
// Types
// ---------------------------------------------------------------------------

/// A type named by one identifier: a primitive, or a named type.
#[verifier::opaque]
pub open spec fn named_ty(n: Seq<char>) -> TyM {
    if n == "i8"@ {
        TyM::I8
    } else if n == "i16"@ {
        TyM::I16
    } else if n == "i32"@ {
        TyM::I32
    } else if n == "i64"@ {
        TyM::I64
    } else if n == "isize"@ {
        TyM::Isize
    } else if n == "u8"@ {
        TyM::U8
    } else if n == "u16"@ {
        TyM::U16
    } else if n == "u32"@ {
        TyM::U32
    } else if n == "u64"@ {
        TyM::U64
    } else if n == "usize"@ {
        TyM::Usize
    } else if n == "bool"@ {
        TyM::Bool
    } else {
        TyM::Named(n)
    }
}

pub open spec fn star_msg() -> Seq<char> {
    "expected `const` or `mut` after `*` in type"@
}

pub open spec fn s_ty(t: Seq<TokenM>, p: nat) -> Parsed<TyM>
    decreases left(t, p), 1nat,
{
    match kind_at(t, p) {
        TokM::Amp => if kind_at(t, p + 1) is Mut {
            match s_ty(t, p + 2) {
                Ok((e, q)) => Ok((TyM::RefMut(Box::new(e)), q)),
                Err(err) => Err(err),
            }
        } else {
            match s_ty(t, p + 1) {
                Ok((e, q)) => Ok((TyM::Ref(Box::new(e)), q)),
                Err(err) => Err(err),
            }
        },
        TokM::Star => match kind_at(t, p + 1) {
            TokM::Ident(kw) => if kw == "const"@ {
                match s_ty(t, p + 2) {
                    Ok((e, q)) => Ok((TyM::RawConst(Box::new(e)), q)),
                    Err(err) => Err(err),
                }
            } else {
                Err(fail_at(t, p + 1, star_msg()))
            },
            TokM::Mut => match s_ty(t, p + 2) {
                Ok((e, q)) => Ok((TyM::RawMut(Box::new(e)), q)),
                Err(err) => Err(err),
            },
            _ => Err(fail_at(t, p + 1, star_msg())),
        },
        TokM::Ident(n) => Ok((named_ty(n), p + 1)),
        TokM::LParen => if kind_at(t, p + 1) is RParen {
            Ok((TyM::Unit, p + 2))
        } else {
            match s_ty(t, p + 1) {
                Err(err) => Err(err),
                Ok((first, q0)) => {
                    let q = resume(t, p + 1, q0);
                    if kind_at(t, q) is Comma {
                        match s_ty_tuple(t, q, seq![first]) {
                            Err(err) => Err(err),
                            Ok((tys, q1)) => match expect(t, q1, TokM::RParen) {
                                Ok(r) => Ok((TyM::Tuple(tys), r)),
                                Err(err) => Err(err),
                            },
                        }
                    } else {
                        match expect(t, q, TokM::RParen) {
                            Ok(r) => Ok((first, r)),
                            Err(err) => Err(err),
                        }
                    }
                },
            }
        },
        _ => Err(fail_at(t, p, got("type"@, kind_at(t, p)))),
    }
}

/// The rest of a tuple type: `, T` while a comma follows, stopping before `)`.
pub open spec fn s_ty_tuple(t: Seq<TokenM>, p: nat, acc: Seq<TyM>) -> Parsed<Seq<TyM>>
    decreases left(t, p), 0nat,
{
    if kind_at(t, p) is Comma {
        if kind_at(t, p + 1) is RParen {
            Ok((acc, p + 1))
        } else {
            match s_ty(t, p + 1) {
                Err(err) => Err(err),
                Ok((ty, q)) => s_ty_tuple(t, resume(t, p + 1, q), acc.push(ty)),
            }
        }
    } else {
        Ok((acc, p))
    }
}

// ---------------------------------------------------------------------------
// Items
// ---------------------------------------------------------------------------

/// The whole token sequence as a file: its items, up to `Eof`.
pub open spec fn s_parse(t: Seq<TokenM>) -> Result<Seq<ItemM>, ErrM> {
    s_items(t, 0, Seq::empty())
}

pub open spec fn s_items(t: Seq<TokenM>, p: nat, acc: Seq<ItemM>) -> Result<Seq<ItemM>, ErrM>
    decreases left(t, p),
{
    if kind_at(t, p) is Eof {
        Ok(acc)
    } else {
        match s_item(t, p) {
            Err(e) => Err(e),
            Ok((it, q)) => s_items(t, past(t, p, q), acc.push(it)),
        }
    }
}

#[verifier::opaque]
pub open spec fn s_item(t: Seq<TokenM>, p: nat) -> Parsed<ItemM> {
    match kind_at(t, p) {
        TokM::Fn => match s_fn(t, p) {
            Ok((f, q)) => Ok((ItemM::Fn(f), q)),
            Err(e) => Err(e),
        },
        TokM::Struct => match s_struct(t, p) {
            Ok((s, q)) => Ok((ItemM::Struct(s), q)),
            Err(e) => Err(e),
        },
        TokM::Impl => match s_impl(t, p) {
            Ok((i, q)) => Ok((ItemM::Impl(i), q)),
            Err(e) => Err(e),
        },
        TokM::Enum => match s_enum(t, p) {
            Ok((en, q)) => Ok((ItemM::Enum(en), q)),
            Err(e) => Err(e),
        },
        _ => Err(fail_at(t, p, got("item"@, kind_at(t, p)))),
    }
}

pub open spec fn s_enum(t: Seq<TokenM>, p: nat) -> Parsed<EnumM> {
    match expect(t, p, TokM::Enum) {
        Err(e) => Err(e),
        Ok(p1) => match expect_ident(t, p1) {
            Err(e) => Err(e),
            Ok((name, p2)) => match expect(t, p2, TokM::LBrace) {
                Err(e) => Err(e),
                Ok(p3) => match s_variants(t, p3, Seq::empty()) {
                    Err(e) => Err(e),
                    Ok((variants, p4)) => match expect(t, p4, TokM::RBrace) {
                        Err(e) => Err(e),
                        Ok(p5) => Ok(
                            (EnumM { name, variants, is_pub: false, loc: loc_at(t, p) }, p5),
                        ),
                    },
                },
            },
        },
    }
}

pub open spec fn s_variants(t: Seq<TokenM>, p: nat, acc: Seq<VariantM>) -> Parsed<Seq<VariantM>>
    decreases left(t, p),
{
    if closes(t, p, TokM::RBrace) {
        Ok((acc, p))
    } else {
        match sep(t, p, acc.len() == 0) {
            Err(e) => Err(e),
            Ok(p1) => if acc.len() > 0 && kind_at(t, p1) is RBrace {
                Ok((acc, p1))
            } else {
                match expect_ident(t, p1) {
                    Err(e) => Err(e),
                    Ok((name, p2)) => match s_variant_fields(t, p2) {
                        Err(e) => Err(e),
                        Ok((fields, p3)) => s_variants(
                            t,
                            past(t, p, p3),
                            acc.push(VariantM { name, fields }),
                        ),
                    },
                }
            },
        }
    }
}

pub open spec fn s_variant_fields(t: Seq<TokenM>, p: nat) -> Parsed<VarFieldsM> {
    if kind_at(t, p) is LParen {
        match s_ty_list(t, p + 1, Seq::empty()) {
            Err(e) => Err(e),
            Ok((tys, q)) => match expect(t, q, TokM::RParen) {
                Err(e) => Err(e),
                Ok(q1) => Ok((VarFieldsM::Tuple(tys), q1)),
            },
        }
    } else if kind_at(t, p) is LBrace {
        match s_field_decls(t, p + 1, Seq::empty()) {
            Err(e) => Err(e),
            Ok((fields, q)) => match expect(t, q, TokM::RBrace) {
                Err(e) => Err(e),
                Ok(q1) => Ok((VarFieldsM::Named(fields), q1)),
            },
        }
    } else {
        Ok((VarFieldsM::Unit, p))
    }
}

/// Comma-separated types up to `)`.
pub open spec fn s_ty_list(t: Seq<TokenM>, p: nat, acc: Seq<TyM>) -> Parsed<Seq<TyM>>
    decreases left(t, p),
{
    if closes(t, p, TokM::RParen) {
        Ok((acc, p))
    } else {
        match sep(t, p, acc.len() == 0) {
            Err(e) => Err(e),
            Ok(p1) => match s_ty(t, p1) {
                Err(e) => Err(e),
                Ok((ty, q)) => s_ty_list(t, past(t, p, q), acc.push(ty)),
            },
        }
    }
}

/// Comma-separated `name: Type` declarations up to `}`, with an optional trailing comma.
pub open spec fn s_field_decls(t: Seq<TokenM>, p: nat, acc: Seq<FieldM>) -> Parsed<Seq<FieldM>>
    decreases left(t, p),
{
    if closes(t, p, TokM::RBrace) {
        Ok((acc, p))
    } else {
        match sep(t, p, acc.len() == 0) {
            Err(e) => Err(e),
            Ok(p1) => if acc.len() > 0 && kind_at(t, p1) is RBrace {
                Ok((acc, p1))
            } else {
                match expect_ident(t, p1) {
                    Err(e) => Err(e),
                    Ok((name, p2)) => match expect(t, p2, TokM::Colon) {
                        Err(e) => Err(e),
                        Ok(p3) => match s_ty(t, p3) {
                            Err(e) => Err(e),
                            Ok((ty, q)) => s_field_decls(
                                t,
                                past(t, p, q),
                                acc.push(FieldM { name, ty, is_pub: false }),
                            ),
                        },
                    },
                }
            },
        }
    }
}

pub open spec fn s_struct(t: Seq<TokenM>, p: nat) -> Parsed<StructM> {
    match expect(t, p, TokM::Struct) {
        Err(e) => Err(e),
        Ok(p1) => match expect_ident(t, p1) {
            Err(e) => Err(e),
            Ok((name, p2)) => match expect(t, p2, TokM::LBrace) {
                Err(e) => Err(e),
                Ok(p3) => match s_field_decls(t, p3, Seq::empty()) {
                    Err(e) => Err(e),
                    Ok((fields, p4)) => match expect(t, p4, TokM::RBrace) {
                        Err(e) => Err(e),
                        Ok(p5) => Ok(
                            (
                                StructM {
                                    name,
                                    fields,
                                    is_pub: false,
                                    is_tuple: false,
                                    loc: loc_at(t, p),
                                },
                                p5,
                            ),
                        ),
                    },
                },
            },
        },
    }
}

pub open spec fn s_impl(t: Seq<TokenM>, p: nat) -> Parsed<ImplM> {
    match expect(t, p, TokM::Impl) {
        Err(e) => Err(e),
        Ok(p1) => match expect_ident(t, p1) {
            Err(e) => Err(e),
            Ok((ty_name, p2)) => match expect(t, p2, TokM::LBrace) {
                Err(e) => Err(e),
                Ok(p3) => match s_methods(t, p3, Seq::empty()) {
                    Err(e) => Err(e),
                    Ok((methods, p4)) => match expect(t, p4, TokM::RBrace) {
                        Err(e) => Err(e),
                        Ok(p5) => Ok((ImplM { ty_name, trait_name: None, methods }, p5)),
                    },
                },
            },
        },
    }
}

pub open spec fn s_methods(t: Seq<TokenM>, p: nat, acc: Seq<FnM>) -> Parsed<Seq<FnM>>
    decreases left(t, p),
{
    if closes(t, p, TokM::RBrace) {
        Ok((acc, p))
    } else {
        match s_fn(t, p) {
            Err(e) => Err(e),
            Ok((f, q)) => s_methods(t, past(t, p, q), acc.push(f)),
        }
    }
}

pub open spec fn s_fn(t: Seq<TokenM>, p: nat) -> Parsed<FnM> {
    match expect(t, p, TokM::Fn) {
        Err(e) => Err(e),
        Ok(p1) => match expect_ident(t, p1) {
            Err(e) => Err(e),
            Ok((name, p2)) => match expect(t, p2, TokM::LParen) {
                Err(e) => Err(e),
                Ok(p3) => match s_receiver_and_params(t, p3) {
                    Err(e) => Err(e),
                    Ok(((receiver, params), p4)) => match expect(t, p4, TokM::RParen) {
                        Err(e) => Err(e),
                        Ok(p5) => match s_ret_ty(t, p5) {
                            Err(e) => Err(e),
                            Ok((ret, p6)) => match s_block(t, p6) {
                                Err(e) => Err(e),
                                Ok((body, p7)) => Ok(
                                    (
                                        FnM {
                                            name,
                                            receiver,
                                            params,
                                            ret,
                                            body,
                                            is_pub: false,
                                            loc: loc_at(t, p),
                                        },
                                        p7,
                                    ),
                                ),
                            },
                        },
                    },
                },
            },
        },
    }
}

/// `-> Type`, or the unit type when no arrow follows.
pub open spec fn s_ret_ty(t: Seq<TokenM>, p: nat) -> Parsed<TyM> {
    if kind_at(t, p) is Arrow {
        s_ty(t, p + 1)
    } else {
        Ok((TyM::Unit, p))
    }
}

/// An optional comma.
pub open spec fn skip_comma(t: Seq<TokenM>, p: nat) -> nat {
    if kind_at(t, p) is Comma {
        p + 1
    } else {
        p
    }
}

pub open spec fn s_receiver(t: Seq<TokenM>, p: nat) -> Parsed<Option<Receiver>> {
    if kind_at(t, p) is SelfKw {
        Ok((Some(Receiver::Value), skip_comma(t, p + 1)))
    } else if kind_at(t, p) is Amp {
        let (r, q) = if kind_at(t, p + 1) is Mut {
            (Receiver::RefMut, p + 2)
        } else {
            (Receiver::Ref, p + 1)
        };
        match expect(t, q, TokM::SelfKw) {
            Err(e) => Err(e),
            Ok(q1) => Ok((Some(r), skip_comma(t, q1))),
        }
    } else {
        Ok((None, p))
    }
}

/// An optional `self`, `&self` or `&mut self`, then the parameters.
pub open spec fn s_receiver_and_params(t: Seq<TokenM>, p: nat) -> Parsed<
    (Option<Receiver>, Seq<ParamM>),
> {
    match s_receiver(t, p) {
        Err(e) => Err(e),
        Ok((receiver, q)) => match s_params(t, q, Seq::empty()) {
            Err(e) => Err(e),
            Ok((params, q1)) => Ok(((receiver, params), q1)),
        },
    }
}

pub open spec fn s_params(t: Seq<TokenM>, p: nat, acc: Seq<ParamM>) -> Parsed<Seq<ParamM>>
    decreases left(t, p),
{
    if closes(t, p, TokM::RParen) {
        Ok((acc, p))
    } else {
        match sep(t, p, acc.len() == 0) {
            Err(e) => Err(e),
            Ok(p1) => if acc.len() > 0 && kind_at(t, p1) is RParen {
                Ok((acc, p1))
            } else {
                match expect_ident(t, p1) {
                    Err(e) => Err(e),
                    Ok((name, p2)) => match expect(t, p2, TokM::Colon) {
                        Err(e) => Err(e),
                        Ok(p3) => match s_ty(t, p3) {
                            Err(e) => Err(e),
                            Ok((ty, q)) => s_params(
                                t,
                                past(t, p, q),
                                acc.push(ParamM { name, ty }),
                            ),
                        },
                    },
                }
            },
        }
    }
}

// ---------------------------------------------------------------------------
// Patterns
// ---------------------------------------------------------------------------

pub open spec fn s_pat(t: Seq<TokenM>, p: nat) -> Parsed<PatM> {
    match kind_at(t, p) {
        TokM::Ident(name) => if name == "_"@ {
            Ok((PatM::Wildcard, p + 1))
        } else if name.len() > 0 && is_upper(name[0]) {
            s_variant_pat(t, p + 1, name)
        } else {
            Err(fail_at(t, p, got("pattern"@, kind_at(t, p))))
        },
        TokM::True => Ok((PatM::Bool(true), p + 1)),
        TokM::False => Ok((PatM::Bool(false), p + 1)),
        TokM::IntLit(n) => Ok((PatM::Int(n), p + 1)),
        TokM::Minus => match kind_at(t, p + 1) {
            TokM::IntLit(n) => Ok((PatM::Int(neg_wrapping(n)), p + 2)),
            _ => Err(fail_at(t, p, "expected integer after `-` in pattern"@)),
        },
        _ => Err(fail_at(t, p, got("pattern"@, kind_at(t, p)))),
    }
}

/// The negation of `n`, wrapping: `-i64::MIN` is `i64::MIN`.
pub open spec fn neg_wrapping(n: i64) -> i64 {
    if n == i64::MIN {
        n
    } else {
        (-n) as i64
    }
}

/// `::Variant` and its bindings, after the enum's name.
pub open spec fn s_variant_pat(t: Seq<TokenM>, p: nat, ty_name: Seq<char>) -> Parsed<PatM> {
    match expect(t, p, TokM::ColonColon) {
        Err(e) => Err(e),
        Ok(p1) => match expect_ident(t, p1) {
            Err(e) => Err(e),
            Ok((variant, p2)) => if kind_at(t, p2) is LParen {
                match s_tuple_binds(t, p2 + 1, Seq::empty()) {
                    Err(e) => Err(e),
                    Ok((binds, q)) => match expect(t, q, TokM::RParen) {
                        Err(e) => Err(e),
                        Ok(q1) => Ok((PatM::Variant(ty_name, variant, BindsM::Tuple(binds)), q1)),
                    },
                }
            } else if kind_at(t, p2) is LBrace {
                match s_named_binds(t, p2 + 1, Seq::empty()) {
                    Err(e) => Err(e),
                    Ok((binds, q)) => match expect(t, q, TokM::RBrace) {
                        Err(e) => Err(e),
                        Ok(q1) => Ok(
                            (PatM::Variant(ty_name, variant, BindsM::Named(binds, false)), q1),
                        ),
                    },
                }
            } else {
                Ok((PatM::Variant(ty_name, variant, BindsM::Empty), p2))
            },
        },
    }
}

/// Comma-separated names up to `)`, each bound as it stands.
pub open spec fn s_tuple_binds(t: Seq<TokenM>, p: nat, acc: Seq<PatM>) -> Parsed<Seq<PatM>>
    decreases left(t, p),
{
    if closes(t, p, TokM::RParen) {
        Ok((acc, p))
    } else {
        match sep(t, p, acc.len() == 0) {
            Err(e) => Err(e),
            Ok(p1) => match expect_ident(t, p1) {
                Err(e) => Err(e),
                Ok((name, p2)) => s_tuple_binds(t, p2, acc.push(PatM::Binding(name))),
            },
        }
    }
}

/// Comma-separated `field` or `field: name` up to `}`.
pub open spec fn s_named_binds(t: Seq<TokenM>, p: nat, acc: Seq<(Seq<char>, Seq<char>)>) -> Parsed<
    Seq<(Seq<char>, Seq<char>)>,
>
    decreases left(t, p),
{
    if closes(t, p, TokM::RBrace) {
        Ok((acc, p))
    } else {
        match sep(t, p, acc.len() == 0) {
            Err(e) => Err(e),
            Ok(p1) => if kind_at(t, p1) is RBrace {
                Ok((acc, p1))
            } else {
                match expect_ident(t, p1) {
                    Err(e) => Err(e),
                    Ok((field, p2)) => if kind_at(t, p2) is Colon {
                        match expect_ident(t, p2 + 1) {
                            Err(e) => Err(e),
                            Ok((name, p3)) => s_named_binds(t, p3, acc.push((field, name))),
                        }
                    } else {
                        s_named_binds(t, p2, acc.push((field, field)))
                    },
                }
            },
        }
    }
}

// ---------------------------------------------------------------------------
// Blocks and statements
// ---------------------------------------------------------------------------

pub open spec fn s_block(t: Seq<TokenM>, p: nat) -> Parsed<Seq<StmtM>>
    decreases left(t, p), 50nat,
{
    match expect(t, p, TokM::LBrace) {
        Err(e) => Err(e),
        Ok(p1) => match s_stmts(t, p1, Seq::empty()) {
            Err(e) => Err(e),
            Ok((stmts, q)) => match expect(t, q, TokM::RBrace) {
                Err(e) => Err(e),
                Ok(q1) => Ok((stmts, q1)),
            },
        },
    }
}

pub open spec fn s_stmts(t: Seq<TokenM>, p: nat, acc: Seq<StmtM>) -> Parsed<Seq<StmtM>>
    decreases left(t, p), 49nat,
{
    if closes(t, p, TokM::RBrace) {
        Ok((acc, p))
    } else {
        match s_stmt(t, p) {
            Err(e) => Err(e),
            Ok((s, q)) => s_stmts(t, past(t, p, q), acc.push(s)),
        }
    }
}

pub open spec fn mk_stmt(kind: StmtKindM, loc: Loc) -> StmtM {
    StmtM { kind, loc }
}

pub open spec fn mk_expr(kind: ExprKindM, loc: Loc) -> ExprM {
    ExprM { kind, loc }
}

pub open spec fn s_stmt(t: Seq<TokenM>, p: nat) -> Parsed<StmtM>
    decreases left(t, p), 48nat,
{
    let loc = loc_at(t, p);
    match kind_at(t, p) {
        TokM::Let => s_let(t, p),
        TokM::Return => s_return(t, p),
        TokM::If => s_if(t, p),
        TokM::While => s_while(t, p),
        TokM::Match => s_match(t, p),
        TokM::Unsafe => s_unsafe_stmt(t, p),
        TokM::Ident(n) => if n == "println"@ {
            s_println(t, p)
        } else {
            s_ident_stmt(t, p)
        },
        TokM::SelfKw => s_ident_stmt(t, p),
        _ => s_expr_stmt(t, p),
    }
}

/// `unsafe { ... }` as a statement: the block's value when it ends the enclosing
/// block, else an expression statement with an optional `;`.
pub open spec fn s_unsafe_stmt(t: Seq<TokenM>, p: nat) -> Parsed<StmtM>
    decreases left(t, p), 47nat,
{
    let loc = loc_at(t, p);
    match expect(t, p, TokM::Unsafe) {
        Err(e) => Err(e),
        Ok(p1) => match s_block(t, p1) {
            Err(e) => Err(e),
            Ok((b, q)) => {
                let e = mk_expr(ExprKindM::Unsafe(b), loc);
                if kind_at(t, q) is RBrace {
                    Ok((mk_stmt(StmtKindM::Return(Some(e)), loc), q))
                } else {
                    Ok((mk_stmt(StmtKindM::Expr(e), loc), skip_semi(t, q)))
                }
            },
        },
    }
}

/// An optional semicolon.
pub open spec fn skip_semi(t: Seq<TokenM>, p: nat) -> nat {
    if kind_at(t, p) is Semicolon {
        p + 1
    } else {
        p
    }
}

/// An expression statement that starts with an identifier or `self`: an assignment to
/// a variable, an assignment through a place, a tail value, or `expr;`.
pub open spec fn s_ident_stmt(t: Seq<TokenM>, p: nat) -> Parsed<StmtM>
    decreases left(t, p), 47nat,
{
    let loc = loc_at(t, p);
    match s_expr(t, p) {
        Err(e) => Err(e),
        Ok((lhs, q0)) => {
            let q = resume(t, p, q0);
            if kind_at(t, q) is Eq {
                match s_expr(t, q + 1) {
                    Err(e) => Err(e),
                    Ok((rhs, q1)) => match expect(t, q1, TokM::Semicolon) {
                        Err(e) => Err(e),
                        Ok(q2) => match lhs.kind {
                            ExprKindM::Var(name) => Ok(
                                (mk_stmt(StmtKindM::Assign(name, rhs), loc), q2),
                            ),
                            _ => Ok(
                                (
                                    mk_stmt(
                                        StmtKindM::Expr(
                                            mk_expr(
                                                ExprKindM::BinOp(
                                                    BinOp::Eq,
                                                    Box::new(lhs),
                                                    Box::new(rhs),
                                                ),
                                                loc,
                                            ),
                                        ),
                                        loc,
                                    ),
                                    q2,
                                ),
                            ),
                        },
                    },
                }
            } else if kind_at(t, q) is RBrace {
                Ok((mk_stmt(StmtKindM::Return(Some(lhs)), loc), q))
            } else {
                match expect(t, q, TokM::Semicolon) {
                    Err(e) => Err(e),
                    Ok(q1) => Ok((mk_stmt(StmtKindM::Expr(lhs), loc), q1)),
                }
            }
        },
    }
}

/// Any other expression statement: an assignment through a place, a tail value, or
/// `expr;`.
pub open spec fn s_expr_stmt(t: Seq<TokenM>, p: nat) -> Parsed<StmtM>
    decreases left(t, p), 47nat,
{
    let loc = loc_at(t, p);
    match s_expr(t, p) {
        Err(e) => Err(e),
        Ok((lhs, q0)) => {
            let q = resume(t, p, q0);
            if kind_at(t, q) is Eq {
                match s_expr(t, q + 1) {
                    Err(e) => Err(e),
                    Ok((rhs, q1)) => match expect(t, q1, TokM::Semicolon) {
                        Err(e) => Err(e),
                        Ok(q2) => Ok(
                            (
                                mk_stmt(
                                    StmtKindM::Expr(
                                        mk_expr(
                                            ExprKindM::BinOp(
                                                BinOp::Eq,
                                                Box::new(lhs),
                                                Box::new(rhs),
                                            ),
                                            loc,
                                        ),
                                    ),
                                    loc,
                                ),
                                q2,
                            ),
                        ),
                    },
                }
            } else if kind_at(t, q) is RBrace {
                Ok((mk_stmt(StmtKindM::Return(Some(lhs)), loc), q))
            } else {
                match expect(t, q, TokM::Semicolon) {
                    Err(e) => Err(e),
                    Ok(q1) => Ok((mk_stmt(StmtKindM::Expr(lhs), loc), q1)),
                }
            }
        },
    }
}

pub open spec fn s_let(t: Seq<TokenM>, p: nat) -> Parsed<StmtM>
    decreases left(t, p), 47nat,
{
    match expect(t, p, TokM::Let) {
        Err(e) => Err(e),
        Ok(p1) => {
            let mutable = kind_at(t, p1) is Mut;
            let p2 = if mutable {
                p1 + 1
            } else {
                p1
            };
            match expect_ident(t, p2) {
                Err(e) => Err(e),
                Ok((name, p3)) => match s_let_ty(t, p3) {
                    Err(e) => Err(e),
                    Ok((ty, p4)) => match expect(t, p4, TokM::Eq) {
                        Err(e) => Err(e),
                        Ok(p5) => match s_expr(t, resume(t, p1, p5)) {
                            Err(e) => Err(e),
                            Ok((init, p6)) => match expect(t, p6, TokM::Semicolon) {
                                Err(e) => Err(e),
                                Ok(p7) => Ok(
                                    (
                                        mk_stmt(
                                            StmtKindM::Let(name, mutable, ty, init),
                                            loc_at(t, p),
                                        ),
                                        p7,
                                    ),
                                ),
                            },
                        },
                    },
                },
            }
        },
    }
}

/// `: Type`, or no annotation.
pub open spec fn s_let_ty(t: Seq<TokenM>, p: nat) -> Parsed<Option<TyM>> {
    if kind_at(t, p) is Colon {
        match s_ty(t, p + 1) {
            Err(e) => Err(e),
            Ok((ty, q)) => Ok((Some(ty), q)),
        }
    } else {
        Ok((None, p))
    }
}

pub open spec fn s_return(t: Seq<TokenM>, p: nat) -> Parsed<StmtM>
    decreases left(t, p), 47nat,
{
    match expect(t, p, TokM::Return) {
        Err(e) => Err(e),
        Ok(p1) => if kind_at(t, p1) is Semicolon {
            Ok((mk_stmt(StmtKindM::Return(None), loc_at(t, p)), p1 + 1))
        } else {
            match s_expr(t, p1) {
                Err(e) => Err(e),
                Ok((e, q)) => match expect(t, q, TokM::Semicolon) {
                    Err(err) => Err(err),
                    Ok(q1) => Ok((mk_stmt(StmtKindM::Return(Some(e)), loc_at(t, p)), q1)),
                },
            }
        },
    }
}

pub open spec fn s_if(t: Seq<TokenM>, p: nat) -> Parsed<StmtM>
    decreases left(t, p), 47nat,
{
    match expect(t, p, TokM::If) {
        Err(e) => Err(e),
        Ok(p1) => match s_expr(t, p1) {
            Err(e) => Err(e),
            Ok((cond, q0)) => match s_block(t, resume(t, p1, q0)) {
                Err(e) => Err(e),
                Ok((then_block, q1)) => {
                    let q = resume(t, p1, q1);
                    if kind_at(t, q) is Else {
                        if kind_at(t, q + 1) is If {
                            match s_if(t, q + 1) {
                                Err(e) => Err(e),
                                Ok((inner, q2)) => Ok(
                                    (
                                        mk_stmt(
                                            StmtKindM::If(cond, then_block, Some(seq![inner])),
                                            loc_at(t, p),
                                        ),
                                        q2,
                                    ),
                                ),
                            }
                        } else {
                            match s_block(t, q + 1) {
                                Err(e) => Err(e),
                                Ok((else_block, q2)) => Ok(
                                    (
                                        mk_stmt(
                                            StmtKindM::If(cond, then_block, Some(else_block)),
                                            loc_at(t, p),
                                        ),
                                        q2,
                                    ),
                                ),
                            }
                        }
                    } else {
                        Ok((mk_stmt(StmtKindM::If(cond, then_block, None), loc_at(t, p)), q))
                    }
                },
            },
        },
    }
}

pub open spec fn s_while(t: Seq<TokenM>, p: nat) -> Parsed<StmtM>
    decreases left(t, p), 47nat,
{
    match expect(t, p, TokM::While) {
        Err(e) => Err(e),
        Ok(p1) => match s_expr(t, p1) {
            Err(e) => Err(e),
            Ok((cond, q0)) => match s_block(t, resume(t, p1, q0)) {
                Err(e) => Err(e),
                Ok((body, q1)) => Ok((mk_stmt(StmtKindM::While(cond, body), loc_at(t, p)), q1)),
            },
        },
    }
}

pub open spec fn s_match(t: Seq<TokenM>, p: nat) -> Parsed<StmtM>
    decreases left(t, p), 47nat,
{
    match expect(t, p, TokM::Match) {
        Err(e) => Err(e),
        Ok(p1) => match s_expr(t, p1) {
            Err(e) => Err(e),
            Ok((scrutinee, q0)) => match expect(t, resume(t, p1, q0), TokM::LBrace) {
                Err(e) => Err(e),
                Ok(q1) => match s_arms(t, q1, Seq::empty()) {
                    Err(e) => Err(e),
                    Ok((arms, q2)) => match expect(t, q2, TokM::RBrace) {
                        Err(e) => Err(e),
                        Ok(q3) => Ok(
                            (mk_stmt(StmtKindM::Match(scrutinee, arms), loc_at(t, p)), q3),
                        ),
                    },
                },
            },
        },
    }
}

pub open spec fn s_arms(t: Seq<TokenM>, p: nat, acc: Seq<ArmM>) -> Parsed<Seq<ArmM>>
    decreases left(t, p), 46nat,
{
    if closes(t, p, TokM::RBrace) {
        Ok((acc, p))
    } else {
        match s_pat(t, p) {
            Err(e) => Err(e),
            Ok((pat, q0)) => match expect(t, past(t, p, q0), TokM::FatArrow) {
                Err(e) => Err(e),
                Ok(q1) => match s_arm_body(t, q1) {
                    Err(e) => Err(e),
                    Ok((body, q2)) => s_arms(
                        t,
                        skip_comma(t, resume(t, q1, q2)),
                        acc.push(ArmM { pat, guarded: false, body }),
                    ),
                },
            },
        }
    }
}

/// A block, or a single statement standing for one.
pub open spec fn s_arm_body(t: Seq<TokenM>, p: nat) -> Parsed<Seq<StmtM>>
    decreases left(t, p), 51nat,
{
    if kind_at(t, p) is LBrace {
        s_block(t, p)
    } else {
        match s_arm_stmt(t, p) {
            Err(e) => Err(e),
            Ok((s, q)) => Ok((seq![s], q)),
        }
    }
}

pub open spec fn s_arm_stmt(t: Seq<TokenM>, p: nat) -> Parsed<StmtM>
    decreases left(t, p), 45nat,
{
    let loc = loc_at(t, p);
    if kind_at(t, p) == TokM::Ident("println"@) {
        match s_print_call(t, p) {
            Err(e) => Err(e),
            Ok(((format, args), q)) => Ok(
                (mk_stmt(StmtKindM::Println(format, args), loc), skip_semi(t, q)),
            ),
        }
    } else {
        match s_expr(t, p) {
            Err(e) => Err(e),
            Ok((e, q)) => if kind_at(t, q) is Semicolon {
                Ok((mk_stmt(StmtKindM::Expr(e), loc), q + 1))
            } else {
                Ok((mk_stmt(StmtKindM::Return(Some(e)), loc), q))
            },
        }
    }
}

pub open spec fn s_println(t: Seq<TokenM>, p: nat) -> Parsed<StmtM>
    decreases left(t, p), 47nat,
{
    match s_print_call(t, p) {
        Err(e) => Err(e),
        Ok(((format, args), q)) => match expect(t, q, TokM::Semicolon) {
            Err(e) => Err(e),
            Ok(q1) => Ok((mk_stmt(StmtKindM::Println(format, args), loc_at(t, p)), q1)),
        },
    }
}

/// `println!("format", args...)`: the format string and the arguments.
pub open spec fn s_print_call(t: Seq<TokenM>, p: nat) -> Parsed<(Seq<char>, Seq<ExprM>)>
    decreases left(t, p), 44nat,
{
    match expect_ident(t, p) {
        Err(e) => Err(e),
        Ok((_, p1)) => match expect(t, p1, TokM::Bang) {
            Err(e) => Err(e),
            Ok(p2) => match expect(t, p2, TokM::LParen) {
                Err(e) => Err(e),
                Ok(p3) => match kind_at(t, p3) {
                    TokM::StringLit(format) => match s_print_args(t, p3 + 1, Seq::empty()) {
                        Err(e) => Err(e),
                        Ok((args, q)) => match expect(t, q, TokM::RParen) {
                            Err(e) => Err(e),
                            Ok(q1) => Ok(((format, args), q1)),
                        },
                    },
                    _ => Err(fail_at(t, p3, "println! expects a string literal"@)),
                },
            },
        },
    }
}

/// `, expr` while a comma follows.
pub open spec fn s_print_args(t: Seq<TokenM>, p: nat, acc: Seq<ExprM>) -> Parsed<Seq<ExprM>>
    decreases left(t, p), 43nat,
{
    if kind_at(t, p) is Comma {
        match s_expr(t, p + 1) {
            Err(e) => Err(e),
            Ok((e, q)) => s_print_args(t, resume(t, p + 1, q), acc.push(e)),
        }
    } else {
        Ok((acc, p))
    }
}

// ---------------------------------------------------------------------------
// Expressions
// ---------------------------------------------------------------------------

pub open spec fn s_expr(t: Seq<TokenM>, p: nat) -> Parsed<ExprM>
    decreases left(t, p), 31nat,
{
    s_binary(t, p, 0)
}

/// The binary operator that token `k` stands for at precedence level `level`, from
/// `||` (level 0, binding loosest) to `* / %` (level 9, binding tightest).
pub open spec fn op_at(level: nat, k: TokM) -> Option<BinOp> {
    if level == 0 {
        if k is PipePipe {
            Some(BinOp::Or)
        } else {
            None
        }
    } else if level == 1 {
        if k is AmpAmp {
            Some(BinOp::And)
        } else {
            None
        }
    } else if level == 2 {
        match k {
            TokM::EqEq => Some(BinOp::Eq),
            TokM::BangEq => Some(BinOp::Ne),
            _ => None,
        }
    } else if level == 3 {
        match k {
            TokM::Lt => Some(BinOp::Lt),
            TokM::Gt => Some(BinOp::Gt),
            TokM::Le => Some(BinOp::Le),
            TokM::Ge => Some(BinOp::Ge),
            _ => None,
        }
    } else if level == 4 {
        if k is Pipe {
            Some(BinOp::BitOr)
        } else {
            None
        }
    } else if level == 5 {
        if k is Caret {
            Some(BinOp::BitXor)
        } else {
            None
        }
    } else if level == 6 {
        if k is Amp {
            Some(BinOp::BitAnd)
        } else {
            None
        }
    } else if level == 7 {
        match k {
            TokM::Shl => Some(BinOp::Shl),
            TokM::Shr => Some(BinOp::Shr),
            _ => None,
        }
    } else if level == 8 {
        match k {
            TokM::Plus => Some(BinOp::Add),
            TokM::Minus => Some(BinOp::Sub),
            _ => None,
        }
    } else {
        match k {
            TokM::Star => Some(BinOp::Mul),
            TokM::Slash => Some(BinOp::Div),
            TokM::Percent => Some(BinOp::Rem),
            _ => None,
        }
    }
}

pub open spec fn bin_rank(level: nat) -> nat {
    if level <= 9 {
        (30 - 2 * level) as nat
    } else {
        12
    }
}

/// A left-associative chain of the operators of `level` over operands of the next
/// level (casts below level 9).
pub open spec fn s_binary(t: Seq<TokenM>, p: nat, level: nat) -> Parsed<ExprM>
    decreases left(t, p), bin_rank(level),
{
    let first = if level >= 9 {
        s_cast(t, p)
    } else {
        s_binary(t, p, level + 1)
    };
    match first {
        Err(e) => Err(e),
        Ok((lhs, q)) => s_binary_rest(t, resume(t, p, q), level, lhs, loc_at(t, p)),
    }
}

pub open spec fn s_binary_rest(t: Seq<TokenM>, p: nat, level: nat, lhs: ExprM, loc: Loc) -> Parsed<
    ExprM,
>
    decreases left(t, p), (bin_rank(level) - 1) as nat,
{
    match op_at(level, kind_at(t, p)) {
        None => Ok((lhs, p)),
        Some(op) => {
            let next = if level >= 9 {
                s_cast(t, p + 1)
            } else {
                s_binary(t, p + 1, level + 1)
            };
            match next {
                Err(e) => Err(e),
                Ok((rhs, q)) => s_binary_rest(
                    t,
                    resume(t, p + 1, q),
                    level,
                    mk_expr(ExprKindM::BinOp(op, Box::new(lhs), Box::new(rhs)), loc),
                    loc,
                ),
            }
        },
    }
}

/// `x as T`, binding tighter than the binary operators and looser than the unary ones.
pub open spec fn s_cast(t: Seq<TokenM>, p: nat) -> Parsed<ExprM>
    decreases left(t, p), 10nat,
{
    match s_unary(t, p) {
        Err(e) => Err(e),
        Ok((e, q)) => s_cast_rest(t, resume(t, p, q), e, loc_at(t, p)),
    }
}

pub open spec fn s_cast_rest(t: Seq<TokenM>, p: nat, e: ExprM, loc: Loc) -> Parsed<ExprM>
    decreases left(t, p), 9nat,
{
    if kind_at(t, p) is As {
        match s_ty(t, p + 1) {
            Err(err) => Err(err),
            Ok((ty, q)) => s_cast_rest(
                t,
                resume(t, p + 1, q),
                mk_expr(ExprKindM::Cast(Box::new(e), ty), loc),
                loc,
            ),
        }
    } else {
        Ok((e, p))
    }
}

pub open spec fn s_unary(t: Seq<TokenM>, p: nat) -> Parsed<ExprM>
    decreases left(t, p), 8nat,
{
    let loc = loc_at(t, p);
    match kind_at(t, p) {
        TokM::Minus => match s_unary(t, p + 1) {
            Err(e) => Err(e),
            Ok((e, q)) => Ok((mk_expr(ExprKindM::UnOp(UnOp::Neg, Box::new(e)), loc), q)),
        },
        TokM::Bang => match s_unary(t, p + 1) {
            Err(e) => Err(e),
            Ok((e, q)) => Ok((mk_expr(ExprKindM::UnOp(UnOp::Not, Box::new(e)), loc), q)),
        },
        TokM::Tilde => match s_unary(t, p + 1) {
            Err(e) => Err(e),
            Ok((e, q)) => Ok((mk_expr(ExprKindM::UnOp(UnOp::BitNot, Box::new(e)), loc), q)),
        },
        TokM::Star => match s_unary(t, p + 1) {
            Err(e) => Err(e),
            Ok((e, q)) => Ok((mk_expr(ExprKindM::Deref(Box::new(e)), loc), q)),
        },
        TokM::Amp => {
            let mutable = kind_at(t, p + 1) is Mut;
            match s_unary(
                t,
                if mutable {
                    p + 2
                } else {
                    p + 1
                },
            ) {
                Err(e) => Err(e),
                Ok((e, q)) => Ok((mk_expr(ExprKindM::AddrOf(mutable, Box::new(e)), loc), q)),
            }
        },
        _ => s_postfix(t, p),
    }
}

pub open spec fn s_postfix(t: Seq<TokenM>, p: nat) -> Parsed<ExprM>
    decreases left(t, p), 7nat,
{
    match s_primary(t, p) {
        Err(e) => Err(e),
        Ok((e, q)) => s_postfix_rest(t, resume(t, p, q), e, loc_at(t, p)),
    }
}

/// `.field`, `.0` and `.method(args)` while a dot follows.
pub open spec fn s_postfix_rest(t: Seq<TokenM>, p: nat, e: ExprM, loc: Loc) -> Parsed<ExprM>
    decreases left(t, p), 6nat,
{
    if kind_at(t, p) is Dot {
        match kind_at(t, p + 1) {
            TokM::IntLit(idx) => s_postfix_rest(
                t,
                p + 2,
                mk_expr(ExprKindM::Field(Box::new(e), int_to_dec(idx as int)), loc),
                loc,
            ),
            _ => match expect_ident(t, p + 1) {
                Err(err) => Err(err),
                Ok((field, p2)) => if kind_at(t, p2) is LParen {
                    match s_call_args(t, p2) {
                        Err(err) => Err(err),
                        Ok((args, q)) => s_postfix_rest(
                            t,
                            resume(t, p2, q),
                            mk_expr(ExprKindM::MethodCall(Box::new(e), field, args), loc),
                            loc,
                        ),
                    }
                } else {
                    s_postfix_rest(t, p2, mk_expr(ExprKindM::Field(Box::new(e), field), loc), loc)
                },
            },
        }
    } else {
        Ok((e, p))
    }
}

/// `(args...)`.
pub open spec fn s_call_args(t: Seq<TokenM>, p: nat) -> Parsed<Seq<ExprM>>
    decreases left(t, p), 5nat,
{
    match expect(t, p, TokM::LParen) {
        Err(e) => Err(e),
        Ok(p1) => match s_args(t, p1, Seq::empty()) {
            Err(e) => Err(e),
            Ok((args, q)) => match expect(t, q, TokM::RParen) {
                Err(e) => Err(e),
                Ok(q1) => Ok((args, q1)),
            },
        },
    }
}

/// Comma-separated expressions up to `)`.
pub open spec fn s_args(t: Seq<TokenM>, p: nat, acc: Seq<ExprM>) -> Parsed<Seq<ExprM>>
    decreases left(t, p),
        if acc.len() == 0 {
            32nat
        } else {
            2nat
        },
{
    if closes(t, p, TokM::RParen) {
        Ok((acc, p))
    } else {
        match sep(t, p, acc.len() == 0) {
            Err(e) => Err(e),
            Ok(p1) => match s_expr(t, p1) {
                Err(e) => Err(e),
                Ok((e, q)) => s_args(t, past(t, p, q), acc.push(e)),
            },
        }
    }
}

pub open spec fn s_primary(t: Seq<TokenM>, p: nat) -> Parsed<ExprM>
    decreases left(t, p), 4nat,
{
    let loc = loc_at(t, p);
    match kind_at(t, p) {
        TokM::IntLit(n) => Ok((mk_expr(ExprKindM::Int(n), loc), p + 1)),
        TokM::True => Ok((mk_expr(ExprKindM::Bool(true), loc), p + 1)),
        TokM::False => Ok((mk_expr(ExprKindM::Bool(false), loc), p + 1)),
        TokM::SelfKw => Ok((mk_expr(ExprKindM::Var("self"@), loc), p + 1)),
        TokM::Ident(name) => s_path(t, p + 1, name, loc),
        TokM::LParen => s_paren(t, p + 1, loc),
        TokM::Unsafe => match s_block(t, p + 1) {
            Err(e) => Err(e),
            Ok((b, q)) => Ok((mk_expr(ExprKindM::Unsafe(b), loc), q)),
        },
        _ => Err(fail_at(t, p, got("expression"@, kind_at(t, p)))),
    }
}

/// What follows an identifier that starts an expression: `::name` (an associated call,
/// or an enum variant with named fields), a struct literal when the identifier starts
/// with an uppercase letter, a call, or nothing (a variable).
pub open spec fn s_path(t: Seq<TokenM>, p: nat, name: Seq<char>, loc: Loc) -> Parsed<ExprM>
    decreases left(t, p), 6nat,
{
    if kind_at(t, p) is ColonColon {
        match expect_ident(t, p + 1) {
            Err(e) => Err(e),
            Ok((method, p2)) => if kind_at(t, p2) is LParen {
                match s_call_args(t, p2) {
                    Err(e) => Err(e),
                    Ok((args, q)) => Ok((mk_expr(ExprKindM::AssocCall(name, method, args), loc), q)),
                }
            } else if kind_at(t, p2) is LBrace {
                match s_inits(t, p2 + 1, Seq::empty()) {
                    Err(e) => Err(e),
                    Ok((fields, q)) => match expect(t, q, TokM::RBrace) {
                        Err(e) => Err(e),
                        Ok(q1) => Ok(
                            (mk_expr(ExprKindM::EnumStructLit(name, method, fields), loc), q1),
                        ),
                    },
                }
            } else {
                Ok((mk_expr(ExprKindM::AssocCall(name, method, Seq::empty()), loc), p2))
            },
        }
    } else if kind_at(t, p) is LBrace && name.len() > 0 && is_upper(name[0]) {
        match s_inits(t, p + 1, Seq::empty()) {
            Err(e) => Err(e),
            Ok((fields, q)) => match expect(t, q, TokM::RBrace) {
                Err(e) => Err(e),
                Ok(q1) => Ok((mk_expr(ExprKindM::StructLit(name, fields), loc), q1)),
            },
        }
    } else if kind_at(t, p) is LParen {
        match s_call_args(t, p) {
            Err(e) => Err(e),
            Ok((args, q)) => Ok((mk_expr(ExprKindM::Call(name, args), loc), q)),
        }
    } else {
        Ok((mk_expr(ExprKindM::Var(name), loc), p))
    }
}

/// What follows `(` in an expression: `)` (the unit tuple), a parenthesised
/// expression, or a tuple.
pub open spec fn s_paren(t: Seq<TokenM>, p: nat, loc: Loc) -> Parsed<ExprM>
    decreases left(t, p), 33nat,
{
    if kind_at(t, p) is RParen {
        Ok((mk_expr(ExprKindM::Tuple(Seq::empty()), loc), p + 1))
    } else {
        match s_expr(t, p) {
            Err(e) => Err(e),
            Ok((first, q0)) => {
                let q = resume(t, p, q0);
                if kind_at(t, q) is Comma {
                    match s_tuple_rest(t, q, seq![first]) {
                        Err(e) => Err(e),
                        Ok((elems, q1)) => match expect(t, q1, TokM::RParen) {
                            Err(e) => Err(e),
                            Ok(q2) => Ok((mk_expr(ExprKindM::Tuple(elems), loc), q2)),
                        },
                    }
                } else {
                    match expect(t, q, TokM::RParen) {
                        Err(e) => Err(e),
                        Ok(q1) => Ok((first, q1)),
                    }
                }
            },
        }
    }
}

/// The rest of a tuple: `, expr` while a comma follows, stopping before `)`.
pub open spec fn s_tuple_rest(t: Seq<TokenM>, p: nat, acc: Seq<ExprM>) -> Parsed<Seq<ExprM>>
    decreases left(t, p), 3nat,
{
    if kind_at(t, p) is Comma {
        if kind_at(t, p + 1) is RParen {
            Ok((acc, p + 1))
        } else {
            match s_expr(t, p + 1) {
                Err(e) => Err(e),
                Ok((e, q)) => s_tuple_rest(t, resume(t, p + 1, q), acc.push(e)),
            }
        }
    } else {
        Ok((acc, p))
    }
}

/// Comma-separated `field: expr` initialisers up to `}`, with an optional trailing
/// comma.
pub open spec fn s_inits(t: Seq<TokenM>, p: nat, acc: Seq<(Seq<char>, ExprM)>) -> Parsed<
    Seq<(Seq<char>, ExprM)>,
>
    decreases left(t, p), 3nat,
{
    if closes(t, p, TokM::RBrace) {
        Ok((acc, p))
    } else {
        match sep(t, p, acc.len() == 0) {
            Err(e) => Err(e),
            Ok(p1) => if acc.len() > 0 && kind_at(t, p1) is RBrace {
                Ok((acc, p1))
            } else {
                match expect_ident(t, p1) {
                    Err(e) => Err(e),
                    Ok((name, p2)) => match expect(t, p2, TokM::Colon) {
                        Err(e) => Err(e),
                        Ok(p3) => match s_expr(t, p3) {
                            Err(e) => Err(e),
                            Ok((e, q)) => s_inits(t, past(t, p, q), acc.push((name, e))),
                        },
                    },
                }
            },
        }
    }
}

} // verus!
