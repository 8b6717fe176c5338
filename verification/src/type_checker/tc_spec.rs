//! The typing rules of phase 1, as spec functions over the source tree.
//!
//! Each function takes the checker state (diagnostics so far, current location,
//! current module, whether inside `unsafe`) and gives the state afterwards, so that
//! the diagnostics, their order, and the location each one carries are all stated.
use crate::ast::{
    Block, File, EnumVariant, Expr, ExprKind, FieldDecl, FnDecl, Item, MatchArm, Pat, PatBindings,
    Receiver, Stmt, StmtKind, TraitMethod, TyM, UnOp, BinOp, VariantFields, resolve_self_m,
    tys_view,
};
use crate::error::ErrM;
use crate::loc::Loc;
use crate::text::{all_dec_digits, nat_to_dec, spec_parse_usize_or_max};
use super::{EnvM, param_tys_m, resolve_m};
use super::scope::{ScopeM, fresh_var, insert_m, lookup_m};
use super::types::{base_name_m, compat_m, display_m, is_integer_m, is_numeric_m};
use vstd::prelude::*;

verus! {

/// The observable state of the type checker.
pub struct TcSt {
    pub errs: Seq<ErrM>,
    pub loc: Loc,
    pub cur_mod: Seq<char>,
    pub in_unsafe: bool,
}

/// Records a diagnostic at the current location.
pub open spec fn err(st: TcSt, msg: Seq<char>) -> TcSt {
    TcSt { errs: st.errs.push(ErrM { loc: st.loc, message: msg }), ..st }
}

pub open spec fn at(st: TcSt, loc: Loc) -> TcSt {
    TcSt { loc, ..st }
}

/// A type with its alias chain followed.
pub open spec fn res(e: EnvM, t: TyM) -> TyM {
    resolve_m(e.aliases, t, Set::empty())
}

/// Compatibility after resolving aliases on both sides.
pub open spec fn compat(e: EnvM, got: TyM, expected: TyM) -> bool {
    compat_m(res(e, got), res(e, expected))
}

pub open spec fn q(s: Seq<char>) -> Seq<char> {
    "`"@ + s + "`"@
}

/// First field named `name` from index `i` on.
pub open spec fn find_field(fs: Seq<FieldDecl>, name: Seq<char>, i: int) -> Option<int>
    decreases fs.len() - i,
{
    if 0 <= i < fs.len() {
        if fs[i].name@ == name {
            Some(i)
        } else {
            find_field(fs, name, i + 1)
        }
    } else {
        None
    }
}

/// First variant named `name` from index `i` on.
pub open spec fn find_variant(vs: Seq<EnumVariant>, name: Seq<char>, i: int) -> Option<int>
    decreases vs.len() - i,
{
    if 0 <= i < vs.len() {
        if vs[i].name@ == name {
            Some(i)
        } else {
            find_variant(vs, name, i + 1)
        }
    } else {
        None
    }
}

/// First trait method named `name` from index `i` on.
pub open spec fn find_method(ms: Seq<TraitMethod>, name: Seq<char>, i: int) -> Option<int>
    decreases ms.len() - i,
{
    if 0 <= i < ms.len() {
        if ms[i].name@ == name {
            Some(i)
        } else {
            find_method(ms, name, i + 1)
        }
    } else {
        None
    }
}

/// Whether the enum has a unit variant named `name`.
pub open spec fn has_unit_variant(vs: Seq<EnumVariant>, name: Seq<char>) -> bool {
    exists|i: int| 0 <= i < vs.len() && #[trigger] vs[i].name@ == name && vs[i].fields is Unit
}

/// Whether some method of the list is named `name`.
pub open spec fn has_fn_named(ms: Seq<FnDecl>, name: Seq<char>) -> bool {
    exists|i: int| 0 <= i < ms.len() && #[trigger] ms[i].name@ == name
}

/// The field names given in a struct literal.
pub open spec fn given_names(fields: Seq<(String, Expr)>) -> Set<Seq<char>> {
    Set::new(|n: Seq<char>| exists|i: int| 0 <= i < fields.len() && #[trigger] fields[i].0@ == n)
}

// ---------------------------------------------------------------------------
// Visibility
// ---------------------------------------------------------------------------

/// Items inside a module are accessible only from that module (or a descendant), or
/// when marked `pub`; items outside any module are always accessible.
pub open spec fn s_vis_item(e: EnvM, st: TcSt, name: Seq<char>) -> TcSt {
    if e.item_module.contains_key(name) {
        if e.item_module[name].is_prefix_of(st.cur_mod) || e.pub_items.contains(name) {
            st
        } else {
            err(st, q(name) + " is private"@)
        }
    } else {
        st
    }
}

/// Outside a struct's module, only its `pub` fields are accessible.
pub open spec fn s_vis_field(e: EnvM, st: TcSt, sname: Seq<char>, field: Seq<char>) -> TcSt {
    if e.item_module.contains_key(sname) && !e.item_module[sname].is_prefix_of(st.cur_mod) {
        if e.pub_fields.contains_key(sname) && e.pub_fields[sname].contains(field) {
            st
        } else {
            err(st, "field "@ + q(field) + " of "@ + q(sname) + " is private"@)
        }
    } else {
        st
    }
}

// ---------------------------------------------------------------------------
// Declared types
// ---------------------------------------------------------------------------

/// Every named type in `t` refers to a declared, accessible type.
pub open spec fn s_validate_ty(e: EnvM, st: TcSt, t: TyM) -> TcSt
    decreases t, 0int,
{
    match t {
        TyM::Named(n) => {
            if !e.structs.contains_key(n) && !e.enums.contains_key(n) && !e.aliases.contains_key(n) {
                err(st, "unknown type "@ + q(n))
            } else {
                s_vis_item(e, st, n)
            }
        },
        TyM::DynTrait(n) => {
            if !e.traits.contains_key(n) {
                err(st, "unknown trait "@ + q(n))
            } else {
                s_vis_item(e, st, n)
            }
        },
        TyM::Array(inner, _) => s_validate_ty(e, st, *inner),
        TyM::Slice(inner) => s_validate_ty(e, st, *inner),
        TyM::Ref(inner) => s_validate_ty(e, st, *inner),
        TyM::RefMut(inner) => s_validate_ty(e, st, *inner),
        TyM::RawConst(inner) => s_validate_ty(e, st, *inner),
        TyM::RawMut(inner) => s_validate_ty(e, st, *inner),
        TyM::Tuple(ts) => s_validate_tys(e, st, ts, 0),
        TyM::FnPtr(ps, ret) => s_validate_ty(e, s_validate_tys(e, st, ps, 0), *ret),
        _ => st,
    }
}

pub open spec fn s_validate_tys(e: EnvM, st: TcSt, ts: Seq<TyM>, i: int) -> TcSt
    decreases ts, ts.len() - i,
{
    if 0 <= i < ts.len() {
        s_validate_tys(e, s_validate_ty(e, st, ts[i]), ts, i + 1)
    } else {
        st
    }
}

// ---------------------------------------------------------------------------
// Patterns
// ---------------------------------------------------------------------------

/// Binds the variables of `pat`, matched against a value of type `ty`, and checks the
/// pattern's shape.
pub open spec fn s_bind(e: EnvM, st: TcSt, sc: ScopeM, pat: Pat, ty: TyM) -> (TcSt, ScopeM)
    decreases pat, 0int,
{
    match pat {
        Pat::Wildcard => (st, sc),
        Pat::Binding(name) => (st, insert_m(sc, name@, fresh_var(ty, false))),
        Pat::Bool(_) => if ty != TyM::Bool {
            (err(st, "bool pattern on "@ + q(display_m(ty))), sc)
        } else {
            (st, sc)
        },
        Pat::Int(_) => if !is_integer_m(ty) {
            (err(st, "integer pattern on "@ + q(display_m(ty))), sc)
        } else {
            (st, sc)
        },
        Pat::Char(_) => if ty != TyM::Char {
            (err(st, "char pattern on "@ + q(display_m(ty))), sc)
        } else {
            (st, sc)
        },
        Pat::CharRange { .. } => if ty != TyM::Char {
            (err(st, "char range pattern on "@ + q(display_m(ty))), sc)
        } else {
            (st, sc)
        },
        Pat::At { name, pat } => s_bind(e, st, insert_m(sc, name@, fresh_var(ty, false)), *pat, ty),
        Pat::Range { .. } => if !is_integer_m(ty) {
            (err(st, "range pattern on non-integer "@ + q(display_m(ty))), sc)
        } else {
            (st, sc)
        },
        Pat::Tuple(pats) => match ty {
            TyM::Tuple(tys) => s_bind_zip(e, st, sc, pats@, tys, 0),
            _ => (st, sc),
        },
        Pat::TupleStruct { ty_name, fields } => {
            if e.structs.contains_key(ty_name@) {
                s_bind_struct_fields(e, st, sc, fields@, e.structs[ty_name@].fields@, 0)
            } else {
                (err(st, "unknown struct "@ + q(ty_name@) + " in pattern"@), sc)
            }
        },
        Pat::Or(alts) => s_bind_all(e, st, sc, alts@, ty, 0),
        Pat::EnumVariant { ty_name, variant, bindings } => {
            let tn = ty_name@;
            let vn = variant@;
            let st1 = if ty == TyM::Named(tn) {
                st
            } else {
                err(st, "pattern "@ + q(tn + "::"@ + vn) + " used on "@ + q(display_m(ty)))
            };
            if e.enums.contains_key(tn) {
                let vs = e.enums[tn].variants@;
                match find_variant(vs, vn, 0) {
                    Some(k) => match (bindings, vs[k].fields) {
                        (PatBindings::Empty, _) => (st1, sc),
                        (PatBindings::Tuple(pats), VariantFields::Tuple(tys)) => {
                            let st2 = if pats.len() > tys.len() {
                                err(
                                    st1,
                                    "too many bindings for "@ + q(tn + "::"@ + vn) + ": expected "@
                                        + nat_to_dec(tys.len() as nat) + ", found "@ + nat_to_dec(
                                        pats.len() as nat,
                                    ),
                                )
                            } else {
                                st1
                            };
                            s_bind_zip(e, st2, sc, pats@, tys_view(tys@), 0)
                        },
                        (PatBindings::Named(fields, _), VariantFields::Named(decl)) => s_bind_named(
                            st1,
                            sc,
                            fields@,
                            decl@,
                            tn + "::"@ + vn,
                            0,
                        ),
                        _ => (err(st1, "binding shape mismatch for "@ + q(tn + "::"@ + vn)), sc),
                    },
                    None => (err(st1, "no variant "@ + q(vn) + " in enum "@ + q(tn)), sc),
                }
            } else if tn == vn && e.structs.contains_key(tn) {
                match bindings {
                    PatBindings::Named(fields, _) => s_bind_struct_named(
                        st1,
                        sc,
                        fields@,
                        e.structs[tn].fields@,
                        tn,
                        0,
                    ),
                    _ => (st1, sc),
                }
            } else {
                (st1, sc)
            }
        },
    }
}

/// Binds `pats[i]` against `tys[i]` pairwise, up to the shorter list.
pub open spec fn s_bind_zip(e: EnvM, st: TcSt, sc: ScopeM, pats: Seq<Pat>, tys: Seq<TyM>, i: int) -> (
    TcSt,
    ScopeM,
)
    decreases pats, pats.len() - i,
{
    if 0 <= i < pats.len() && i < tys.len() {
        let (st1, sc1) = s_bind(e, st, sc, pats[i], tys[i]);
        s_bind_zip(e, st1, sc1, pats, tys, i + 1)
    } else {
        (st, sc)
    }
}

/// Binds each alternative against the same type.
pub open spec fn s_bind_all(e: EnvM, st: TcSt, sc: ScopeM, pats: Seq<Pat>, ty: TyM, i: int) -> (
    TcSt,
    ScopeM,
)
    decreases pats, pats.len() - i,
{
    if 0 <= i < pats.len() {
        let (st1, sc1) = s_bind(e, st, sc, pats[i], ty);
        s_bind_all(e, st1, sc1, pats, ty, i + 1)
    } else {
        (st, sc)
    }
}

/// Binds tuple-struct sub-patterns against the struct's field types (`()` past the end).
pub open spec fn s_bind_struct_fields(
    e: EnvM,
    st: TcSt,
    sc: ScopeM,
    pats: Seq<Pat>,
    fs: Seq<FieldDecl>,
    i: int,
) -> (TcSt, ScopeM)
    decreases pats, pats.len() - i,
{
    if 0 <= i < pats.len() {
        let fty = if i < fs.len() {
            fs[i].ty@
        } else {
            TyM::Unit
        };
        let (st1, sc1) = s_bind(e, st, sc, pats[i], fty);
        s_bind_struct_fields(e, st1, sc1, pats, fs, i + 1)
    } else {
        (st, sc)
    }
}

/// Binds `field: binding` pairs of an enum variant pattern.
pub open spec fn s_bind_named(
    st: TcSt,
    sc: ScopeM,
    fields: Seq<(String, String)>,
    decl: Seq<FieldDecl>,
    label: Seq<char>,
    i: int,
) -> (TcSt, ScopeM)
    decreases fields.len() - i,
{
    if 0 <= i < fields.len() {
        let (st1, sc1) = match find_field(decl, fields[i].0@, 0) {
            Some(k) => (st, insert_m(sc, fields[i].1@, fresh_var(decl[k].ty@, false))),
            None => (err(st, "no field "@ + q(fields[i].0@) + " in "@ + q(label)), sc),
        };
        s_bind_named(st1, sc1, fields, decl, label, i + 1)
    } else {
        (st, sc)
    }
}

/// Binds `field: binding` pairs of a struct pattern.
pub open spec fn s_bind_struct_named(
    st: TcSt,
    sc: ScopeM,
    fields: Seq<(String, String)>,
    decl: Seq<FieldDecl>,
    sname: Seq<char>,
    i: int,
) -> (TcSt, ScopeM)
    decreases fields.len() - i,
{
    if 0 <= i < fields.len() {
        let (st1, sc1) = match find_field(decl, fields[i].0@, 0) {
            Some(k) => (st, insert_m(sc, fields[i].1@, fresh_var(decl[k].ty@, false))),
            None => (err(st, "no field "@ + q(fields[i].0@) + " in struct "@ + q(sname)), sc),
        };
        s_bind_struct_named(st1, sc1, fields, decl, sname, i + 1)
    } else {
        (st, sc)
    }
}

/// The variables a value-producing match arm binds (enum variant patterns only).
pub open spec fn s_arm_bindings(e: EnvM, sc: ScopeM, pat: Pat) -> ScopeM {
    match pat {
        Pat::EnumVariant { ty_name, variant, bindings } => {
            if e.enums.contains_key(ty_name@) {
                let vs = e.enums[ty_name@].variants@;
                match find_variant(vs, variant@, 0) {
                    Some(k) => match (bindings, vs[k].fields) {
                        (PatBindings::Tuple(pats), VariantFields::Tuple(tys)) => arm_tuple_binds(
                            sc,
                            pats@,
                            tys_view(tys@),
                            0,
                        ),
                        (PatBindings::Named(fields, _), VariantFields::Named(decl)) => arm_named_binds(
                            sc,
                            fields@,
                            decl@,
                            0,
                        ),
                        _ => sc,
                    },
                    None => sc,
                }
            } else {
                sc
            }
        },
        _ => sc,
    }
}

pub open spec fn arm_tuple_binds(sc: ScopeM, pats: Seq<Pat>, tys: Seq<TyM>, i: int) -> ScopeM
    decreases pats.len() - i,
{
    if 0 <= i < pats.len() && i < tys.len() {
        let sc1 = match pats[i] {
            Pat::Binding(name) => if name@ != "_"@ {
                insert_m(sc, name@, fresh_var(tys[i], false))
            } else {
                sc
            },
            _ => sc,
        };
        arm_tuple_binds(sc1, pats, tys, i + 1)
    } else {
        sc
    }
}

pub open spec fn arm_named_binds(
    sc: ScopeM,
    fields: Seq<(String, String)>,
    decl: Seq<FieldDecl>,
    i: int,
) -> ScopeM
    decreases fields.len() - i,
{
    if 0 <= i < fields.len() {
        let sc1 = match find_field(decl, fields[i].0@, 0) {
            Some(k) => insert_m(sc, fields[i].1@, fresh_var(decl[k].ty@, false)),
            None => sc,
        };
        arm_named_binds(sc1, fields, decl, i + 1)
    } else {
        sc
    }
}

// ---------------------------------------------------------------------------
// Operators and places
// ---------------------------------------------------------------------------

/// Operand checks for a binary operator, and its result type.
pub open spec fn s_binop(e: EnvM, st: TcSt, op: BinOp, l: TyM, r: TyM) -> (TcSt, TyM) {
    let lr = res(e, l);
    let rr = res(e, r);
    match op {
        BinOp::Add | BinOp::Sub | BinOp::Mul | BinOp::Div | BinOp::Rem => {
            if !is_numeric_m(lr) {
                (err(st, "arithmetic on non-numeric "@ + q(display_m(l))), l)
            } else if !compat_m(rr, lr) && !compat_m(lr, rr) {
                (err(st, "arithmetic type mismatch: "@ + q(display_m(l)) + " vs "@ + q(display_m(r))), l)
            } else {
                (st, l)
            }
        },
        BinOp::BitAnd | BinOp::BitOr | BinOp::BitXor | BinOp::Shl | BinOp::Shr => {
            if !is_integer_m(lr) {
                (err(st, "bitwise op on non-integer "@ + q(display_m(l))), l)
            } else if !is_integer_m(rr) {
                (err(st, "bitwise op RHS must be integer, found "@ + q(display_m(r))), l)
            } else {
                (st, l)
            }
        },
        BinOp::Eq | BinOp::Ne | BinOp::Lt | BinOp::Gt | BinOp::Le | BinOp::Ge => {
            if !compat_m(lr, rr) && !compat_m(rr, lr) {
                (
                    err(st, "comparison type mismatch: "@ + q(display_m(l)) + " vs "@ + q(display_m(r))),
                    TyM::Bool,
                )
            } else {
                (st, TyM::Bool)
            }
        },
        BinOp::And | BinOp::Or => {
            let st1 = if !compat(e, l, TyM::Bool) {
                err(st, "logical op requires `bool`, found "@ + q(display_m(l)))
            } else {
                st
            };
            let st2 = if !compat(e, r, TyM::Bool) {
                err(st1, "logical op requires `bool`, found "@ + q(display_m(r)))
            } else {
                st1
            };
            (st2, TyM::Bool)
        },
    }
}

/// The type of field `field` of `ty`, reporting a missing or invalid field.
pub open spec fn s_field_ty(e: EnvM, st: TcSt, ty: TyM, field: Seq<char>) -> (TcSt, TyM) {
    let tr = res(e, ty);
    match base_name_m(tr) {
        Some(name) => {
            if e.structs.contains_key(name) {
                let fs = e.structs[name].fields@;
                match find_field(fs, field, 0) {
                    Some(k) => (st, fs[k].ty@),
                    None => (err(st, "no field "@ + q(field) + " on "@ + q(name)), TyM::Unit),
                }
            } else {
                (st, TyM::Unit)
            }
        },
        None => (err(st, "no field "@ + q(field) + " on "@ + q(display_m(tr))), TyM::Unit),
    }
}

/// The name a field access reports visibility against.
pub open spec fn field_owner(ty: TyM) -> Option<Seq<char>> {
    match ty {
        TyM::Named(n) => Some(n),
        TyM::Ref(inner) => match *inner {
            TyM::Named(n) => Some(n),
            _ => None,
        },
        _ => None,
    }
}

/// The element type an indexable type yields.
pub open spec fn elem_of(ty: TyM) -> Option<TyM> {
    match ty {
        TyM::Array(inner, _) => Some(*inner),
        TyM::Slice(inner) => Some(*inner),
        _ => None,
    }
}

// ---------------------------------------------------------------------------
// Statements, expressions and blocks
// ---------------------------------------------------------------------------

/// Whether `ret` is a type a function body must produce a value of.
pub open spec fn needs_value(ret: TyM) -> bool {
    ret != TyM::Unit && ret != TyM::Never
}

/// Checks `ss[i]`; when it is the last statement and a bare expression in a function
/// that returns a value, it is checked as the implicit return value.
pub open spec fn s_stmts_step(e: EnvM, st: TcSt, sc: ScopeM, ss: Seq<Stmt>, i: int, ret: TyM) -> (
    TcSt,
    ScopeM,
)
    decreases ss[i], 1int,
{
    if 0 <= i < ss.len() {
        let s = ss[i];
        if is_implicit_return(ss, i, ret) {
            let (st2, ty) = s_infer(e, at(st, s.loc), sc, s.kind->Expr_0);
            if !compat(e, ty, ret) {
                (
                    err(
                        st2,
                        "implicit return: expected "@ + q(display_m(ret)) + ", found "@ + q(
                            display_m(ty),
                        ),
                    ),
                    sc,
                )
            } else {
                (st2, sc)
            }
        } else {
            s_stmt(e, st, sc, s, ret)
        }
    } else {
        (st, sc)
    }
}

/// Whether `ss[i]` is the implicit return value of a body that must produce `ret`.
pub open spec fn is_implicit_return(ss: Seq<Stmt>, i: int, ret: TyM) -> bool {
    i + 1 == ss.len() && needs_value(ret) && ss[i].kind is Expr
}

/// Checks `ss[i..]`; the last statement, when it is a bare expression in a function
/// that returns a value, is checked as the implicit return value.
pub open spec fn s_stmts(e: EnvM, st: TcSt, sc: ScopeM, ss: Seq<Stmt>, i: int, ret: TyM) -> (
    TcSt,
    ScopeM,
)
    decreases ss, ss.len() - i,
{
    if 0 <= i < ss.len() {
        let (st1, sc1) = s_stmts_step(e, st, sc, ss, i, ret);
        s_stmts(e, st1, sc1, ss, i + 1, ret)
    } else {
        (st, sc)
    }
}

/// Checks a block in a new innermost frame.
pub open spec fn s_block(e: EnvM, st: TcSt, sc: ScopeM, b: Block, ret: TyM) -> (TcSt, ScopeM)
    decreases b, 0int,
{
    let (st1, sc1) = s_stmts(e, st, sc.push(Seq::empty()), b.stmts@, 0, ret);
    (st1, sc1.drop_last())
}

pub open spec fn s_opt_block(e: EnvM, st: TcSt, sc: ScopeM, b: Option<Block>, ret: TyM) -> (
    TcSt,
    ScopeM,
)
    decreases b, 0int,
{
    match b {
        Some(blk) => s_block(e, st, sc, blk, ret),
        None => (st, sc),
    }
}

/// Checks that a condition is `bool`; `what` names the construct in the diagnostic.
pub open spec fn s_cond(e: EnvM, st: TcSt, sc: ScopeM, c: Expr, what: Seq<char>) -> TcSt
    decreases c, 1int,
{
    let (st1, ct) = s_infer(e, st, sc, c);
    if !compat(e, ct, TyM::Bool) {
        err(st1, what + " must be `bool`, found "@ + q(display_m(ct)))
    } else {
        st1
    }
}

/// Checks one statement.
pub open spec fn s_stmt(e: EnvM, st0: TcSt, sc: ScopeM, s: Stmt, ret: TyM) -> (TcSt, ScopeM)
    decreases s, 0int,
{
    let st = at(st0, s.loc);
    match s.kind {
        StmtKind::Let { .. } => s_stmt_let(e, st, sc, s.kind, ret),
        StmtKind::Assign { .. } => s_stmt_assign(e, st, sc, s.kind, ret),
        StmtKind::Return(Some(_)) => s_stmt_return(e, st, sc, s.kind, ret),
        StmtKind::Return(None) => {
            if !compat(e, TyM::Unit, ret) && ret != TyM::Never {
                (err(st, "empty return in function returning "@ + q(display_m(ret))), sc)
            } else {
                (st, sc)
            }
        },
        StmtKind::If { .. } => s_stmt_if(e, st, sc, s.kind, ret),
        StmtKind::While { cond, body } => {
            let st1 = s_cond(e, st, sc, cond, "while condition"@);
            s_block(e, st1, sc, body, ret)
        },
        StmtKind::Loop(body) => s_block(e, st, sc, body, ret),
        StmtKind::For { .. } => s_stmt_for(e, st, sc, s.kind, ret),
        StmtKind::Break(val) => match val {
            Some(v) => (s_infer(e, st, sc, v).0, sc),
            None => (st, sc),
        },
        StmtKind::Continue => (st, sc),
        StmtKind::Match { expr, arms, .. } => {
            let (st1, sty) = s_infer(e, st, sc, expr);
            s_arms(e, st1, sc, arms@, sty, ret, 0)
        },
        StmtKind::Println { args, .. } => (s_infer_list(e, st, sc, args@, 0), sc),
        StmtKind::CompoundAssign { .. } => s_stmt_compound(e, st, sc, s.kind, ret),
        StmtKind::IfLet { .. } => s_stmt_if_let(e, st, sc, s.kind, ret),
        StmtKind::WhileLet { .. } => s_stmt_while_let(e, st, sc, s.kind, ret),
        StmtKind::Expr(..) => s_stmt_expr(e, st, sc, s.kind, ret),
        StmtKind::LetPat { .. } => s_stmt_let_pat(e, st, sc, s.kind, ret),
    }
}

/// `let name[: ty] = expr;`
pub open spec fn s_stmt_let(e: EnvM, st: TcSt, sc: ScopeM, k: StmtKind, ret: TyM) -> (TcSt, ScopeM)
    decreases k, 0int,
{
    match k {
        StmtKind::Let { name, mutable, ty, expr } => {
            let (st1, inferred) = s_infer(e, st, sc, expr);
            match ty {
                Some(ann) => {
                    let st2 = s_validate_ty(e, st1, ann@);
                    let st3 = if !compat(e, inferred, ann@) {
                        err(
                            st2,
                            "let "@ + q(name@) + ": expected "@ + q(display_m(ann@)) + ", found "@
                                + q(display_m(inferred)),
                        )
                    } else {
                        st2
                    };
                    (st3, insert_m(sc, name@, fresh_var(ann@, mutable)))
                },
                None => (st1, insert_m(sc, name@, fresh_var(inferred, mutable))),
            }
        },
        _ => (st, sc),
    }
}

/// `name = expr;`
pub open spec fn s_stmt_assign(e: EnvM, st: TcSt, sc: ScopeM, k: StmtKind, ret: TyM) -> (TcSt, ScopeM)
    decreases k, 0int,
{
    match k {
        StmtKind::Assign { name, expr } => {
            let (st1, rhs) = s_infer(e, st, sc, expr);
            match lookup_m(sc, name@) {
                None => (err(st1, "undefined variable "@ + q(name@)), sc),
                Some(vi) => {
                    let st2 = if !vi.mutable {
                        err(st1, "cannot assign to immutable variable "@ + q(name@))
                    } else {
                        st1
                    };
                    let st3 = if !compat(e, rhs, vi.ty) {
                        err(
                            st2,
                            "assign "@ + q(name@) + ": expected "@ + q(display_m(vi.ty)) + ", found "@
                                + q(display_m(rhs)),
                        )
                    } else {
                        st2
                    };
                    (st3, sc)
                },
            }
        },
        _ => (st, sc),
    }
}

/// `return expr;`
pub open spec fn s_stmt_return(e: EnvM, st: TcSt, sc: ScopeM, k: StmtKind, ret: TyM) -> (TcSt, ScopeM)
    decreases k, 0int,
{
    match k {
        StmtKind::Return(Some(expr)) => {
            let (st1, ty) = s_infer(e, st, sc, expr);
            if !compat(e, ty, ret) {
                (
                    err(
                        st1,
                        "return type mismatch: expected "@ + q(display_m(ret)) + ", found "@ + q(
                            display_m(ty),
                        ),
                    ),
                    sc,
                )
            } else {
                (st1, sc)
            }
        },
        _ => (st, sc),
    }
}

/// An `if` statement.
pub open spec fn s_stmt_if(e: EnvM, st: TcSt, sc: ScopeM, k: StmtKind, ret: TyM) -> (TcSt, ScopeM)
    decreases k, 0int,
{
    match k {
        StmtKind::If { cond, then_block, else_block } => {
            let st1 = s_cond(e, st, sc, cond, "if condition"@);
            let (st2, sc2) = s_block(e, st1, sc, then_block, ret);
            s_opt_block(e, st2, sc2, else_block, ret)
        },
        _ => (st, sc),
    }
}

/// A `for` loop: the variable has the array's element type (`i64` for ranges).
pub open spec fn s_stmt_for(e: EnvM, st: TcSt, sc: ScopeM, k: StmtKind, ret: TyM) -> (TcSt, ScopeM)
    decreases k, 0int,
{
    match k {
        StmtKind::For { var, iter, body, .. } => {
            let (st1, it) = s_infer(e, st, sc, iter);
            let elem = match it {
                TyM::Array(el, _) => *el,
                _ => TyM::I64,
            };
            let sc1 = insert_m(sc.push(Seq::empty()), var@, fresh_var(elem, false));
            let (st2, sc2) = s_stmts(e, st1, sc1, body.stmts@, 0, ret);
            (st2, sc2.drop_last())
        },
        _ => (st, sc),
    }
}

/// `lhs op= rhs;`
pub open spec fn s_stmt_compound(e: EnvM, st: TcSt, sc: ScopeM, k: StmtKind, ret: TyM) -> (TcSt, ScopeM)
    decreases k, 0int,
{
    match k {
        StmtKind::CompoundAssign { lhs, rhs, .. } => {
            let (st1, rty) = s_infer(e, st, sc, rhs);
            let (st2, lt) = s_lvalue(e, st1, sc, lhs);
            match lt {
                Some(l) => if !compat_m(rty, l) {
                    (
                        err(
                            st2,
                            "compound assignment: expected "@ + q(display_m(l)) + ", found "@ + q(
                                display_m(rty),
                            ),
                        ),
                        sc,
                    )
                } else {
                    (st2, sc)
                },
                None => (st2, sc),
            }
        },
        _ => (st, sc),
    }
}

/// An `if let` statement.
pub open spec fn s_stmt_if_let(e: EnvM, st: TcSt, sc: ScopeM, k: StmtKind, ret: TyM) -> (TcSt, ScopeM)
    decreases k, 0int,
{
    match k {
        StmtKind::IfLet { pat, expr, and_cond, then_block, else_block, .. } => {
            let (st1, t) = s_infer(e, st, sc, expr);
            let (st2, sc2) = s_bind(e, st1, sc.push(Seq::empty()), pat, t);
            let st3 = match and_cond {
                Some(c) => s_cond(e, st2, sc2, c, "if-let chain condition"@),
                None => st2,
            };
            let (st4, sc4) = s_stmts(e, st3, sc2, then_block.stmts@, 0, ret);
            s_opt_block(e, st4, sc4.drop_last(), else_block, ret)
        },
        _ => (st, sc),
    }
}

/// A `while let` loop.
pub open spec fn s_stmt_while_let(e: EnvM, st: TcSt, sc: ScopeM, k: StmtKind, ret: TyM) -> (TcSt, ScopeM)
    decreases k, 0int,
{
    match k {
        StmtKind::WhileLet { pat, expr, body, .. } => {
            let (st1, t) = s_infer(e, st, sc, expr);
            let (st2, sc2) = s_bind(e, st1, sc.push(Seq::empty()), pat, t);
            let (st3, sc3) = s_stmts(e, st2, sc2, body.stmts@, 0, ret);
            (st3, sc3.drop_last())
        },
        _ => (st, sc),
    }
}

/// An expression statement; `place = value` is checked as an assignment.
pub open spec fn s_stmt_expr(e: EnvM, st: TcSt, sc: ScopeM, k: StmtKind, ret: TyM) -> (TcSt, ScopeM)
    decreases k, 0int,
{
    match k {
        StmtKind::Expr(expr) => match expr.kind {
            ExprKind::BinOp { op: BinOp::Eq, lhs, rhs } => {
                let (st1, rty) = s_infer(e, st, sc, *rhs);
                let (st2, lt) = s_lvalue(e, st1, sc, *lhs);
                match lt {
                    Some(l) => if !compat_m(rty, l) {
                        (
                            err(
                                st2,
                                "assignment: expected "@ + q(display_m(l)) + ", found "@ + q(
                                    display_m(rty),
                                ),
                            ),
                            sc,
                        )
                    } else {
                        (st2, sc)
                    },
                    None => (st2, sc),
                }
            },
            _ => (s_infer(e, st, sc, expr).0, sc),
        },
        _ => (st, sc),
    }
}

/// `let pat[: ty] = expr [else { .. }];`
pub open spec fn s_stmt_let_pat(e: EnvM, st: TcSt, sc: ScopeM, k: StmtKind, ret: TyM) -> (TcSt, ScopeM)
    decreases k, 0int,
{
    match k {
        StmtKind::LetPat { pat, ty, expr, else_block } => {
            let (st1, inferred) = s_infer(e, st, sc, expr);
            let st2 = match ty {
                Some(ann) => s_validate_ty(e, st1, ann@),
                None => st1,
            };
            let (st3, sc3) = s_opt_block(e, st2, sc, else_block, ret);
            s_bind(e, st3, sc3, pat, inferred)
        },
        _ => (st, sc),
    }
}

/// Checks the arms of a `match` statement from index `i` on.
pub open spec fn s_arms(
    e: EnvM,
    st: TcSt,
    sc: ScopeM,
    arms: Seq<MatchArm>,
    sty: TyM,
    ret: TyM,
    i: int,
) -> (TcSt, ScopeM)
    decreases arms, arms.len() - i,
{
    if 0 <= i < arms.len() {
        let (st1, sc1) = s_arm(e, st, sc, arms[i], sty, ret);
        s_arms(e, st1, sc1, arms, sty, ret, i + 1)
    } else {
        (st, sc)
    }
}

/// Checks one arm of a `match` statement in a new frame holding its bindings.
pub open spec fn s_arm(e: EnvM, st: TcSt, sc: ScopeM, arm: MatchArm, sty: TyM, ret: TyM) -> (
    TcSt,
    ScopeM,
)
    decreases arm, 0int,
{
    let (st1, sc1) = s_bind(e, st, sc.push(Seq::empty()), arm.pat, sty);
    let st2 = match arm.guard {
        Some(g) => s_cond(e, st1, sc1, g, "match guard"@),
        None => st1,
    };
    let (st3, sc3) = s_stmts(e, st2, sc1, arm.body.stmts@, 0, ret);
    (st3, sc3.drop_last())
}

/// Infers every expression of `es[i..]`, discarding the types.
pub open spec fn s_infer_list(e: EnvM, st: TcSt, sc: ScopeM, es: Seq<Expr>, i: int) -> TcSt
    decreases es, es.len() - i,
{
    if 0 <= i < es.len() {
        s_infer_list(e, s_infer(e, st, sc, es[i]).0, sc, es, i + 1)
    } else {
        st
    }
}

/// Infers the types of `es[i..]`, appending them to `acc`.
pub open spec fn s_infer_tys(e: EnvM, st: TcSt, sc: ScopeM, es: Seq<Expr>, i: int, acc: Seq<TyM>) -> (
    TcSt,
    Seq<TyM>,
)
    decreases es, es.len() - i,
{
    if 0 <= i < es.len() {
        let (st1, t) = s_infer(e, st, sc, es[i]);
        s_infer_tys(e, st1, sc, es, i + 1, acc.push(t))
    } else {
        (st, acc)
    }
}

/// Checks the remaining elements of an array literal against the first one's type.
pub open spec fn s_array_rest(e: EnvM, st: TcSt, sc: ScopeM, es: Seq<Expr>, i: int, first: TyM) -> TcSt
    decreases es, es.len() - i,
{
    if 0 <= i < es.len() {
        let (st1, t) = s_infer(e, st, sc, es[i]);
        let st2 = if !compat_m(t, first) {
            err(
                st1,
                "array element type mismatch: expected "@ + q(display_m(first)) + ", found "@ + q(
                    display_m(t),
                ),
            )
        } else {
            st1
        };
        s_array_rest(e, st2, sc, es, i + 1, first)
    } else {
        st
    }
}

/// Infers every field value of a literal, discarding the types.
pub open spec fn s_infer_fields(e: EnvM, st: TcSt, sc: ScopeM, fs: Seq<(String, Expr)>, i: int) -> TcSt
    decreases fs, fs.len() - i,
{
    if 0 <= i < fs.len() {
        s_infer_fields(e, s_infer(e, st, sc, fs[i].1).0, sc, fs, i + 1)
    } else {
        st
    }
}

/// Checks the given fields of a struct literal: each value's type, the field's
/// visibility (when `check_vis`), and that the field exists. `label` names the struct.
pub open spec fn s_lit_fields(
    e: EnvM,
    st: TcSt,
    sc: ScopeM,
    fs: Seq<(String, Expr)>,
    decl: Seq<FieldDecl>,
    sname: Seq<char>,
    check_vis: bool,
    label: Seq<char>,
    no_field: Seq<char>,
    i: int,
) -> TcSt
    decreases fs, fs.len() - i,
{
    if 0 <= i < fs.len() {
        let fname = fs[i].0@;
        let (st1, got) = s_infer(e, st, sc, fs[i].1);
        let st2 = if check_vis {
            s_vis_field(e, st1, sname, fname)
        } else {
            st1
        };
        let st3 = match find_field(decl, fname, 0) {
            Some(k) => if !compat(e, got, decl[k].ty@) {
                err(
                    st2,
                    "field "@ + q(fname) + " of "@ + q(label) + ": expected "@ + q(
                        display_m(decl[k].ty@),
                    ) + ", found "@ + q(display_m(got)),
                )
            } else {
                st2
            },
            None => err(st2, "no field "@ + q(fname) + no_field + q(label)),
        };
        s_lit_fields(e, st3, sc, fs, decl, sname, check_vis, label, no_field, i + 1)
    } else {
        st
    }
}

/// Reports each declared field from index `i` on that the literal does not give.
pub open spec fn s_missing(st: TcSt, given: Set<Seq<char>>, decl: Seq<FieldDecl>, label: Seq<char>, i: int) -> TcSt
    decreases decl.len() - i,
{
    if 0 <= i < decl.len() {
        let st1 = if !given.contains(decl[i].name@) {
            err(st, "missing field "@ + q(decl[i].name@) + " in "@ + q(label))
        } else {
            st
        };
        s_missing(st1, given, decl, label, i + 1)
    } else {
        st
    }
}

/// Checks the arguments of a call of `name` against `params`.
pub open spec fn s_call_args(e: EnvM, st: TcSt, sc: ScopeM, name: Seq<char>, args: Seq<Expr>, params: Seq<TyM>) -> TcSt
    decreases args, args.len() + 1,
{
    let variadic = e.variadic_fns.contains(name);
    let ok = if variadic {
        args.len() >= params.len()
    } else {
        args.len() == params.len()
    };
    if !ok {
        let expected = if variadic {
            "at least "@ + nat_to_dec(params.len())
        } else {
            nat_to_dec(params.len())
        };
        let st1 = err(
            st,
            q(name) + " expects "@ + expected + " argument(s), found "@ + nat_to_dec(args.len()),
        );
        s_infer_list(e, st1, sc, args, 0)
    } else {
        let st1 = s_check_args(e, st, sc, name, args, params, 0);
        s_infer_list(e, st1, sc, args, params.len() as int)
    }
}

/// Checks `args[i]` against `params[i]` for each `i` below both lengths.
pub open spec fn s_check_args(
    e: EnvM,
    st: TcSt,
    sc: ScopeM,
    name: Seq<char>,
    args: Seq<Expr>,
    params: Seq<TyM>,
    i: int,
) -> TcSt
    decreases args, args.len() - i,
{
    if 0 <= i < args.len() && i < params.len() {
        let (st1, got) = s_infer(e, st, sc, args[i]);
        let st2 = if !compat(e, got, params[i]) {
            err(
                st1,
                "argument "@ + nat_to_dec((i + 1) as nat) + " of "@ + q(name) + ": expected "@ + q(
                    display_m(params[i]),
                ) + ", found "@ + q(display_m(got)),
            )
        } else {
            st1
        };
        s_check_args(e, st2, sc, name, args, params, i + 1)
    } else {
        st
    }
}

/// The type of a place expression, for assignment checking (`None` if not a place).
pub open spec fn s_lvalue(e: EnvM, st: TcSt, sc: ScopeM, x: Expr) -> (TcSt, Option<TyM>)
    decreases x, 1int,
{
    match x.kind {
        ExprKind::Var(name) => match lookup_m(sc, name@) {
            Some(vi) => (st, Some(vi.ty)),
            None => (st, None),
        },
        ExprKind::Field { expr, field } => {
            let (st1, ty) = s_infer(e, st, sc, *expr);
            if all_dec_digits(field@) {
                let idx = spec_parse_usize_or_max(field@);
                match ty {
                    TyM::Tuple(tys) => if idx < tys.len() {
                        (st1, Some(tys[idx as int]))
                    } else {
                        (st1, None)
                    },
                    _ => (st1, None),
                }
            } else {
                let (st2, ft) = s_field_ty(e, st1, ty, field@);
                (st2, Some(ft))
            }
        },
        ExprKind::Index { expr, .. } => {
            let (st1, ty) = s_infer(e, st, sc, *expr);
            (st1, elem_of(ty))
        },
        ExprKind::Deref(inner) => {
            let (st1, ty) = s_infer(e, st, sc, *inner);
            match ty {
                TyM::RawMut(t) => (st1, Some(*t)),
                TyM::RefMut(t) => (st1, Some(*t)),
                _ => (st1, None),
            }
        },
        _ => (st, None),
    }
}

/// The value type of a block in expression position: checks the leading statements
/// in a copy of the scope, then infers the tail.
pub open spec fn s_block_value(e: EnvM, st: TcSt, sc: ScopeM, b: Block) -> (TcSt, TyM)
    decreases b, 0int,
{
    let ss = b.stmts@;
    if ss.len() == 0 {
        (st, TyM::Unit)
    } else {
        let (st1, sc1) = s_stmts_unit(e, st, sc, ss, 0, ss.len() - 1);
        s_tail_value(e, st1, sc1, ss[ss.len() - 1])
    }
}

/// Checks `ss[i..end]` as statements of a unit-returning block.
pub open spec fn s_stmts_unit(e: EnvM, st: TcSt, sc: ScopeM, ss: Seq<Stmt>, i: int, end: int) -> (
    TcSt,
    ScopeM,
)
    decreases ss, ss.len() - i,
{
    if 0 <= i < end && end <= ss.len() {
        let (st1, sc1) = s_stmt(e, st, sc, ss[i], TyM::Unit);
        s_stmts_unit(e, st1, sc1, ss, i + 1, end)
    } else {
        (st, sc)
    }
}

/// The value type of a block's last statement.
pub open spec fn s_tail_value(e: EnvM, st: TcSt, sc: ScopeM, last: Stmt) -> (TcSt, TyM)
    decreases last, 1int,
{
    match last.kind {
        StmtKind::Expr(x) => s_infer(e, st, sc, x),
        StmtKind::Return(Some(x)) => s_infer(e, st, sc, x),
        StmtKind::If { cond, then_block, else_block } => {
            let st1 = s_cond(e, st, sc, cond, "if condition"@);
            let (st2, tt) = s_block_value(e, st1, sc, then_block);
            let (st3, et) = match else_block {
                Some(b) => s_block_value(e, st2, sc, b),
                None => (st2, TyM::Unit),
            };
            s_if_join(st3, tt, et, "if/else branch type mismatch: "@)
        },
        StmtKind::Match { expr, arms, .. } => {
            let (st1, sty) = s_infer(e, st, sc, expr);
            s_arm_values(e, st1, sc, arms@, sty, None, 0)
        },
        StmtKind::Loop(body) => {
            let (st1, t) = s_find_break(e, st, sc, body.stmts@, 0);
            match t {
                Some(ty) => (st1, ty),
                None => (st1, TyM::Unit),
            }
        },
        _ => (s_stmt(e, st, sc, last, TyM::Unit).0, TyM::Unit),
    }
}

/// The value of `if`/`if let` from its branch types: the then-branch's type, after
/// checking that the else-branch's (or `()` without one) is compatible one way or the other.
pub open spec fn s_if_join(st: TcSt, tt: TyM, et: TyM, what: Seq<char>) -> (TcSt, TyM) {
    if !compat_m(tt, et) && !compat_m(et, tt) {
        (err(st, what + q(display_m(tt)) + " vs "@ + q(display_m(et))), tt)
    } else {
        (st, tt)
    }
}

/// Infers the value types of match arms from index `i` on; the first arm fixes the
/// result type and each later one must be compatible with it one way or the other.
pub open spec fn s_arm_values(
    e: EnvM,
    st: TcSt,
    sc: ScopeM,
    arms: Seq<MatchArm>,
    sty: TyM,
    result: Option<TyM>,
    i: int,
) -> (TcSt, TyM)
    decreases arms, arms.len() - i,
{
    if 0 <= i < arms.len() {
        let (st1, at) = s_arm_value(e, st, sc, arms[i], sty);
        match result {
            Some(rt) => {
                let st2 = if !compat_m(at, rt) && !compat_m(rt, at) {
                    err(
                        st1,
                        "match arms have incompatible types: "@ + q(display_m(rt)) + " vs "@ + q(
                            display_m(at),
                        ),
                    )
                } else {
                    st1
                };
                s_arm_values(e, st2, sc, arms, sty, result, i + 1)
            },
            None => s_arm_values(e, st1, sc, arms, sty, Some(at), i + 1),
        }
    } else {
        match result {
            Some(rt) => (st, rt),
            None => (st, TyM::Unit),
        }
    }
}

/// The value type of one match arm, with its enum-variant bindings in scope.
pub open spec fn s_arm_value(e: EnvM, st: TcSt, sc: ScopeM, arm: MatchArm, sty: TyM) -> (TcSt, TyM)
    decreases arm, 0int,
{
    let sc1 = s_arm_bindings(e, sc.push(Seq::empty()), arm.pat);
    s_block_value(e, st, sc1, arm.body)
}

/// The type of the first `break value` among `ss[i..]`, looking into `if` branches.
pub open spec fn s_find_break(e: EnvM, st: TcSt, sc: ScopeM, ss: Seq<Stmt>, i: int) -> (TcSt, Option<TyM>)
    decreases ss, ss.len() - i,
{
    if 0 <= i < ss.len() {
        match ss[i].kind {
            StmtKind::Break(Some(v)) => {
                let (st1, t) = s_infer(e, st, sc, v);
                (st1, Some(t))
            },
            StmtKind::If { then_block, else_block, .. } => {
                let (st1, t1) = s_find_break(e, st, sc, then_block.stmts@, 0);
                if t1 is Some {
                    (st1, t1)
                } else {
                    match else_block {
                        Some(eb) => {
                            let (st2, t2) = s_find_break(e, st1, sc, eb.stmts@, 0);
                            if t2 is Some {
                                (st2, t2)
                            } else {
                                s_find_break(e, st2, sc, ss, i + 1)
                            }
                        },
                        None => s_find_break(e, st1, sc, ss, i + 1),
                    }
                }
            },
            _ => s_find_break(e, st, sc, ss, i + 1),
        }
    } else {
        (st, None)
    }
}

/// Infers the type of an expression.
pub open spec fn s_infer(e: EnvM, st0: TcSt, sc: ScopeM, x: Expr) -> (TcSt, TyM)
    decreases x, 0int,
{
    let st = at(st0, x.loc);
    match x.kind {
        ExprKind::Int(_, Some(t)) => (st, t@),
        ExprKind::Int(_, None) => (st, TyM::I64),
        ExprKind::Float(_, Some(t)) => (st, t@),
        ExprKind::Float(_, None) => (st, TyM::F64),
        ExprKind::Bool(_) => (st, TyM::Bool),
        ExprKind::Char(_) => (st, TyM::Char),
        ExprKind::Str(_) => (st, TyM::Str),
        ExprKind::Var(..) => s_infer_var(e, st, sc, x.kind),
        ExprKind::Tuple(elems) => {
            let (st1, ts) = s_infer_tys(e, st, sc, elems@, 0, Seq::empty());
            (st1, TyM::Tuple(ts))
        },
        ExprKind::ArrayLit(..) => s_infer_array(e, st, sc, x.kind),
        ExprKind::Index { .. } => s_infer_index(e, st, sc, x.kind),
        ExprKind::Range { start, end } => {
            let st1 = s_infer_opt(e, st, sc, start);
            let st2 = s_infer_opt(e, st1, sc, end);
            (st2, TyM::I64)
        },
        ExprKind::StructLit { .. } => s_infer_struct_lit(e, st, sc, x.kind),
        ExprKind::EnumStructLit { .. } => s_infer_enum_lit(e, st, sc, x.kind),
        ExprKind::Field { .. } => s_infer_field(e, st, sc, x.kind),
        ExprKind::Call { .. } => s_infer_call(e, st, sc, x.kind),
        ExprKind::AssocCall { .. } => s_infer_assoc_call(e, st, sc, x.kind),
        ExprKind::MethodCall { .. } => s_infer_method_call(e, st, sc, x.kind),
        ExprKind::UnOp { .. } => s_infer_unop(e, st, sc, x.kind),
        ExprKind::BinOp { .. } => s_infer_binop(e, st, sc, x.kind),
        ExprKind::AddrOf { .. } => s_infer_addr_of(e, st, sc, x.kind),
        ExprKind::Deref(..) => s_infer_deref(e, st, sc, x.kind),
        ExprKind::Cast { ty, .. } => (st, ty@),
        ExprKind::Unsafe(block) => {
            let st1 = TcSt { in_unsafe: true, ..st };
            let (st2, t) = s_unsafe_value(e, st1, sc, block);
            (TcSt { in_unsafe: st.in_unsafe, ..st2 }, t)
        },
        ExprKind::Block(block) => s_block_value(e, st, sc, block),
        ExprKind::If { .. } => s_infer_if(e, st, sc, x.kind),
        ExprKind::Match { expr, arms, .. } => {
            let (st1, sty) = s_infer(e, st, sc, *expr);
            s_arm_values(e, st1, sc, arms@, sty, None, 0)
        },
        ExprKind::Loop { .. } => s_infer_loop(e, st, sc, x.kind),
        ExprKind::IfLet { .. } => s_infer_if_let(e, st, sc, x.kind),
        ExprKind::Abort { message } => (s_infer_opt(e, st, sc, message), TyM::Never),
    }
}

/// A variable, a function used as a value, a constant, or a unit struct.
pub open spec fn s_infer_var(e: EnvM, st: TcSt, sc: ScopeM, k: ExprKind) -> (TcSt, TyM)
    decreases k, 0int,
{
    match k {
        ExprKind::Var(name) => {
            let n = name@;
            match lookup_m(sc, n) {
                Some(vi) => if vi.moved {
                    (err(st, "use of moved value "@ + q(n)), vi.ty)
                } else {
                    (st, vi.ty)
                },
                None => if e.fns.contains_key(n) {
                    (st, TyM::FnPtr(e.fns[n].0, Box::new(e.fns[n].1)))
                } else if e.consts.contains_key(n) {
                    (st, e.consts[n])
                } else if e.structs.contains_key(n) && e.structs[n].fields@.len() == 0
                    && !e.structs[n].is_tuple {
                    (st, TyM::Named(n))
                } else {
                    (err(st, "undefined variable "@ + q(n)), TyM::Unit)
                },
            }
        },
        _ => (st, TyM::Unit),
    }
}

/// An array literal: every element has the first one's type.
pub open spec fn s_infer_array(e: EnvM, st: TcSt, sc: ScopeM, k: ExprKind) -> (TcSt, TyM)
    decreases k, 0int,
{
    match k {
        ExprKind::ArrayLit(elems) => {
            if elems@.len() == 0 {
                (st, TyM::Array(Box::new(TyM::Unit), 0))
            } else {
                let (st1, first) = s_infer(e, st, sc, elems@[0]);
                let st2 = s_array_rest(e, st1, sc, elems@, 1, first);
                (st2, TyM::Array(Box::new(first), elems.len()))
            }
        },
        _ => (st, TyM::Unit),
    }
}

/// Indexing and slicing.
pub open spec fn s_infer_index(e: EnvM, st: TcSt, sc: ScopeM, k: ExprKind) -> (TcSt, TyM)
    decreases k, 0int,
{
    match k {
        ExprKind::Index { expr, index } => {
            match index.kind {
                ExprKind::Range { start, end } => {
                    let st1 = s_infer_opt(e, st, sc, start);
                    let st2 = s_infer_opt(e, st1, sc, end);
                    let (st3, arr) = s_infer(e, st2, sc, *expr);
                    match elem_of(arr) {
                        Some(inner) => (st3, TyM::Slice(Box::new(inner))),
                        None => (err(st3, "cannot slice type "@ + q(display_m(arr))), TyM::Unit),
                    }
                },
                _ => {
                    let (st1, idx) = s_infer(e, st, sc, *index);
                    let st2 = if !is_integer_m(idx) {
                        err(st1, "array index must be an integer, found "@ + q(display_m(idx)))
                    } else {
                        st1
                    };
                    let (st3, arr) = s_infer(e, st2, sc, *expr);
                    match elem_of(arr) {
                        Some(inner) => (st3, inner),
                        None => (err(st3, "cannot index type "@ + q(display_m(arr))), TyM::Unit),
                    }
                },
            }
        },
        _ => (st, TyM::Unit),
    }
}

/// A struct literal, with or without a base for the remaining fields.
pub open spec fn s_infer_struct_lit(e: EnvM, st: TcSt, sc: ScopeM, k: ExprKind) -> (TcSt, TyM)
    decreases k, 0int,
{
    match k {
        ExprKind::StructLit { name, fields, rest } => {
            let n = name@;
            let st1 = s_vis_item(e, st, n);
            if e.structs.contains_key(n) {
                let decl = e.structs[n].fields@;
                let st2 = s_lit_fields(e, st1, sc, fields@, decl, n, true, n, " in struct "@, 0);
                let st3 = match rest {
                    Some(base) => {
                        let (st4, bt) = s_infer(e, st2, sc, *base);
                        if !compat(e, bt, TyM::Named(n)) {
                            err(
                                st4,
                                "struct update base has type "@ + q(display_m(bt)) + ", expected "@
                                    + q(n),
                            )
                        } else {
                            st4
                        }
                    },
                    None => s_missing(st2, given_names(fields@), decl, n, 0),
                };
                (st3, TyM::Named(n))
            } else {
                let st2 = s_infer_fields(e, st1, sc, fields@, 0);
                (err(st2, "unknown struct "@ + q(n)), TyM::Named(n))
            }
        },
        _ => (st, TyM::Unit),
    }
}

/// A literal of an enum variant with named fields (or of a struct named `Ty_Variant`).
pub open spec fn s_infer_enum_lit(e: EnvM, st: TcSt, sc: ScopeM, k: ExprKind) -> (TcSt, TyM)
    decreases k, 0int,
{
    match k {
        ExprKind::EnumStructLit { ty_name, variant, fields } => {
            let tn = ty_name@;
            let vn = variant@;
            let mangled = tn + "_"@ + vn;
            if e.enums.contains_key(tn) {
                let vs = e.enums[tn].variants@;
                match find_variant(vs, vn, 0) {
                    Some(k) => match vs[k].fields {
                        VariantFields::Named(decl) => {
                            let label = tn + "::"@ + vn;
                            let st1 = s_lit_fields(e, st, sc, fields@, decl@, label, false, label, " in "@, 0);
                            (s_missing(st1, given_names(fields@), decl@, label, 0), TyM::Named(tn))
                        },
                        _ => (s_infer_fields(e, st, sc, fields@, 0), TyM::Named(tn)),
                    },
                    None => {
                        let st1 = s_infer_fields(e, st, sc, fields@, 0);
                        (err(st1, "no variant "@ + q(vn) + " in enum "@ + q(tn)), TyM::Named(tn))
                    },
                }
            } else if e.structs.contains_key(mangled) {
                let st1 = s_vis_item(e, st, mangled);
                let decl = e.structs[mangled].fields@;
                let st2 = s_lit_fields(e, st1, sc, fields@, decl, mangled, true, mangled, " in "@, 0);
                (s_missing(st2, given_names(fields@), decl, mangled, 0), TyM::Named(mangled))
            } else {
                let st1 = s_infer_fields(e, st, sc, fields@, 0);
                (
                    err(st1, "unknown enum "@ + q(tn) + " or struct "@ + q(mangled)),
                    TyM::Named(tn),
                )
            }
        },
        _ => (st, TyM::Unit),
    }
}

/// Field access and tuple indexing.
pub open spec fn s_infer_field(e: EnvM, st: TcSt, sc: ScopeM, k: ExprKind) -> (TcSt, TyM)
    decreases k, 0int,
{
    match k {
        ExprKind::Field { expr, field } => {
            let (st1, ty) = s_infer(e, st, sc, *expr);
            let f = field@;
            if all_dec_digits(f) {
                let idx = spec_parse_usize_or_max(f);
                let oor = "tuple index "@ + nat_to_dec(idx) + " out of range"@;
                match ty {
                    TyM::Tuple(tys) => if idx < tys.len() {
                        (st1, tys[idx as int])
                    } else {
                        (err(st1, oor), TyM::Unit)
                    },
                    TyM::Named(n) => if e.tuple_structs.contains(n) {
                        if e.structs.contains_key(n) {
                            match find_field(e.structs[n].fields@, "_"@ + nat_to_dec(idx), 0) {
                                Some(j) => (st1, e.structs[n].fields@[j].ty@),
                                None => (err(st1, oor), TyM::Unit),
                            }
                        } else {
                            (st1, TyM::Unit)
                        }
                    } else {
                        (err(st1, "tuple index on non-tuple "@ + q(display_m(ty))), TyM::Unit)
                    },
                    _ => (err(st1, "tuple index on non-tuple "@ + q(display_m(ty))), TyM::Unit),
                }
            } else {
                let st2 = match field_owner(ty) {
                    Some(sn) => s_vis_field(e, st1, sn, f),
                    None => st1,
                };
                s_field_ty(e, st2, ty, f)
            }
        },
        _ => (st, TyM::Unit),
    }
}

/// A call of a function or of a variable holding a function pointer.
pub open spec fn s_infer_call(e: EnvM, st: TcSt, sc: ScopeM, k: ExprKind) -> (TcSt, TyM)
    decreases k, 0int,
{
    match k {
        ExprKind::Call { name, args } => {
            let n = name@;
            if e.fns.contains_key(n) {
                let st1 = s_vis_item(e, st, n);
                let st2 = if e.extern_fns.contains(n) && !st1.in_unsafe {
                    err(st1, "call to unsafe extern fn "@ + q(n) + " must be inside an `unsafe` block"@)
                } else {
                    st1
                };
                (s_call_args(e, st2, sc, n, args@, e.fns[n].0), e.fns[n].1)
            } else {
                match lookup_m(sc, n) {
                    Some(vi) => match res(e, vi.ty) {
                        TyM::FnPtr(ps, r) => (s_call_args(e, st, sc, n, args@, ps), *r),
                        _ => {
                            let st1 = s_infer_list(e, st, sc, args@, 0);
                            (
                                err(
                                    st1,
                                    q(n) + " is not callable (type: "@ + q(display_m(vi.ty)) + ")"@,
                                ),
                                TyM::Unit,
                            )
                        },
                    },
                    None => {
                        let st1 = s_infer_list(e, st, sc, args@, 0);
                        (err(st1, "undefined function "@ + q(n)), TyM::Unit)
                    },
                }
            }
        },
        _ => (st, TyM::Unit),
    }
}

/// A call `Ty::f(..)`, or a unit enum variant `Enum::V`.
pub open spec fn s_infer_assoc_call(e: EnvM, st: TcSt, sc: ScopeM, k: ExprKind) -> (TcSt, TyM)
    decreases k, 0int,
{
    match k {
        ExprKind::AssocCall { ty_name, method, args } => {
            let mangled = ty_name@ + "_"@ + method@;
            if e.fns.contains_key(mangled) {
                let st1 = s_vis_item(e, st, mangled);
                (s_call_args(e, st1, sc, mangled, args@, e.fns[mangled].0), e.fns[mangled].1)
            } else if e.enums.contains_key(ty_name@) && has_unit_variant(
                e.enums[ty_name@].variants@,
                method@,
            ) {
                (st, TyM::Named(ty_name@))
            } else {
                let st1 = s_infer_list(e, st, sc, args@, 0);
                (
                    err(
                        st1,
                        "unknown associated function or variant "@ + q(ty_name@ + "::"@ + method@),
                    ),
                    TyM::Unit,
                )
            }
        },
        _ => (st, TyM::Unit),
    }
}

/// A method call, on a `dyn` trait object or on a named type.
pub open spec fn s_infer_method_call(e: EnvM, st: TcSt, sc: ScopeM, k: ExprKind) -> (TcSt, TyM)
    decreases k, 0int,
{
    match k {
        ExprKind::MethodCall { expr, method, args } => {
            let (st1, recv) = s_infer(e, st, sc, *expr);
            let rr = res(e, recv);
            let m = method@;
            match rr {
                TyM::DynTrait(tn) => {
                    let st2 = s_infer_list(e, st1, sc, args@, 0);
                    if e.traits.contains_key(tn) && find_method(e.traits[tn].methods@, m, 0) is Some {
                        let k = find_method(e.traits[tn].methods@, m, 0)->Some_0;
                        (st2, e.traits[tn].methods@[k].return_ty@)
                    } else {
                        (err(st2, "no method "@ + q(m) + " on `dyn "@ + tn + "`"@), TyM::Unit)
                    }
                },
                _ => match base_name_m(rr) {
                    Some(tn) => {
                        let mangled = tn + "_"@ + m;
                        if e.fns.contains_key(mangled) {
                            let st2 = s_vis_item(e, st1, mangled);
                            (s_call_args(e, st2, sc, mangled, args@, e.fns[mangled].0), e.fns[mangled].1)
                        } else {
                            let st2 = s_infer_list(e, st1, sc, args@, 0);
                            (err(st2, "no method "@ + q(m) + " on "@ + q(display_m(recv))), TyM::Unit)
                        }
                    },
                    None => {
                        let st2 = s_infer_list(e, st1, sc, args@, 0);
                        (
                            err(
                                st2,
                                "method call `."@ + m + "()` on primitive type "@ + q(display_m(recv)),
                            ),
                            TyM::Unit,
                        )
                    },
                },
            }
        },
        _ => (st, TyM::Unit),
    }
}

/// A unary operator.
pub open spec fn s_infer_unop(e: EnvM, st: TcSt, sc: ScopeM, k: ExprKind) -> (TcSt, TyM)
    decreases k, 0int,
{
    match k {
        ExprKind::UnOp { op, operand } => {
            let (st1, ty) = s_infer(e, st, sc, *operand);
            match op {
                UnOp::Neg => if !is_numeric_m(ty) {
                    (err(st1, "negation on non-numeric "@ + q(display_m(ty))), ty)
                } else {
                    (st1, ty)
                },
                UnOp::Not => if ty == TyM::Bool {
                    (st1, TyM::Bool)
                } else if is_integer_m(ty) {
                    (st1, ty)
                } else {
                    (err(st1, "NOT operator on non-bool/integer "@ + q(display_m(ty))), TyM::Bool)
                },
                UnOp::BitNot => if !is_integer_m(ty) {
                    (err(st1, "bitwise NOT on non-integer "@ + q(display_m(ty))), ty)
                } else {
                    (st1, ty)
                },
            }
        },
        _ => (st, TyM::Unit),
    }
}

/// A binary operator.
pub open spec fn s_infer_binop(e: EnvM, st: TcSt, sc: ScopeM, k: ExprKind) -> (TcSt, TyM)
    decreases k, 0int,
{
    match k {
        ExprKind::BinOp { op, lhs, rhs } => {
            let (st1, l) = s_infer(e, st, sc, *lhs);
            let (st2, r) = s_infer(e, st1, sc, *rhs);
            s_binop(e, st2, op, l, r)
        },
        _ => (st, TyM::Unit),
    }
}

/// Taking a shared or mutable reference.
pub open spec fn s_infer_addr_of(e: EnvM, st: TcSt, sc: ScopeM, k: ExprKind) -> (TcSt, TyM)
    decreases k, 0int,
{
    match k {
        ExprKind::AddrOf { mutable, expr } => {
            if mutable {
                let st1 = match expr.kind {
                    ExprKind::Var(name) => match lookup_m(sc, name@) {
                        Some(vi) => if !vi.mutable {
                            err(st, "cannot take `&mut` of immutable "@ + q(name@))
                        } else {
                            st
                        },
                        None => st,
                    },
                    _ => st,
                };
                let (st2, t) = s_infer(e, st1, sc, *expr);
                (st2, TyM::RefMut(Box::new(t)))
            } else {
                let (st1, t) = s_infer(e, st, sc, *expr);
                (st1, TyM::Ref(Box::new(t)))
            }
        },
        _ => (st, TyM::Unit),
    }
}

/// Dereferencing a reference or raw pointer.
pub open spec fn s_infer_deref(e: EnvM, st: TcSt, sc: ScopeM, k: ExprKind) -> (TcSt, TyM)
    decreases k, 0int,
{
    match k {
        ExprKind::Deref(inner) => {
            let (st1, ty) = s_infer(e, st, sc, *inner);
            match ty {
                TyM::Ref(t) => (st1, *t),
                TyM::RefMut(t) => (st1, *t),
                TyM::RawConst(t) => (st1, *t),
                TyM::RawMut(t) => (st1, *t),
                _ => (err(st1, "cannot dereference "@ + q(display_m(ty))), TyM::Unit),
            }
        },
        _ => (st, TyM::Unit),
    }
}

/// An `if` expression.
pub open spec fn s_infer_if(e: EnvM, st: TcSt, sc: ScopeM, k: ExprKind) -> (TcSt, TyM)
    decreases k, 0int,
{
    match k {
        ExprKind::If { cond, then_block, else_block } => {
            let st1 = s_cond(e, st, sc, *cond, "if condition"@);
            let (st2, tt) = s_block_value(e, st1, sc, then_block);
            let (st3, et) = match else_block {
                Some(b) => s_block_value(e, st2, sc, b),
                None => (st2, TyM::Unit),
            };
            s_if_join(st3, tt, et, "if/else branch type mismatch: "@)
        },
        _ => (st, TyM::Unit),
    }
}

/// A `loop` expression: its value is that of its first `break value`.
pub open spec fn s_infer_loop(e: EnvM, st: TcSt, sc: ScopeM, k: ExprKind) -> (TcSt, TyM)
    decreases k, 0int,
{
    match k {
        ExprKind::Loop { body, .. } => {
            let (st1, _) = s_block(e, st, sc, body, TyM::Unit);
            match s_find_break(e, st1, sc, body.stmts@, 0) {
                (st2, Some(t)) => (st2, t),
                (st2, None) => (st2, TyM::Unit),
            }
        },
        _ => (st, TyM::Unit),
    }
}

/// An `if let` expression.
pub open spec fn s_infer_if_let(e: EnvM, st: TcSt, sc: ScopeM, k: ExprKind) -> (TcSt, TyM)
    decreases k, 0int,
{
    match k {
        ExprKind::IfLet { pat, expr, then_block, else_block, .. } => {
            let (st1, t) = s_infer(e, st, sc, *expr);
            let (st2, inner) = s_bind(e, st1, sc.push(Seq::empty()), pat, t);
            let (st3, tt) = s_block_value(e, st2, inner, then_block);
            let (st4, et) = match else_block {
                Some(b) => s_block_value(e, st3, sc, b),
                None => (st3, TyM::Unit),
            };
            s_if_join(st4, tt, et, "if-let branch type mismatch: "@)
        },
        _ => (st, TyM::Unit),
    }
}

pub open spec fn s_infer_opt(e: EnvM, st: TcSt, sc: ScopeM, x: Option<Box<Expr>>) -> TcSt
    decreases x, 0int,
{
    match x {
        Some(b) => s_infer(e, st, sc, *b).0,
        None => st,
    }
}

/// The value type of an `unsafe` block: leading statements checked in a copy of the
/// scope, then the tail expression (or `()`).
pub open spec fn s_unsafe_value(e: EnvM, st: TcSt, sc: ScopeM, b: Block) -> (TcSt, TyM)
    decreases b, 0int,
{
    let ss = b.stmts@;
    if ss.len() == 0 {
        (st, TyM::Unit)
    } else {
        let (st1, sc1) = s_stmts_unit(e, st, sc, ss, 0, ss.len() - 1);
        let last = ss[ss.len() - 1];
        match last.kind {
            StmtKind::Expr(x) => s_infer(e, at(st1, last.loc), sc1, x),
            StmtKind::Return(Some(x)) => s_infer(e, at(st1, last.loc), sc1, x),
            _ => (s_stmt(e, st1, sc1, last, TyM::Unit).0, TyM::Unit),
        }
    }
}

// ---------------------------------------------------------------------------
// Functions and items
// ---------------------------------------------------------------------------

/// Whether a block definitely produces a value on all paths.
pub open spec fn definitely_returns(b: Block) -> bool
    decreases b, 0int,
{
    let ss = b.stmts@;
    if ss.len() == 0 {
        false
    } else {
        match ss[ss.len() - 1].kind {
            StmtKind::Return(_) => true,
            StmtKind::Expr(_) => true,
            StmtKind::If { then_block, else_block: Some(eb), .. } => definitely_returns(then_block)
                && definitely_returns(eb),
            StmtKind::Match { arms, .. } => arms@.len() > 0 && all_arms_return(arms@, 0),
            StmtKind::Loop(_) => true,
            _ => false,
        }
    }
}

pub open spec fn all_arms_return(arms: Seq<MatchArm>, i: int) -> bool
    decreases arms, arms.len() - i,
{
    if 0 <= i < arms.len() {
        definitely_returns(arms[i].body) && all_arms_return(arms, i + 1)
    } else {
        true
    }
}

/// The type of `self` in a method of `itype`.
pub open spec fn self_ty_m(recv: Receiver, itype: Seq<char>) -> TyM {
    match recv {
        Receiver::Value => TyM::Named(itype),
        Receiver::Ref => TyM::Ref(Box::new(TyM::Named(itype))),
        Receiver::RefMut => TyM::RefMut(Box::new(TyM::Named(itype))),
    }
}

/// The scope a function body starts with: `self` (for methods) and the parameters.
pub open spec fn fn_scope(f: FnDecl, impl_type: Option<Seq<char>>) -> ScopeM {
    let sc0 = seq![Seq::<(Seq<char>, super::scope::VarM)>::empty()];
    let sc1 = match (f.receiver, impl_type) {
        (Some(recv), Some(itype)) => insert_m(sc0, "self"@, fresh_var(self_ty_m(recv, itype), false)),
        _ => sc0,
    };
    params_scope(sc1, f.params@, impl_type, 0)
}

pub open spec fn params_scope(
    sc: ScopeM,
    ps: Seq<crate::ast::Param>,
    impl_type: Option<Seq<char>>,
    i: int,
) -> ScopeM
    decreases ps.len() - i,
{
    if 0 <= i < ps.len() {
        let t = match impl_type {
            Some(it) => resolve_self_m(ps[i].ty@, it),
            None => ps[i].ty@,
        };
        params_scope(insert_m(sc, ps[i].name@, fresh_var(t, false)), ps, impl_type, i + 1)
    } else {
        sc
    }
}

/// Checks one function body; `impl_type` is the mangled implementing type of a method.
pub open spec fn s_check_fn(e: EnvM, st: TcSt, f: FnDecl, impl_type: Option<Seq<char>>) -> TcSt {
    let ret = match impl_type {
        Some(it) => resolve_self_m(f.return_ty@, it),
        None => f.return_ty@,
    };
    let st0 = TcSt { in_unsafe: false, ..st };
    let (st1, _) = s_stmts(e, st0, fn_scope(f, impl_type), f.body.stmts@, 0, ret);
    if needs_value(ret) && !definitely_returns(f.body) {
        err(
            at(st1, f.loc),
            "function "@ + q(f.name@) + " may not return a value (expected "@ + q(display_m(ret))
                + ")"@,
        )
    } else {
        st1
    }
}

/// Checks the methods of an impl block from index `i` on.
pub open spec fn s_check_methods(e: EnvM, st: TcSt, ms: Seq<FnDecl>, itype: Seq<char>, i: int) -> TcSt
    decreases ms.len() - i,
{
    if 0 <= i < ms.len() {
        s_check_methods(e, s_check_fn(e, st, ms[i], Some(itype)), ms, itype, i + 1)
    } else {
        st
    }
}

/// Type-checks the function bodies of one item; `prefix` is the module path.
pub open spec fn s_check_item(e: EnvM, st: TcSt, item: Item, prefix: Seq<char>) -> TcSt
    decreases item, 1int,
{
    match item {
        Item::Fn(f) => {
            let st2 = s_check_fn(e, TcSt { cur_mod: prefix, ..st }, f, None);
            TcSt { cur_mod: st.cur_mod, ..st2 }
        },
        Item::Impl(imp) => {
            let st2 = s_check_methods(
                e,
                TcSt { cur_mod: prefix, ..st },
                imp.methods@,
                prefix + imp.ty_name@,
                0,
            );
            TcSt { cur_mod: st.cur_mod, ..st2 }
        },
        Item::Mod { name, items: sub, .. } => s_check_items(e, st, sub@, prefix + name@ + "_"@, 0),
        _ => st,
    }
}

/// Type-checks all function bodies in `items[i..]`; `prefix` is the module path.
pub open spec fn s_check_items(e: EnvM, st: TcSt, items: Seq<Item>, prefix: Seq<char>, i: int) -> TcSt
    decreases items, items.len() - i,
{
    if 0 <= i < items.len() {
        s_check_items(e, s_check_item(e, st, items[i], prefix), items, prefix, i + 1)
    } else {
        st
    }
}

/// Validates the types of a parameter list.
pub open spec fn s_validate_params(e: EnvM, st: TcSt, ps: Seq<crate::ast::Param>, i: int) -> TcSt
    decreases ps.len() - i,
{
    if 0 <= i < ps.len() {
        s_validate_params(e, s_validate_ty(e, st, ps[i].ty@), ps, i + 1)
    } else {
        st
    }
}

/// Validates the types of a field list.
pub open spec fn s_validate_fields(e: EnvM, st: TcSt, fs: Seq<FieldDecl>, i: int) -> TcSt
    decreases fs.len() - i,
{
    if 0 <= i < fs.len() {
        s_validate_fields(e, s_validate_ty(e, st, fs[i].ty@), fs, i + 1)
    } else {
        st
    }
}

/// Validates the field types of enum variants from index `i` on.
pub open spec fn s_validate_variants(e: EnvM, st: TcSt, vs: Seq<EnumVariant>, i: int) -> TcSt
    decreases vs.len() - i,
{
    if 0 <= i < vs.len() {
        let st1 = match vs[i].fields {
            VariantFields::Tuple(tys) => s_validate_tys(e, st, tys_view(tys@), 0),
            VariantFields::Named(fs) => s_validate_fields(e, st, fs@, 0),
            VariantFields::Unit => st,
        };
        s_validate_variants(e, st1, vs, i + 1)
    } else {
        st
    }
}

/// Reports each required trait method (one without a default body) from index `i` on
/// that the impl does not provide.
pub open spec fn s_missing_methods(
    st: TcSt,
    sigs: Seq<TraitMethod>,
    provided: Seq<FnDecl>,
    tr: Seq<char>,
    ty: Seq<char>,
    i: int,
) -> TcSt
    decreases sigs.len() - i,
{
    if 0 <= i < sigs.len() {
        let st1 = if sigs[i].body is None && !has_fn_named(provided, sigs[i].name@) {
            err(
                st,
                "`impl "@ + tr + " for "@ + ty + "` missing method "@ + q(sigs[i].name@),
            )
        } else {
            st
        };
        s_missing_methods(st1, sigs, provided, tr, ty, i + 1)
    } else {
        st
    }
}

/// Validates the signatures of methods from index `i` on; `set_loc` moves the current
/// location to each method first.
pub open spec fn s_validate_sigs(e: EnvM, st: TcSt, ms: Seq<FnDecl>, i: int) -> TcSt
    decreases ms.len() - i,
{
    if 0 <= i < ms.len() {
        let st1 = s_validate_params(e, at(st, ms[i].loc), ms[i].params@, 0);
        s_validate_sigs(e, s_validate_ty(e, st1, ms[i].return_ty@), ms, i + 1)
    } else {
        st
    }
}

pub open spec fn s_validate_trait_sigs(e: EnvM, st: TcSt, ms: Seq<TraitMethod>, i: int) -> TcSt
    decreases ms.len() - i,
{
    if 0 <= i < ms.len() {
        let st1 = s_validate_params(e, st, ms[i].params@, 0);
        s_validate_trait_sigs(e, s_validate_ty(e, st1, ms[i].return_ty@), ms, i + 1)
    } else {
        st
    }
}

pub open spec fn s_validate_externs(e: EnvM, st: TcSt, fs: Seq<crate::ast::ExternFn>, i: int) -> TcSt
    decreases fs.len() - i,
{
    if 0 <= i < fs.len() {
        let st1 = s_validate_params(e, at(st, fs[i].loc), fs[i].params@, 0);
        s_validate_externs(e, s_validate_ty(e, st1, fs[i].return_ty@), fs, i + 1)
    } else {
        st
    }
}

/// Validates the declarations of one item.
pub open spec fn s_validate_item(e: EnvM, st: TcSt, item: Item, prefix: Seq<char>) -> TcSt
    decreases item, 0int,
{
    match item {
        Item::Struct(s) => s_validate_fields(e, at(st, s.loc), s.fields@, 0),
        Item::Enum(en) => s_validate_variants(e, at(st, en.loc), en.variants@, 0),
        Item::TypeAlias { ty, .. } => s_validate_ty(e, st, ty@),
        Item::Fn(f) => s_validate_ty(e, s_validate_params(e, at(st, f.loc), f.params@, 0), f.return_ty@),
        Item::Impl(imp) => {
            let mangled = prefix + imp.ty_name@;
            let st1 = if !e.structs.contains_key(mangled) && !e.enums.contains_key(mangled) {
                err(st, "impl for unknown type "@ + q(imp.ty_name@))
            } else {
                st
            };
            let st2 = match imp.trait_name {
                Some(tn) => if e.traits.contains_key(tn@) {
                    s_missing_methods(st1, e.traits[tn@].methods@, imp.methods@, tn@, imp.ty_name@, 0)
                } else {
                    err(st1, "unknown trait "@ + q(tn@))
                },
                None => st1,
            };
            s_validate_sigs(e, st2, imp.methods@, 0)
        },
        Item::Trait(t) => s_validate_trait_sigs(e, st, t.methods@, 0),
        Item::Mod { name, items, .. } => {
            let st1 = s_validate_items(e, st, items@, prefix + name@ + "_"@);
            TcSt { cur_mod: prefix, ..st1 }
        },
        Item::ExternBlock(fs) => s_validate_externs(e, st, fs@, 0),
        Item::Skip => st,
        Item::Const { ty, .. } => s_validate_ty(e, st, ty@),
        Item::Static { ty, .. } => s_validate_ty(e, st, ty@),
    }
}

pub open spec fn s_validate_item_list(e: EnvM, st: TcSt, items: Seq<Item>, prefix: Seq<char>, i: int) -> TcSt
    decreases items, items.len() - i,
{
    if 0 <= i < items.len() {
        s_validate_item_list(e, s_validate_item(e, st, items[i], prefix), items, prefix, i + 1)
    } else {
        st
    }
}

/// Validates all item declarations of a module whose path is `prefix`.
pub open spec fn s_validate_items(e: EnvM, st: TcSt, items: Seq<Item>, prefix: Seq<char>) -> TcSt
    decreases items, items.len() + 1,
{
    let st1 = s_validate_item_list(e, TcSt { cur_mod: prefix, ..st }, items, prefix, 0);
    TcSt { cur_mod: st.cur_mod, ..st1 }
}

/// Phase 1 on a whole file: declarations, then function bodies.
pub open spec fn s_check_file(e: EnvM, st: TcSt, f: File) -> TcSt {
    s_check_items(e, s_validate_items(e, st, f.items@, Seq::empty()), f.items@, Seq::empty(), 0)
}


// ---------------------------------------------------------------------------
// The annotated tree
//
// Checking fills in the types that the source leaves to inference: that of a `let`
// without a type, a `for` loop's iterator and element, a `match` scrutinee, and the
// matched expression of `if let` and `while let`. These predicates say, for a tree
// before checking and the same tree after, that each annotation the checker fills
// equals (by view) the type it inferred there, and that nothing else changed.
// ---------------------------------------------------------------------------

/// `t2` is the annotation `t` after checking: kept where the source gave one, and
/// otherwise the inferred type.
pub open spec fn filled(t: Option<crate::ast::Ty>, t2: Option<crate::ast::Ty>, inferred: TyM) -> bool {
    match t {
        Some(_) => t2 == t,
        None => t2 is Some && t2->0@ == inferred,
    }
}

/// `ss2[i..]` is `ss[i..]` as checking it in state `st` and scope `sc` leaves it.
pub open spec fn ann_stmts(
    e: EnvM,
    st: TcSt,
    sc: ScopeM,
    ss: Seq<Stmt>,
    ss2: Seq<Stmt>,
    i: int,
    ret: TyM,
) -> bool
    decreases ss, ss.len() - i,
{
    if 0 <= i < ss.len() {
        let (st1, sc1) = s_stmts_step(e, st, sc, ss, i, ret);
        &&& if is_implicit_return(ss, i, ret) {
            ss2[i] == ss[i]
        } else {
            ann_stmt(e, st, sc, ss[i], ss2[i], ret)
        }
        &&& ann_stmts(e, st1, sc1, ss, ss2, i + 1, ret)
    } else {
        true
    }
}

/// The statement list `ss2` is `ss` as checking it leaves it.
pub open spec fn ann_list(e: EnvM, st: TcSt, sc: ScopeM, ss: Seq<Stmt>, ss2: Seq<Stmt>, ret: TyM) -> bool
    decreases ss, ss.len() + 1,
{
    ss2.len() == ss.len() && ann_stmts(e, st, sc, ss, ss2, 0, ret)
}

/// The block `b2` is `b` as checking it in a new frame leaves it.
pub open spec fn ann_block(e: EnvM, st: TcSt, sc: ScopeM, b: Block, b2: Block, ret: TyM) -> bool
    decreases b, 0int,
{
    ann_list(e, st, sc.push(Seq::empty()), b.stmts@, b2.stmts@, ret)
}

pub open spec fn ann_opt_block(
    e: EnvM,
    st: TcSt,
    sc: ScopeM,
    b: Option<Block>,
    b2: Option<Block>,
    ret: TyM,
) -> bool
    decreases b, 0int,
{
    match b {
        Some(blk) => b2 is Some && ann_block(e, st, sc, blk, b2->0, ret),
        None => b2 is None,
    }
}

/// The statement `s2` is `s` as `s_stmt` checks it.
pub open spec fn ann_stmt(e: EnvM, st0: TcSt, sc: ScopeM, s: Stmt, s2: Stmt, ret: TyM) -> bool
    decreases s, 0int,
{
    s2.loc == s.loc && ann_kind(e, at(st0, s.loc), sc, s.kind, s2.kind, ret)
}

/// The statement kind `k2` is `k` after checking, `st` being the state at the statement.
pub open spec fn ann_kind(e: EnvM, st: TcSt, sc: ScopeM, k: StmtKind, k2: StmtKind, ret: TyM) -> bool
    decreases k, 0int,
{
    match k {
        StmtKind::Let { name, mutable, ty, expr } => {
            let inferred = s_infer(e, st, sc, expr).1;
            k2 matches StmtKind::Let { name: n2, mutable: m2, ty: t2, expr: x2 } && n2 == name
                && m2 == mutable && x2 == expr && filled(ty, t2, inferred)
        },
        StmtKind::If { cond, then_block, else_block } => {
            let st1 = s_cond(e, st, sc, cond, "if condition"@);
            let (st2, sc2) = s_block(e, st1, sc, then_block, ret);
            k2 matches StmtKind::If { cond: c2, then_block: t2, else_block: e2 } && c2 == cond
                && ann_block(e, st1, sc, then_block, t2, ret) && ann_opt_block(
                e,
                st2,
                sc2,
                else_block,
                e2,
                ret,
            )
        },
        StmtKind::While { cond, body } => {
            let st1 = s_cond(e, st, sc, cond, "while condition"@);
            k2 matches StmtKind::While { cond: c2, body: b2 } && c2 == cond && ann_block(
                e,
                st1,
                sc,
                body,
                b2,
                ret,
            )
        },
        StmtKind::Loop(body) => k2 matches StmtKind::Loop(b2) && ann_block(e, st, sc, body, b2, ret),
        StmtKind::For { var, iter, body, elem_ty, iter_ty } => {
            let (st1, it) = s_infer(e, st, sc, iter);
            let elem = match it {
                TyM::Array(el, _) => *el,
                _ => TyM::I64,
            };
            let sc1 = insert_m(sc.push(Seq::empty()), var@, fresh_var(elem, false));
            k2 matches StmtKind::For { var: v2, iter: i2, body: b2, elem_ty: et2, iter_ty: it2 }
                && v2 == var && i2 == iter && filled(None, et2, elem) && filled(None, it2, it)
                && ann_list(e, st1, sc1, body.stmts@, b2.stmts@, ret)
        },
        StmtKind::Match { expr, arms, scrutinee_ty } => {
            let (st1, sty) = s_infer(e, st, sc, expr);
            k2 matches StmtKind::Match { expr: x2, arms: a2, scrutinee_ty: t2 } && x2 == expr
                && filled(None, t2, sty) && a2@.len() == arms@.len() && ann_arms(
                e,
                st1,
                sc,
                arms@,
                a2@,
                sty,
                ret,
                0,
            )
        },
        StmtKind::IfLet { pat, expr, expr_ty, and_cond, then_block, else_block } => {
            let (st1, t) = s_infer(e, st, sc, expr);
            let (st2, sc2) = s_bind(e, st1, sc.push(Seq::empty()), pat, t);
            let st3 = match and_cond {
                Some(c) => s_cond(e, st2, sc2, c, "if-let chain condition"@),
                None => st2,
            };
            let (st4, sc4) = s_stmts(e, st3, sc2, then_block.stmts@, 0, ret);
            k2 matches StmtKind::IfLet {
                pat: p2,
                expr: x2,
                expr_ty: t2,
                and_cond: c2,
                then_block: tb2,
                else_block: eb2,
            } && p2 == pat && x2 == expr && c2 == and_cond && filled(None, t2, t) && ann_list(
                e,
                st3,
                sc2,
                then_block.stmts@,
                tb2.stmts@,
                ret,
            ) && ann_opt_block(e, st4, sc4.drop_last(), else_block, eb2, ret)
        },
        StmtKind::WhileLet { pat, expr, expr_ty, body } => {
            let (st1, t) = s_infer(e, st, sc, expr);
            let (st2, sc2) = s_bind(e, st1, sc.push(Seq::empty()), pat, t);
            k2 matches StmtKind::WhileLet { pat: p2, expr: x2, expr_ty: t2, body: b2 } && p2 == pat
                && x2 == expr && filled(None, t2, t) && ann_list(e, st2, sc2, body.stmts@, b2.stmts@, ret)
        },
        StmtKind::LetPat { pat, ty, expr, else_block } => {
            let (st1, inferred) = s_infer(e, st, sc, expr);
            let st2 = match ty {
                Some(ann) => s_validate_ty(e, st1, ann@),
                None => st1,
            };
            k2 matches StmtKind::LetPat { pat: p2, ty: t2, expr: x2, else_block: eb2 } && p2 == pat
                && x2 == expr && filled(ty, t2, inferred) && ann_opt_block(e, st2, sc, else_block, eb2, ret)
        },
        _ => k2 == k,
    }
}

/// `arms2[i..]` are the match arms `arms[i..]` as checking them leaves them.
pub open spec fn ann_arms(
    e: EnvM,
    st: TcSt,
    sc: ScopeM,
    arms: Seq<MatchArm>,
    arms2: Seq<MatchArm>,
    sty: TyM,
    ret: TyM,
    i: int,
) -> bool
    decreases arms, arms.len() - i,
{
    if 0 <= i < arms.len() {
        let (st1, sc1) = s_arm(e, st, sc, arms[i], sty, ret);
        ann_arm(e, st, sc, arms[i], arms2[i], sty, ret) && ann_arms(e, st1, sc1, arms, arms2, sty, ret, i + 1)
    } else {
        true
    }
}

/// The arm `a2` is `arm` as checking it leaves it.
pub open spec fn ann_arm(e: EnvM, st: TcSt, sc: ScopeM, arm: MatchArm, a2: MatchArm, sty: TyM, ret: TyM) -> bool
    decreases arm, 0int,
{
    let (st1, sc1) = s_bind(e, st, sc.push(Seq::empty()), arm.pat, sty);
    let st2 = match arm.guard {
        Some(g) => s_cond(e, st1, sc1, g, "match guard"@),
        None => st1,
    };
    a2.pat == arm.pat && a2.guard == arm.guard && ann_list(e, st2, sc1, arm.body.stmts@, a2.body.stmts@, ret)
}

// The function bodies of a file, in the order the checker visits them, and files that
// differ only in their function bodies.

/// `g` is `f` with, perhaps, another body.
pub open spec fn same_sig(f: FnDecl, g: FnDecl) -> bool {
    g == (FnDecl { body: g.body, ..f })
}

/// `b` is `a` with, perhaps, other function bodies.
pub open spec fn same_sig_fns(a: Seq<FnDecl>, b: Seq<FnDecl>) -> bool {
    a.len() == b.len() && forall|i: int| 0 <= i < a.len() ==> same_sig(#[trigger] a[i], b[i])
}

/// The item `y` is `x` with, perhaps, other function bodies.
pub open spec fn same_sig_item(x: Item, y: Item) -> bool
    decreases x, 1int,
{
    match x {
        Item::Fn(f) => y matches Item::Fn(g) && same_sig(f, g),
        Item::Impl(imp) => y matches Item::Impl(imp2) && imp2 == (crate::ast::ImplBlock {
            methods: imp2.methods,
            ..imp
        }) && same_sig_fns(imp.methods@, imp2.methods@),
        Item::Mod { name, items, is_pub } => y matches Item::Mod { name: n2, items: i2, is_pub: p2 }
            && n2 == name && p2 == is_pub && i2@.len() == items@.len() && same_sig_items(
            items@,
            i2@,
            0,
        ),
        _ => y == x,
    }
}

/// `b[i..]` is `a[i..]` with, perhaps, other function bodies.
pub open spec fn same_sig_items(a: Seq<Item>, b: Seq<Item>, i: int) -> bool
    decreases a, a.len() - i,
{
    if 0 <= i < a.len() {
        same_sig_item(a[i], b[i]) && same_sig_items(a, b, i + 1)
    } else {
        true
    }
}

/// The bodies of the functions `ms[j..]`.
pub open spec fn flat_fns(ms: Seq<FnDecl>, j: int) -> Seq<Block>
    decreases ms.len() - j,
{
    if 0 <= j < ms.len() {
        seq![ms[j].body] + flat_fns(ms, j + 1)
    } else {
        Seq::empty()
    }
}

pub proof fn lemma_flat_fns(ms: Seq<FnDecl>, j: int)
    requires
        0 <= j <= ms.len(),
    ensures
        flat_fns(ms, j).len() == ms.len() - j,
        forall|t: int| 0 <= t < ms.len() - j ==> #[trigger] flat_fns(ms, j)[t] == ms[j + t].body,
    decreases ms.len() - j,
{
    if j < ms.len() {
        lemma_flat_fns(ms, j + 1);
        assert forall|t: int| 0 <= t < ms.len() - j implies #[trigger] flat_fns(ms, j)[t] == ms[j + t].body by {
            if t > 0 {
                assert(flat_fns(ms, j)[t] == flat_fns(ms, j + 1)[t - 1]);
            }
        }
    }
}

/// The function bodies in one item, in order.
pub open spec fn flat_item(x: Item) -> Seq<Block>
    decreases x, 1int,
{
    match x {
        Item::Fn(f) => seq![f.body],
        Item::Impl(imp) => flat_fns(imp.methods@, 0),
        Item::Mod { items, .. } => flat_items(items@, 0),
        _ => Seq::empty(),
    }
}

/// The function bodies in `items[i..]`, in order.
pub open spec fn flat_items(items: Seq<Item>, i: int) -> Seq<Block>
    decreases items, items.len() - i,
{
    if 0 <= i < items.len() {
        flat_item(items[i]) + flat_items(items, i + 1)
    } else {
        Seq::empty()
    }
}

/// `b2` is the body of `f` as checking it leaves it.
pub open spec fn ann_fn(e: EnvM, st: TcSt, f: FnDecl, b2: Block, impl_type: Option<Seq<char>>) -> bool {
    let ret = match impl_type {
        Some(it) => resolve_self_m(f.return_ty@, it),
        None => f.return_ty@,
    };
    ann_list(e, TcSt { in_unsafe: false, ..st }, fn_scope(f, impl_type), f.body.stmts@, b2.stmts@, ret)
}

/// `nb[c..]` holds the bodies of the methods `ms[j..]` as checking leaves them.
pub open spec fn ann_methods(
    e: EnvM,
    st: TcSt,
    ms: Seq<FnDecl>,
    nb: Seq<Block>,
    c: int,
    itype: Seq<char>,
    j: int,
) -> bool
    decreases ms.len() - j,
{
    if 0 <= j < ms.len() {
        ann_fn(e, st, ms[j], nb[c], Some(itype)) && ann_methods(
            e,
            s_check_fn(e, st, ms[j], Some(itype)),
            ms,
            nb,
            c + 1,
            itype,
            j + 1,
        )
    } else {
        true
    }
}

/// `nb[c..]` holds the function bodies of the item `x`, in order, as checking leaves them.
pub open spec fn ann_item(e: EnvM, st: TcSt, x: Item, nb: Seq<Block>, c: int, prefix: Seq<char>) -> bool
    decreases x, 1int,
{
    match x {
        Item::Fn(f) => ann_fn(e, TcSt { cur_mod: prefix, ..st }, f, nb[c], None),
        Item::Impl(imp) => ann_methods(
            e,
            TcSt { cur_mod: prefix, ..st },
            imp.methods@,
            nb,
            c,
            prefix + imp.ty_name@,
            0,
        ),
        Item::Mod { name, items: sub, .. } => ann_items(e, st, sub@, nb, c, prefix + name@ + "_"@, 0),
        _ => true,
    }
}

/// `nb[c..]` holds the function bodies of `items[i..]`, in order, as checking leaves them.
pub open spec fn ann_items(
    e: EnvM,
    st: TcSt,
    items: Seq<Item>,
    nb: Seq<Block>,
    c: int,
    prefix: Seq<char>,
    i: int,
) -> bool
    decreases items, items.len() - i,
{
    if 0 <= i < items.len() {
        ann_item(e, st, items[i], nb, c, prefix) && ann_items(
            e,
            s_check_item(e, st, items[i], prefix),
            items,
            nb,
            c + flat_item(items[i]).len(),
            prefix,
            i + 1,
        )
    } else {
        true
    }
}

/// `f2` is the file `f` as checking leaves it, phase 1 starting in state `st`: the
/// same declarations and signatures, each function body as checking leaves it.
pub open spec fn ann_file(e: EnvM, st: TcSt, f: File, f2: File) -> bool {
    &&& f2.items@.len() == f.items@.len()
    &&& same_sig_items(f.items@, f2.items@, 0)
    &&& ann_items(
        e,
        s_validate_items(e, st, f.items@, Seq::empty()),
        f.items@,
        flat_items(f2.items@, 0),
        0,
        Seq::empty(),
        0,
    )
}

} // verus!
