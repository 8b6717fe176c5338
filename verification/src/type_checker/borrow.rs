//! Phase 2: the borrow checker. It runs only when phase 1 found no error, and rejects
//! assignment through immutable bindings, `&mut` of immutable bindings, conflicting
//! borrows of one variable within a single statement, and use of a variable of a named
//! (non-Copy) type after it was moved. It reads the tree as type checking leaves it, with
//! the types of `let` statements filled in.
use crate::ast::{
    BinOp, Block, Expr, ExprKind, File, FnDecl, Item, MatchArm, Pat, PatBindings, Receiver, Stmt,
    StmtKind, Ty, TyM, lemma_tys_view, tys_view,
};
use crate::error::{Error, ErrM};
use crate::loc::Loc;
use crate::names::NameSet;
use crate::text::{cat, cat3, to_owned};
use super::{EnvM, TyEnv};
use super::scope::{
    FrameM, Scope, ScopeM, all_unmoved, flatten_m, fresh_var, insert_m, lookup_m, set_moved_m,
};
use super::tc::{add_q, errs_view, lemma_elems_decrease, lemma_vec_index_decreases, opt_str};
use super::tc_spec::q;
use super::types::{is_non_copy, is_non_copy_m, is_ref_m, is_ref_ty};
use vstd::prelude::*;

verus! {

/// The observable state of the borrow checker: its diagnostics so far and the location
/// the next one is reported at.
pub struct BcSt {
    pub errs: Seq<ErrM>,
    pub loc: Loc,
}

pub open spec fn b_err(st: BcSt, msg: Seq<char>) -> BcSt {
    BcSt { errs: st.errs.push(ErrM { loc: st.loc, message: msg }), ..st }
}

pub open spec fn b_at(st: BcSt, loc: Loc) -> BcSt {
    BcSt { loc, ..st }
}

/// The parameter types a call of `name` checks its arguments against (none when the
/// function is unknown).
pub open spec fn b_params(e: EnvM, name: Seq<char>) -> Seq<TyM> {
    if e.fns.contains_key(name) {
        e.fns[name].0
    } else {
        Seq::empty()
    }
}

/// Whether `x` is a variable that is bound and immutable.
pub open spec fn immutable_var(sc: ScopeM, x: Expr) -> bool {
    match x.kind {
        ExprKind::Var(name) => match lookup_m(sc, name@) {
            Some(bv) => !bv.mutable,
            None => false,
        },
        _ => false,
    }
}

// ---------------------------------------------------------------------------
// Borrows within one statement
// ---------------------------------------------------------------------------

/// Collects the variables borrowed directly (`&x`, `&mut x`) in `x`, with the sets of
/// shared and mutable borrows seen so far, and reports conflicts.
pub open spec fn b_collect(st0: BcSt, sh: Set<Seq<char>>, mu: Set<Seq<char>>, x: Expr) -> (
    BcSt,
    Set<Seq<char>>,
    Set<Seq<char>>,
)
    decreases x, 0int,
{
    let st = b_at(st0, x.loc);
    match x.kind {
        ExprKind::AddrOf { mutable, expr: inner } => {
            let (st1, sh1, mu1) = match inner.kind {
                ExprKind::Var(name) => {
                    let n = name@;
                    if !mutable {
                        let st1 = if mu.contains(n) {
                            b_err(
                                st,
                                "cannot borrow "@ + q(n) + " as immutable: also borrowed as mutable"@,
                            )
                        } else {
                            st
                        };
                        (st1, sh.insert(n), mu)
                    } else {
                        let st1 = if sh.contains(n) {
                            b_err(
                                st,
                                "cannot borrow "@ + q(n) + " as mutable: also borrowed as immutable"@,
                            )
                        } else if mu.contains(n) {
                            b_err(st, "cannot borrow "@ + q(n) + " as mutable more than once"@)
                        } else {
                            st
                        };
                        (st1, sh, mu.insert(n))
                    }
                },
                _ => (st, sh, mu),
            };
            b_collect(st1, sh1, mu1, *inner)
        },
        ExprKind::BinOp { lhs, rhs, .. } => {
            let (st1, sh1, mu1) = b_collect(st, sh, mu, *lhs);
            b_collect(st1, sh1, mu1, *rhs)
        },
        ExprKind::UnOp { operand, .. } => b_collect(st, sh, mu, *operand),
        ExprKind::Call { args, .. } => b_collect_list(st, sh, mu, args@, 0),
        ExprKind::AssocCall { args, .. } => b_collect_list(st, sh, mu, args@, 0),
        ExprKind::MethodCall { expr, args, .. } => {
            let (st1, sh1, mu1) = b_collect(st, sh, mu, *expr);
            b_collect_list(st1, sh1, mu1, args@, 0)
        },
        ExprKind::Tuple(elems) => b_collect_list(st, sh, mu, elems@, 0),
        ExprKind::ArrayLit(elems) => b_collect_list(st, sh, mu, elems@, 0),
        ExprKind::Field { expr, .. } => b_collect(st, sh, mu, *expr),
        ExprKind::Deref(expr) => b_collect(st, sh, mu, *expr),
        ExprKind::Cast { expr, .. } => b_collect(st, sh, mu, *expr),
        ExprKind::Index { expr, index } => {
            let (st1, sh1, mu1) = b_collect(st, sh, mu, *expr);
            b_collect(st1, sh1, mu1, *index)
        },
        ExprKind::Range { start, end } => {
            let (st1, sh1, mu1) = match start {
                Some(s) => b_collect(st, sh, mu, *s),
                None => (st, sh, mu),
            };
            match end {
                Some(en) => b_collect(st1, sh1, mu1, *en),
                None => (st1, sh1, mu1),
            }
        },
        _ => (st, sh, mu),
    }
}

pub open spec fn b_collect_list(st: BcSt, sh: Set<Seq<char>>, mu: Set<Seq<char>>, es: Seq<Expr>, i: int) -> (
    BcSt,
    Set<Seq<char>>,
    Set<Seq<char>>,
)
    decreases es, es.len() - i,
{
    if 0 <= i < es.len() {
        let (st1, sh1, mu1) = b_collect(st, sh, mu, es[i]);
        b_collect_list(st1, sh1, mu1, es, i + 1)
    } else {
        (st, sh, mu)
    }
}

// ---------------------------------------------------------------------------
// Expressions
// ---------------------------------------------------------------------------

/// Walks an expression; `by_ref` says the value is used through a reference (so it
/// would not be moved).
pub open spec fn b_expr(e: EnvM, st0: BcSt, sc: ScopeM, x: Expr, by_ref: bool) -> (BcSt, ScopeM)
    decreases x, 0int,
{
    let st = b_at(st0, x.loc);
    match x.kind {
        ExprKind::Var(name) => match lookup_m(sc, name@) {
            Some(bv) => if bv.moved {
                (b_err(st, "use of moved value "@ + q(name@)), sc)
            } else if !by_ref && is_non_copy_m(bv.ty) {
                (st, set_moved_m(sc, name@))
            } else {
                (st, sc)
            },
            None => (st, sc),
        },
        ExprKind::Call { name, args } => b_args(e, st, sc, args@, b_params(e, name@), 0),
        ExprKind::AssocCall { ty_name, method, args } => b_args(
            e,
            st,
            sc,
            args@,
            b_params(e, ty_name@ + "_"@ + method@),
            0,
        ),
        ExprKind::MethodCall { expr, args, .. } => {
            let (st1, sc1) = b_expr(e, st, sc, *expr, true);
            b_list(e, st1, sc1, args@, false, 0)
        },
        ExprKind::AddrOf { mutable, expr } => {
            let st1 = if mutable && immutable_var(sc, *expr) {
                b_err(st, "cannot take `&mut` of immutable binding "@ + q(expr.kind->Var_0@))
            } else {
                st
            };
            b_expr(e, st1, sc, *expr, true)
        },
        ExprKind::Tuple(elems) => b_tuple(e, st, sc, elems@, Set::empty(), Set::empty(), 0),
        ExprKind::BinOp { lhs, rhs, .. } => {
            let (st1, sc1) = b_expr(e, st, sc, *lhs, false);
            b_expr(e, st1, sc1, *rhs, false)
        },
        ExprKind::UnOp { operand, .. } => b_expr(e, st, sc, *operand, false),
        ExprKind::Deref(inner) => b_expr(e, st, sc, *inner, true),
        ExprKind::Field { expr, .. } => b_expr(e, st, sc, *expr, true),
        ExprKind::Index { expr, index } => {
            let (st1, sc1) = b_expr(e, st, sc, *expr, true);
            b_expr(e, st1, sc1, *index, false)
        },
        ExprKind::Range { start, end } => {
            let (st1, sc1) = b_opt(e, st, sc, start);
            b_opt(e, st1, sc1, end)
        },
        ExprKind::Cast { expr, .. } => b_expr(e, st, sc, *expr, false),
        ExprKind::StructLit { fields, .. } => b_fields(e, st, sc, fields@, 0),
        ExprKind::EnumStructLit { fields, .. } => b_fields(e, st, sc, fields@, 0),
        ExprKind::ArrayLit(elems) => b_list(e, st, sc, elems@, false, 0),
        ExprKind::Unsafe(block) => b_stmts(e, st, sc, block.stmts@, 0),
        ExprKind::Block(block) => b_stmts(e, st, sc, block.stmts@, 0),
        ExprKind::If { cond, then_block, else_block } => {
            let (st1, sc1) = b_expr(e, st, sc, *cond, false);
            let (st2, sc2) = b_stmts(e, st1, sc1, then_block.stmts@, 0);
            match else_block {
                Some(b) => b_stmts(e, st2, sc2, b.stmts@, 0),
                None => (st2, sc2),
            }
        },
        ExprKind::Match { arms, .. } => b_arm_bodies(e, st, sc, arms@, 0),
        ExprKind::Loop { body, .. } => b_stmts(e, st, sc, body.stmts@, 0),
        _ => (st, sc),
    }
}

pub open spec fn b_opt(e: EnvM, st: BcSt, sc: ScopeM, x: Option<Box<Expr>>) -> (BcSt, ScopeM)
    decreases x, 0int,
{
    match x {
        Some(b) => b_expr(e, st, sc, *b, false),
        None => (st, sc),
    }
}

/// Walks `es[i..]`, all with the same `by_ref`.
pub open spec fn b_list(e: EnvM, st: BcSt, sc: ScopeM, es: Seq<Expr>, by_ref: bool, i: int) -> (
    BcSt,
    ScopeM,
)
    decreases es, es.len() - i,
{
    if 0 <= i < es.len() {
        let (st1, sc1) = b_expr(e, st, sc, es[i], by_ref);
        b_list(e, st1, sc1, es, by_ref, i + 1)
    } else {
        (st, sc)
    }
}

/// Walks the arguments of a call: an argument whose parameter is a reference or raw
/// pointer is used by reference.
pub open spec fn b_args(e: EnvM, st: BcSt, sc: ScopeM, args: Seq<Expr>, ps: Seq<TyM>, i: int) -> (
    BcSt,
    ScopeM,
)
    decreases args, args.len() - i,
{
    if 0 <= i < args.len() {
        let by_ref = i < ps.len() && is_ref_m(ps[i]);
        let (st1, sc1) = b_expr(e, st, sc, args[i], by_ref);
        b_args(e, st1, sc1, args, ps, i + 1)
    } else {
        (st, sc)
    }
}

pub open spec fn b_fields(e: EnvM, st: BcSt, sc: ScopeM, fs: Seq<(String, Expr)>, i: int) -> (
    BcSt,
    ScopeM,
)
    decreases fs, fs.len() - i,
{
    if 0 <= i < fs.len() {
        let (st1, sc1) = b_expr(e, st, sc, fs[i].1, false);
        b_fields(e, st1, sc1, fs, i + 1)
    } else {
        (st, sc)
    }
}

/// The elements of a tuple: borrow conflicts are collected across all of them.
pub open spec fn b_tuple(
    e: EnvM,
    st: BcSt,
    sc: ScopeM,
    es: Seq<Expr>,
    sh: Set<Seq<char>>,
    mu: Set<Seq<char>>,
    i: int,
) -> (BcSt, ScopeM)
    decreases es, es.len() - i,
{
    if 0 <= i < es.len() {
        let (st1, sh1, mu1) = b_collect(st, sh, mu, es[i]);
        let (st2, sc2) = b_expr(e, st1, sc, es[i], false);
        b_tuple(e, st2, sc2, es, sh1, mu1, i + 1)
    } else {
        (st, sc)
    }
}

/// The bodies of a `match` expression's arms, in the enclosing scope.
pub open spec fn b_arm_bodies(e: EnvM, st: BcSt, sc: ScopeM, arms: Seq<MatchArm>, i: int) -> (
    BcSt,
    ScopeM,
)
    decreases arms, arms.len() - i,
{
    if 0 <= i < arms.len() {
        let (st1, sc1) = b_stmts(e, st, sc, arms[i].body.stmts@, 0);
        b_arm_bodies(e, st1, sc1, arms, i + 1)
    } else {
        (st, sc)
    }
}

/// Assignment through a place requires its variable to be mutable.
pub open spec fn b_lvalue(st0: BcSt, sc: ScopeM, x: Expr) -> BcSt
    decreases x,
{
    let st = b_at(st0, x.loc);
    match x.kind {
        ExprKind::Var(name) => if immutable_var(sc, x) {
            b_err(st, "cannot assign to immutable variable "@ + q(name@))
        } else {
            st
        },
        ExprKind::Index { expr, .. } => b_lvalue(st, sc, *expr),
        _ => st,
    }
}

// ---------------------------------------------------------------------------
// Statements
// ---------------------------------------------------------------------------

/// The borrows checked before a statement: those of its initializer, expression or
/// returned value.
pub open spec fn b_stmt_borrows(st: BcSt, s: Stmt) -> BcSt {
    match s.kind {
        StmtKind::Let { expr, .. } => b_collect(st, Set::empty(), Set::empty(), expr).0,
        StmtKind::Expr(x) => b_collect(st, Set::empty(), Set::empty(), x).0,
        StmtKind::Return(Some(x)) => b_collect(st, Set::empty(), Set::empty(), x).0,
        _ => st,
    }
}

pub open spec fn b_stmts(e: EnvM, st: BcSt, sc: ScopeM, ss: Seq<Stmt>, i: int) -> (BcSt, ScopeM)
    decreases ss, ss.len() - i,
{
    if 0 <= i < ss.len() {
        let (st1, sc1) = b_stmt(e, b_stmt_borrows(st, ss[i]), sc, ss[i]);
        b_stmts(e, st1, sc1, ss, i + 1)
    } else {
        (st, sc)
    }
}

pub open spec fn b_block(e: EnvM, st: BcSt, sc: ScopeM, b: Block) -> (BcSt, ScopeM)
    decreases b, 0int,
{
    let (st1, sc1) = b_stmts(e, st, sc.push(Seq::empty()), b.stmts@, 0);
    (st1, sc1.drop_last())
}

/// Variables a pattern binds for the borrow checker: those of an enum-variant pattern.
pub open spec fn b_pat_binds(sc: ScopeM, pat: Pat) -> ScopeM {
    match pat {
        Pat::EnumVariant { bindings, .. } => match bindings {
            PatBindings::Tuple(pats) => b_tuple_binds(sc, pats@, 0),
            PatBindings::Named(fields, _) => b_named_binds(sc, fields@, 0),
            PatBindings::Empty => sc,
        },
        _ => sc,
    }
}

pub open spec fn b_tuple_binds(sc: ScopeM, pats: Seq<Pat>, i: int) -> ScopeM
    decreases pats.len() - i,
{
    if 0 <= i < pats.len() {
        let sc1 = match pats[i] {
            Pat::Binding(n) => insert_m(sc, n@, fresh_var(TyM::Unit, false)),
            _ => sc,
        };
        b_tuple_binds(sc1, pats, i + 1)
    } else {
        sc
    }
}

pub open spec fn b_named_binds(sc: ScopeM, fields: Seq<(String, String)>, i: int) -> ScopeM
    decreases fields.len() - i,
{
    if 0 <= i < fields.len() {
        b_named_binds(insert_m(sc, fields[i].1@, fresh_var(TyM::Unit, false)), fields, i + 1)
    } else {
        sc
    }
}

/// Marks moved, in `sc`, each bound variable that an entry of `entries[i..]` (a branch's
/// scope) records as moved.
pub open spec fn b_propagate(sc: ScopeM, entries: FrameM, i: int) -> ScopeM
    decreases entries.len() - i,
{
    if 0 <= i < entries.len() {
        let sc1 = if entries[i].1.moved && lookup_m(sc, entries[i].0) is Some {
            set_moved_m(sc, entries[i].0)
        } else {
            sc
        };
        b_propagate(sc1, entries, i + 1)
    } else {
        sc
    }
}

pub open spec fn b_stmt(e: EnvM, st0: BcSt, sc: ScopeM, s: Stmt) -> (BcSt, ScopeM)
    decreases s, 0int,
{
    let st = b_at(st0, s.loc);
    match s.kind {
        StmtKind::Let { .. } => b_let(e, st, sc, s.kind),
        StmtKind::Assign { name, expr } => {
            let (st1, sc1) = b_expr(e, st, sc, expr, false);
            match lookup_m(sc1, name@) {
                Some(bv) => if !bv.mutable {
                    (b_err(st1, "cannot assign to immutable variable "@ + q(name@)), sc1)
                } else {
                    (st1, sc1)
                },
                None => (st1, sc1),
            }
        },
        StmtKind::Return(Some(x)) => b_expr(e, st, sc, x, false),
        StmtKind::Return(None) => (st, sc),
        StmtKind::If { .. } => b_if(e, st, sc, s.kind),
        StmtKind::While { cond, body } => {
            let (st1, sc1) = b_expr(e, st, sc, cond, true);
            b_block(e, st1, sc1, body)
        },
        StmtKind::Loop(body) => b_block(e, st, sc, body),
        StmtKind::For { var, body, .. } => b_block(
            e,
            st,
            insert_m(sc, var@, fresh_var(TyM::Unit, false)),
            body,
        ),
        StmtKind::Break(Some(v)) => b_expr(e, st, sc, v, false),
        StmtKind::Break(None) => (st, sc),
        StmtKind::Continue => (st, sc),
        StmtKind::CompoundAssign { lhs, rhs, .. } => {
            let (st1, sc1) = b_expr(e, st, sc, rhs, false);
            (b_lvalue(st1, sc1, lhs), sc1)
        },
        StmtKind::IfLet { .. } => b_if_let(e, st, sc, s.kind),
        StmtKind::WhileLet { pat, expr, body, .. } => {
            let (st1, sc1) = b_expr(e, st, sc, expr, false);
            let (st2, _) = b_block(e, st1, b_pat_binds(sc1, pat), body);
            (st2, sc1)
        },
        StmtKind::Match { arms, .. } => (b_match_arms(e, st, sc, arms@, 0), sc),
        StmtKind::Println { args, .. } => b_list(e, st, sc, args@, true, 0),
        StmtKind::Expr(x) => match x.kind {
            ExprKind::BinOp { op: BinOp::Eq, lhs, rhs } => {
                let (st1, sc1) = b_expr(e, st, sc, *rhs, false);
                (b_lvalue(st1, sc1, *lhs), sc1)
            },
            _ => b_expr(e, st, sc, x, false),
        },
        StmtKind::LetPat { expr, else_block, .. } => {
            let (st1, sc1) = b_expr(e, st, sc, expr, false);
            match else_block {
                Some(b) => b_block(e, st1, sc1, b),
                None => (st1, sc1),
            }
        },
    }
}

/// `let name[: ty] = expr;` binds `name` with its type annotation (which type checking
/// has filled in), or `()` where there is none.
pub open spec fn b_let(e: EnvM, st: BcSt, sc: ScopeM, k: StmtKind) -> (BcSt, ScopeM)
    decreases k, 0int,
{
    match k {
        StmtKind::Let { name, mutable, ty, expr } => {
            // `let a = b;` with `b` of a non-Copy type moves `b` into `a`.
            let moves_src = match expr.kind {
                ExprKind::Var(src) => match lookup_m(sc, src@) {
                    Some(sv) => !sv.moved && is_non_copy_m(sv.ty),
                    None => false,
                },
                _ => false,
            };
            if moves_src {
                let src = expr.kind->Var_0@;
                let t = match ty {
                    Some(t) => t@,
                    None => lookup_m(sc, src).unwrap().ty,
                };
                (st, insert_m(set_moved_m(sc, src), name@, fresh_var(t, mutable)))
            } else {
                let st1 = match expr.kind {
                    ExprKind::Var(src) => match lookup_m(sc, src@) {
                        Some(sv) => if sv.moved {
                            b_err(st, "use of moved value "@ + q(src@))
                        } else {
                            st
                        },
                        None => st,
                    },
                    _ => st,
                };
                let (st2, sc2) = b_expr(e, st1, sc, expr, false);
                let t = match ty {
                    Some(t) => t@,
                    None => TyM::Unit,
                };
                (st2, insert_m(sc2, name@, fresh_var(t, mutable)))
            }
        },
        _ => (st, sc),
    }
}

/// An `if` statement: each branch is checked in a copy of the scope, and moves made
/// in either branch are then recorded in the scope.
pub open spec fn b_if(e: EnvM, st: BcSt, sc: ScopeM, k: StmtKind) -> (BcSt, ScopeM)
    decreases k, 0int,
{
    match k {
        StmtKind::If { cond, then_block, else_block } => {
            let (st1, sc1) = b_expr(e, st, sc, cond, true);
            let (st2, then_sc) = b_block(e, st1, sc1, then_block);
            let (st3, else_sc) = match else_block {
                Some(b) => b_block(e, st2, sc1, b),
                None => (st2, sc1),
            };
            let sc2 = b_propagate(sc1, flatten_m(then_sc), 0);
            (st3, b_propagate(sc2, flatten_m(else_sc), 0))
        },
        _ => (st, sc),
    }
}

/// An `if let` statement: the then-branch sees the pattern's bindings, in a copy of the
/// scope.
pub open spec fn b_if_let(e: EnvM, st: BcSt, sc: ScopeM, k: StmtKind) -> (BcSt, ScopeM)
    decreases k, 0int,
{
    match k {
        StmtKind::IfLet { pat, expr, then_block, else_block, .. } => {
            let (st1, sc1) = b_expr(e, st, sc, expr, false);
            let (st2, _) = b_block(e, st1, b_pat_binds(sc1, pat), then_block);
            match else_block {
                Some(eb) => b_block(e, st2, sc1, eb),
                None => (st2, sc1),
            }
        },
        _ => (st, sc),
    }
}

/// The arms of a `match` statement, each in a copy of the scope with its bindings.
pub open spec fn b_match_arms(e: EnvM, st: BcSt, sc: ScopeM, arms: Seq<MatchArm>, i: int) -> BcSt
    decreases arms, arms.len() - i,
{
    if 0 <= i < arms.len() {
        let (st1, _) = b_stmts(e, st, b_pat_binds(sc, arms[i].pat), arms[i].body.stmts@, 0);
        b_match_arms(e, st1, sc, arms, i + 1)
    } else {
        st
    }
}

// ---------------------------------------------------------------------------
// Functions and items
// ---------------------------------------------------------------------------

/// The scope a function body starts with: `self` (mutable for `&mut self`) and the
/// parameters, as declared.
pub open spec fn b_fn_scope(f: FnDecl, impl_type: Option<Seq<char>>) -> ScopeM {
    let sc0 = seq![Seq::<(Seq<char>, super::scope::VarM)>::empty()];
    let sc1 = match (f.receiver, impl_type) {
        (Some(recv), Some(itype)) => {
            let named = TyM::Named(itype);
            let (t, m) = match recv {
                Receiver::Value => (named, false),
                Receiver::Ref => (TyM::Ref(Box::new(named)), false),
                Receiver::RefMut => (TyM::RefMut(Box::new(named)), true),
            };
            insert_m(sc0, "self"@, fresh_var(t, m))
        },
        _ => sc0,
    };
    b_params_scope(sc1, f.params@, 0)
}

pub open spec fn b_params_scope(sc: ScopeM, ps: Seq<crate::ast::Param>, i: int) -> ScopeM
    decreases ps.len() - i,
{
    if 0 <= i < ps.len() {
        b_params_scope(insert_m(sc, ps[i].name@, fresh_var(ps[i].ty@, false)), ps, i + 1)
    } else {
        sc
    }
}

pub open spec fn b_fn(e: EnvM, st: BcSt, f: FnDecl, impl_type: Option<Seq<char>>) -> BcSt {
    b_stmts(e, st, b_fn_scope(f, impl_type), f.body.stmts@, 0).0
}

pub open spec fn b_methods(e: EnvM, st: BcSt, ms: Seq<FnDecl>, itype: Seq<char>, i: int) -> BcSt
    decreases ms.len() - i,
{
    if 0 <= i < ms.len() {
        b_methods(e, b_fn(e, st, ms[i], Some(itype)), ms, itype, i + 1)
    } else {
        st
    }
}

pub open spec fn b_items(e: EnvM, st: BcSt, items: Seq<Item>, prefix: Seq<char>, i: int) -> BcSt
    decreases items, items.len() - i,
{
    if 0 <= i < items.len() {
        let st1 = match items[i] {
            Item::Fn(f) => b_fn(e, st, f, None),
            Item::Impl(imp) => b_methods(e, st, imp.methods@, prefix + imp.ty_name@, 0),
            Item::Mod { name, items: sub, .. } => b_items(e, st, sub@, prefix + name@ + "_"@, 0),
            _ => st,
        };
        b_items(e, st1, items, prefix, i + 1)
    } else {
        st
    }
}

/// Phase 2 on a whole file.
pub open spec fn b_check_file(e: EnvM, st: BcSt, f: File) -> BcSt {
    b_items(e, st, f.items@, Seq::empty(), 0)
}

/// The minimal borrow checker; see the module documentation for what it enforces.
pub struct BorrowChecker<'a, 'b> {
    pub env: &'b TyEnv<'a>,
    pub errors: Vec<Error>,
    pub cur_loc: Loc,
}

impl<'a, 'b> BorrowChecker<'a, 'b> {
    /// The observable state.
    pub open spec fn st(&self) -> BcSt {
        BcSt { errs: errs_view(self.errors@), loc: self.cur_loc }
    }

    /// The model of the environment.
    pub open spec fn em(&self) -> EnvM {
        self.env.model()
    }

    pub fn new(env: &'b TyEnv<'a>) -> (r: Self)
        ensures
            r.env == env,
            r.st() == (BcSt { errs: Seq::empty(), loc: Loc { line: 0, col: 0 } }),
    {
        let r = BorrowChecker { env, errors: Vec::new(), cur_loc: Loc::default() };
        assert(errs_view(r.errors@) =~= Seq::<ErrM>::empty());
        r
    }

    fn err(&mut self, msg: String)
        ensures
            final(self).env == old(self).env,
            final(self).st() == b_err(old(self).st(), msg@),
    {
        let e = Error::new(self.cur_loc, msg);
        self.errors.push(e);
        assert(errs_view(self.errors@) =~= errs_view(old(self).errors@).push(
            ErrM { loc: old(self).cur_loc, message: msg@ },
        ));
    }

    /// Collects the direct borrows of variables in `x`, detecting conflicts within one
    /// statement such as `f(&x, &mut x)`.
    fn collect_borrows(&mut self, x: &Expr, shared: &mut NameSet, muts: &mut NameSet)
        ensures
            final(self).env == old(self).env,
            (final(self).st(), final(shared)@, final(muts)@) == b_collect(
                old(self).st(),
                old(shared)@,
                old(muts)@,
                *x,
            ),
        decreases x, 1int,
    {
        self.cur_loc = x.loc;
        match &x.kind {
            ExprKind::AddrOf { mutable, expr: inner } => {
                if let ExprKind::Var(name) = &inner.kind {
                    if !*mutable {
                        if muts.contains(name.as_str()) {
                            let mut m = String::from_str("cannot borrow ");
                            add_q(&mut m, name.as_str());
                            m.append(" as immutable: also borrowed as mutable");
                            self.err(m);
                        }
                        shared.insert(name.clone());
                    } else {
                        if shared.contains(name.as_str()) {
                            let mut m = String::from_str("cannot borrow ");
                            add_q(&mut m, name.as_str());
                            m.append(" as mutable: also borrowed as immutable");
                            self.err(m);
                        } else if muts.contains(name.as_str()) {
                            let mut m = String::from_str("cannot borrow ");
                            add_q(&mut m, name.as_str());
                            m.append(" as mutable more than once");
                            self.err(m);
                        }
                        muts.insert(name.clone());
                    }
                }
                self.collect_borrows(inner, shared, muts);
            },
            ExprKind::BinOp { lhs, rhs, .. } => {
                self.collect_borrows(lhs, shared, muts);
                self.collect_borrows(rhs, shared, muts);
            },
            ExprKind::UnOp { operand, .. } => self.collect_borrows(operand, shared, muts),
            ExprKind::Call { args, .. } => self.collect_list(args, shared, muts),
            ExprKind::AssocCall { args, .. } => self.collect_list(args, shared, muts),
            ExprKind::MethodCall { expr, args, .. } => {
                self.collect_borrows(expr, shared, muts);
                self.collect_list(args, shared, muts);
            },
            ExprKind::Tuple(elems) => self.collect_list(elems, shared, muts),
            ExprKind::ArrayLit(elems) => self.collect_list(elems, shared, muts),
            ExprKind::Field { expr, .. } => self.collect_borrows(expr, shared, muts),
            ExprKind::Deref(expr) => self.collect_borrows(expr, shared, muts),
            ExprKind::Cast { expr, .. } => self.collect_borrows(expr, shared, muts),
            ExprKind::Index { expr, index } => {
                self.collect_borrows(expr, shared, muts);
                self.collect_borrows(index, shared, muts);
            },
            ExprKind::Range { start, end } => {
                if let Some(s) = start {
                    self.collect_borrows(s, shared, muts);
                }
                if let Some(en) = end {
                    self.collect_borrows(en, shared, muts);
                }
            },
            _ => {},
        }
    }

    fn collect_list(&mut self, es: &Vec<Expr>, shared: &mut NameSet, muts: &mut NameSet)
        ensures
            final(self).env == old(self).env,
            (final(self).st(), final(shared)@, final(muts)@) == b_collect_list(
                old(self).st(),
                old(shared)@,
                old(muts)@,
                es@,
                0,
            ),
        decreases es, 0int,
    {
        proof {
            lemma_vec_index_decreases(*es);
        }
        let mut i: usize = 0;
        while i < es.len()
            invariant
                i <= es.len(),
                self.env == old(self).env,
                forall|j: int| 0 <= j < es.len() ==> decreases_to!(*es => es@[j]),
                b_collect_list(self.st(), shared@, muts@, es@, i as int) == b_collect_list(
                    old(self).st(),
                    old(shared)@,
                    old(muts)@,
                    es@,
                    0,
                ),
            decreases es.len() - i,
        {
            self.collect_borrows(&es[i], shared, muts);
            i += 1;
        }
    }

    /// Checks that the variable of an assignment target is mutable.
    fn check_lvalue_mut(&mut self, x: &Expr, scope: &Scope)
        ensures
            final(self).env == old(self).env,
            final(self).st() == b_lvalue(old(self).st(), scope@, *x),
        decreases x,
    {
        self.cur_loc = x.loc;
        match &x.kind {
            ExprKind::Var(name) => {
                if let Some(bv) = scope.lookup(name.as_str()) {
                    if !bv.mutable {
                        let mut m = String::from_str("cannot assign to immutable variable ");
                        add_q(&mut m, name.as_str());
                        self.err(m);
                    }
                }
            },
            ExprKind::Index { expr, .. } => self.check_lvalue_mut(expr, scope),
            // `*p = ..` and `obj.field = ..`: mutability through a pointer or reference
            // is a matter for the type checker.
            _ => {},
        }
    }

    /// Walks an expression; `by_ref` is true where the value is used through a
    /// reference, so that it is not moved.
    fn check_expr(&mut self, x: &Expr, scope: &mut Scope, by_ref: bool)
        requires
            old(scope)@.len() > 0,
        ensures
            final(self).env == old(self).env,
            final(scope)@.len() == old(scope)@.len(),
            (final(self).st(), final(scope)@) == b_expr(
                old(self).em(),
                old(self).st(),
                old(scope)@,
                *x,
                by_ref,
            ),
        decreases x, 10int,
    {
        let env = self.env;
        self.cur_loc = x.loc;
        match &x.kind {
            ExprKind::Var(name) => {
                let (moved, non_copy) = match scope.lookup(name.as_str()) {
                    Some(bv) => (Some(bv.moved), is_non_copy(&bv.ty)),
                    None => (None, false),
                };
                if let Some(mv) = moved {
                    if mv {
                        let mut m = String::from_str("use of moved value ");
                        add_q(&mut m, name.as_str());
                        self.err(m);
                        return;
                    }
                    if !by_ref && non_copy {
                        scope.set_moved(name.as_str());
                    }
                }
            },
            ExprKind::Call { name, args } => {
                let ps = match env.fns.get(name.as_str()) {
                    Some(sig) => super::clone_ty_vec(&sig.0),
                    None => Vec::new(),
                };
                self.check_args(args, &ps, scope);
            },
            ExprKind::AssocCall { ty_name, method, args } => {
                let mangled = cat3(ty_name.as_str(), "_", method.as_str());
                let ps = match env.fns.get(mangled.as_str()) {
                    Some(sig) => super::clone_ty_vec(&sig.0),
                    None => Vec::new(),
                };
                self.check_args(args, &ps, scope);
            },
            ExprKind::MethodCall { expr, args, .. } => {
                // The receiver is used by reference.
                self.check_expr(expr, scope, true);
                self.check_list(args, scope, false);
            },
            ExprKind::AddrOf { mutable, expr } => {
                if *mutable {
                    if let ExprKind::Var(name) = &expr.kind {
                        if let Some(bv) = scope.lookup(name.as_str()) {
                            if !bv.mutable {
                                let mut m = String::from_str(
                                    "cannot take `&mut` of immutable binding ",
                                );
                                add_q(&mut m, name.as_str());
                                self.err(m);
                            }
                        }
                    }
                }
                self.check_expr(expr, scope, true);
            },
            ExprKind::Tuple(elems) => self.check_tuple(elems, scope),
            ExprKind::BinOp { lhs, rhs, .. } => {
                self.check_expr(lhs, scope, false);
                self.check_expr(rhs, scope, false);
            },
            ExprKind::UnOp { operand, .. } => self.check_expr(operand, scope, false),
            ExprKind::Deref(inner) => self.check_expr(inner, scope, true),
            ExprKind::Field { expr, .. } => self.check_expr(expr, scope, true),
            ExprKind::Index { expr, index } => {
                self.check_expr(expr, scope, true);
                self.check_expr(index, scope, false);
            },
            ExprKind::Range { start, end } => {
                self.check_opt(start, scope);
                self.check_opt(end, scope);
            },
            ExprKind::Cast { expr, .. } => self.check_expr(expr, scope, false),
            ExprKind::StructLit { fields, .. } => self.check_fields(fields, scope),
            ExprKind::EnumStructLit { fields, .. } => self.check_fields(fields, scope),
            ExprKind::ArrayLit(elems) => self.check_list(elems, scope, false),
            ExprKind::Unsafe(block) => self.check_stmts(block, scope),
            ExprKind::Block(block) => self.check_stmts(block, scope),
            ExprKind::If { cond, then_block, else_block } => {
                self.check_expr(cond, scope, false);
                self.check_stmts(then_block, scope);
                if let Some(b) = else_block {
                    self.check_stmts(b, scope);
                }
            },
            ExprKind::Match { arms, .. } => self.check_arm_bodies(arms, scope),
            ExprKind::Loop { body, .. } => self.check_stmts(body, scope),
            // Literals and the remaining forms have nothing to check here.
            _ => {},
        }
    }

    fn check_opt(&mut self, x: &Option<Box<Expr>>, scope: &mut Scope)
        requires
            old(scope)@.len() > 0,
        ensures
            final(self).env == old(self).env,
            final(scope)@.len() == old(scope)@.len(),
            (final(self).st(), final(scope)@) == b_opt(old(self).em(), old(self).st(), old(scope)@, *x),
        decreases x, 11int,
    {
        if let Some(b) = x {
            self.check_expr(b, scope, false);
        }
    }

    fn check_list(&mut self, es: &Vec<Expr>, scope: &mut Scope, by_ref: bool)
        requires
            old(scope)@.len() > 0,
        ensures
            final(self).env == old(self).env,
            final(scope)@.len() == old(scope)@.len(),
            (final(self).st(), final(scope)@) == b_list(
                old(self).em(),
                old(self).st(),
                old(scope)@,
                es@,
                by_ref,
                0,
            ),
        decreases es, 1int,
    {
        proof {
            lemma_vec_index_decreases(*es);
        }
        let mut i: usize = 0;
        while i < es.len()
            invariant
                i <= es.len(),
                self.env == old(self).env,
                old(scope)@.len() > 0,
                scope@.len() == old(scope)@.len(),
                forall|j: int| 0 <= j < es.len() ==> decreases_to!(*es => es@[j]),
                b_list(self.em(), self.st(), scope@, es@, by_ref, i as int) == b_list(
                    old(self).em(),
                    old(self).st(),
                    old(scope)@,
                    es@,
                    by_ref,
                    0,
                ),
            decreases es.len() - i,
        {
            self.check_expr(&es[i], scope, by_ref);
            i += 1;
        }
    }

    /// Walks call arguments; one whose parameter is a reference or raw pointer is used
    /// by reference.
    fn check_args(&mut self, args: &Vec<Expr>, params: &Vec<Ty>, scope: &mut Scope)
        requires
            old(scope)@.len() > 0,
        ensures
            final(self).env == old(self).env,
            final(scope)@.len() == old(scope)@.len(),
            (final(self).st(), final(scope)@) == b_args(
                old(self).em(),
                old(self).st(),
                old(scope)@,
                args@,
                tys_view(params@),
                0,
            ),
        decreases args, 1int,
    {
        proof {
            lemma_vec_index_decreases(*args);
            lemma_tys_view(params@);
        }
        let mut i: usize = 0;
        while i < args.len()
            invariant
                i <= args.len(),
                self.env == old(self).env,
                old(scope)@.len() > 0,
                scope@.len() == old(scope)@.len(),
                tys_view(params@).len() == params.len(),
                forall|j: int| 0 <= j < params.len() ==> #[trigger] tys_view(params@)[j] == params@[j]@,
                forall|j: int| 0 <= j < args.len() ==> decreases_to!(*args => args@[j]),
                b_args(self.em(), self.st(), scope@, args@, tys_view(params@), i as int) == b_args(
                    old(self).em(),
                    old(self).st(),
                    old(scope)@,
                    args@,
                    tys_view(params@),
                    0,
                ),
            decreases args.len() - i,
        {
            let by_ref = i < params.len() && is_ref_ty(&params[i]);
            self.check_expr(&args[i], scope, by_ref);
            i += 1;
        }
    }

    fn check_fields(&mut self, fs: &Vec<(String, Expr)>, scope: &mut Scope)
        requires
            old(scope)@.len() > 0,
        ensures
            final(self).env == old(self).env,
            final(scope)@.len() == old(scope)@.len(),
            (final(self).st(), final(scope)@) == b_fields(
                old(self).em(),
                old(self).st(),
                old(scope)@,
                fs@,
                0,
            ),
        decreases fs, 1int,
    {
        proof {
            lemma_vec_index_decreases(*fs);
        }
        let mut i: usize = 0;
        while i < fs.len()
            invariant
                i <= fs.len(),
                self.env == old(self).env,
                old(scope)@.len() > 0,
                scope@.len() == old(scope)@.len(),
                forall|j: int| 0 <= j < fs.len() ==> decreases_to!(*fs => fs@[j]),
                b_fields(self.em(), self.st(), scope@, fs@, i as int) == b_fields(
                    old(self).em(),
                    old(self).st(),
                    old(scope)@,
                    fs@,
                    0,
                ),
            decreases fs.len() - i,
        {
            self.check_expr(&fs[i].1, scope, false);
            i += 1;
        }
    }

    /// The elements of a tuple, with borrow conflicts collected across them:
    /// `(&x, &mut x)` is rejected.
    fn check_tuple(&mut self, es: &Vec<Expr>, scope: &mut Scope)
        requires
            old(scope)@.len() > 0,
        ensures
            final(self).env == old(self).env,
            final(scope)@.len() == old(scope)@.len(),
            (final(self).st(), final(scope)@) == b_tuple(
                old(self).em(),
                old(self).st(),
                old(scope)@,
                es@,
                Set::empty(),
                Set::empty(),
                0,
            ),
        decreases es, 1int,
    {
        proof {
            lemma_vec_index_decreases(*es);
        }
        let mut shared = NameSet::new();
        let mut muts = NameSet::new();
        let mut i: usize = 0;
        while i < es.len()
            invariant
                i <= es.len(),
                self.env == old(self).env,
                old(scope)@.len() > 0,
                scope@.len() == old(scope)@.len(),
                forall|j: int| 0 <= j < es.len() ==> decreases_to!(*es => es@[j]),
                b_tuple(self.em(), self.st(), scope@, es@, shared@, muts@, i as int) == b_tuple(
                    old(self).em(),
                    old(self).st(),
                    old(scope)@,
                    es@,
                    Set::empty(),
                    Set::empty(),
                    0,
                ),
            decreases es.len() - i,
        {
            self.collect_borrows(&es[i], &mut shared, &mut muts);
            self.check_expr(&es[i], scope, false);
            i += 1;
        }
    }

    fn check_arm_bodies(&mut self, arms: &Vec<MatchArm>, scope: &mut Scope)
        requires
            old(scope)@.len() > 0,
        ensures
            final(self).env == old(self).env,
            final(scope)@.len() == old(scope)@.len(),
            (final(self).st(), final(scope)@) == b_arm_bodies(
                old(self).em(),
                old(self).st(),
                old(scope)@,
                arms@,
                0,
            ),
        decreases arms, 1int,
    {
        proof {
            lemma_vec_index_decreases(*arms);
        }
        let mut i: usize = 0;
        while i < arms.len()
            invariant
                i <= arms.len(),
                self.env == old(self).env,
                old(scope)@.len() > 0,
                scope@.len() == old(scope)@.len(),
                forall|j: int| 0 <= j < arms.len() ==> decreases_to!(*arms => arms@[j]),
                b_arm_bodies(self.em(), self.st(), scope@, arms@, i as int) == b_arm_bodies(
                    old(self).em(),
                    old(self).st(),
                    old(scope)@,
                    arms@,
                    0,
                ),
            decreases arms.len() - i,
        {
            self.check_stmts(&arms[i].body, scope);
            i += 1;
        }
    }

    fn check_block(&mut self, b: &Block, scope: &mut Scope)
        requires
            old(scope)@.len() > 0,
        ensures
            final(self).env == old(self).env,
            final(scope)@.len() == old(scope)@.len(),
            (final(self).st(), final(scope)@) == b_block(old(self).em(), old(self).st(), old(scope)@, *b),
        decreases b, 10int,
    {
        scope.push();
        self.check_stmts(b, scope);
        scope.pop();
    }

    /// Walks a block's statements, checking each statement's borrows before the
    /// statement itself.
    fn check_stmts(&mut self, b: &Block, scope: &mut Scope)
        requires
            old(scope)@.len() > 0,
        ensures
            final(self).env == old(self).env,
            final(scope)@.len() == old(scope)@.len(),
            (final(self).st(), final(scope)@) == b_stmts(
                old(self).em(),
                old(self).st(),
                old(scope)@,
                b.stmts@,
                0,
            ),
        decreases b, 2int,
    {
        proof {
            lemma_elems_decrease(*b, b.stmts);
        }
        let mut i: usize = 0;
        while i < b.stmts.len()
            invariant
                i <= b.stmts.len(),
                self.env == old(self).env,
                old(scope)@.len() > 0,
                scope@.len() == old(scope)@.len(),
                forall|j: int| 0 <= j < b.stmts.len() ==> decreases_to!(*b => b.stmts@[j]),
                b_stmts(self.em(), self.st(), scope@, b.stmts@, i as int) == b_stmts(
                    old(self).em(),
                    old(self).st(),
                    old(scope)@,
                    b.stmts@,
                    0,
                ),
            decreases b.stmts.len() - i,
        {
            let s = &b.stmts[i];
            let mut shared = NameSet::new();
            let mut muts = NameSet::new();
            match &s.kind {
                StmtKind::Let { expr, .. } => self.collect_borrows(expr, &mut shared, &mut muts),
                StmtKind::Expr(x) => self.collect_borrows(x, &mut shared, &mut muts),
                StmtKind::Return(Some(x)) => self.collect_borrows(x, &mut shared, &mut muts),
                _ => {},
            }
            self.check_stmt(s, scope);
            i += 1;
        }
    }

    fn check_stmt(&mut self, s: &Stmt, scope: &mut Scope)
        requires
            old(scope)@.len() > 0,
        ensures
            final(self).env == old(self).env,
            final(scope)@.len() == old(scope)@.len(),
            (final(self).st(), final(scope)@) == b_stmt(old(self).em(), old(self).st(), old(scope)@, *s),
        decreases s, 10int,
    {
        self.cur_loc = s.loc;
        match &s.kind {
            StmtKind::Let { .. } => self.check_let(s, scope),
            StmtKind::Assign { name, expr } => {
                self.check_expr(expr, scope, false);
                if let Some(bv) = scope.lookup(name.as_str()) {
                    if !bv.mutable {
                        let mut m = String::from_str("cannot assign to immutable variable ");
                        add_q(&mut m, name.as_str());
                        self.err(m);
                    }
                }
            },
            StmtKind::Return(Some(x)) => self.check_expr(x, scope, false),
            StmtKind::Return(None) => {},
            StmtKind::If { .. } => self.check_if(s, scope),
            StmtKind::While { cond, body } => {
                self.check_expr(cond, scope, true);
                self.check_block(body, scope);
            },
            StmtKind::Loop(body) => self.check_block(body, scope),
            StmtKind::For { var, body, .. } => {
                scope.insert(var.clone(), Ty::Unit, false);
                self.check_block(body, scope);
            },
            StmtKind::Break(val) => {
                if let Some(v) = val {
                    self.check_expr(v, scope, false);
                }
            },
            StmtKind::Continue => {},
            StmtKind::CompoundAssign { lhs, rhs, .. } => {
                self.check_expr(rhs, scope, false);
                self.check_lvalue_mut(lhs, scope);
            },
            StmtKind::IfLet { .. } => self.check_if_let(s, scope),
            StmtKind::WhileLet { pat, expr, body, .. } => {
                self.check_expr(expr, scope, false);
                let mut body_scope = scope.clone_scope();
                self.bind_placeholders(pat, &mut body_scope);
                self.check_block(body, &mut body_scope);
            },
            StmtKind::Match { arms, .. } => self.check_match_arms(arms, scope),
            StmtKind::Println { args, .. } => self.check_list(args, scope, true),
            StmtKind::Expr(x) => {
                match &x.kind {
                    ExprKind::BinOp { op: BinOp::Eq, lhs, rhs } => {
                        self.check_expr(rhs, scope, false);
                        self.check_lvalue_mut(lhs, scope);
                    },
                    _ => self.check_expr(x, scope, false),
                }
            },
            StmtKind::LetPat { expr, else_block, .. } => {
                self.check_expr(expr, scope, false);
                if let Some(b) = else_block {
                    self.check_block(b, scope);
                }
            },
        }
    }

    fn check_let(&mut self, s: &Stmt, scope: &mut Scope)
        requires
            old(scope)@.len() > 0,
        ensures
            final(self).env == old(self).env,
            final(scope)@.len() == old(scope)@.len(),
            (final(self).st(), final(scope)@) == b_let(old(self).em(), old(self).st(), old(scope)@, s.kind),
        decreases s, 9int,
    {
        if let StmtKind::Let { name, mutable, ty, expr } = &s.kind {
            // A plain `let a = b;` moves `b` when its type is not `Copy`.
            if let ExprKind::Var(src) = &expr.kind {
                let (moved, non_copy, src_ty) = match scope.lookup(src.as_str()) {
                    Some(sv) => (Some(sv.moved), is_non_copy(&sv.ty), sv.ty.clone_ty()),
                    None => (None, false, Ty::Unit),
                };
                if let Some(mv) = moved {
                    if mv {
                        let mut m = String::from_str("use of moved value ");
                        add_q(&mut m, src.as_str());
                        self.err(m);
                    } else if non_copy {
                        scope.set_moved(src.as_str());
                        let final_ty = match ty {
                            Some(t) => t.clone_ty(),
                            None => src_ty,
                        };
                        scope.insert(name.clone(), final_ty, *mutable);
                        return;
                    }
                }
            }
            let final_ty = match ty {
                Some(t) => t.clone_ty(),
                None => Ty::Unit,
            };
            self.check_expr(expr, scope, false);
            scope.insert(name.clone(), final_ty, *mutable);
        }
    }

    fn check_if(&mut self, s: &Stmt, scope: &mut Scope)
        requires
            old(scope)@.len() > 0,
        ensures
            final(self).env == old(self).env,
            final(scope)@.len() == old(scope)@.len(),
            (final(self).st(), final(scope)@) == b_if(old(self).em(), old(self).st(), old(scope)@, s.kind),
        decreases s, 9int,
    {
        if let StmtKind::If { cond, then_block, else_block } = &s.kind {
            self.check_expr(cond, scope, true);
            let mut then_scope = scope.clone_scope();
            self.check_block(then_block, &mut then_scope);
            let mut else_scope = scope.clone_scope();
            if let Some(b) = else_block {
                self.check_block(b, &mut else_scope);
            }
            // Moves made in either branch count after the `if`.
            let then_entries = then_scope.entries();
            propagate_moves(scope, &then_entries, Ghost(flatten_m(then_scope@)));
            let else_entries = else_scope.entries();
            propagate_moves(scope, &else_entries, Ghost(flatten_m(else_scope@)));
        }
    }

    fn check_if_let(&mut self, s: &Stmt, scope: &mut Scope)
        requires
            old(scope)@.len() > 0,
        ensures
            final(self).env == old(self).env,
            final(scope)@.len() == old(scope)@.len(),
            (final(self).st(), final(scope)@) == b_if_let(old(self).em(), old(self).st(), old(scope)@, s.kind),
        decreases s, 9int,
    {
        if let StmtKind::IfLet { pat, expr, then_block, else_block, .. } = &s.kind {
            self.check_expr(expr, scope, false);
            let mut then_scope = scope.clone_scope();
            self.bind_placeholders(pat, &mut then_scope);
            self.check_block(then_block, &mut then_scope);
            if let Some(eb) = else_block {
                self.check_block(eb, scope);
            }
        }
    }

    /// The arms of a `match` statement, each in a copy of the scope holding its bindings.
    fn check_match_arms(&mut self, arms: &Vec<MatchArm>, scope: &Scope)
        requires
            scope@.len() > 0,
        ensures
            final(self).env == old(self).env,
            final(self).st() == b_match_arms(old(self).em(), old(self).st(), scope@, arms@, 0),
        decreases arms, 1int,
    {
        proof {
            lemma_vec_index_decreases(*arms);
        }
        let mut i: usize = 0;
        while i < arms.len()
            invariant
                i <= arms.len(),
                self.env == old(self).env,
                scope@.len() > 0,
                forall|j: int| 0 <= j < arms.len() ==> decreases_to!(*arms => arms@[j]),
                b_match_arms(self.em(), self.st(), scope@, arms@, i as int) == b_match_arms(
                    old(self).em(),
                    old(self).st(),
                    scope@,
                    arms@,
                    0,
                ),
            decreases arms.len() - i,
        {
            let mut arm_scope = scope.clone_scope();
            self.bind_placeholders(&arms[i].pat, &mut arm_scope);
            self.check_stmts(&arms[i].body, &mut arm_scope);
            i += 1;
        }
    }

    /// Binds the variables of an enum-variant pattern, with placeholder type `()`.
    fn bind_placeholders(&self, pat: &Pat, scope: &mut Scope)
        requires
            old(scope)@.len() > 0,
        ensures
            final(scope)@.len() == old(scope)@.len(),
            final(scope)@ == b_pat_binds(old(scope)@, *pat),
    {
        if let Pat::EnumVariant { bindings, .. } = pat {
            match bindings {
                PatBindings::Tuple(pats) => {
                    let mut i: usize = 0;
                    while i < pats.len()
                        invariant
                            i <= pats.len(),
                            old(scope)@.len() > 0,
                            scope@.len() == old(scope)@.len(),
                            b_tuple_binds(scope@, pats@, i as int) == b_tuple_binds(
                                old(scope)@,
                                pats@,
                                0,
                            ),
                        decreases pats.len() - i,
                    {
                        if let Pat::Binding(n) = &pats[i] {
                            scope.insert(n.clone(), Ty::Unit, false);
                        }
                        i += 1;
                    }
                },
                PatBindings::Named(fields, _) => {
                    let mut i: usize = 0;
                    while i < fields.len()
                        invariant
                            i <= fields.len(),
                            old(scope)@.len() > 0,
                            scope@.len() == old(scope)@.len(),
                            b_named_binds(scope@, fields@, i as int) == b_named_binds(
                                old(scope)@,
                                fields@,
                                0,
                            ),
                        decreases fields.len() - i,
                    {
                        scope.insert(fields[i].1.clone(), Ty::Unit, false);
                        i += 1;
                    }
                },
                PatBindings::Empty => {},
            }
        }
    }

    fn check_fn(&mut self, f: &FnDecl, impl_type: Option<&String>)
        ensures
            final(self).env == old(self).env,
            final(self).st() == b_fn(old(self).em(), old(self).st(), *f, opt_str(impl_type)),
    {
        let mut scope = Scope::new();
        if let Some(recv) = &f.receiver {
            if let Some(itype) = impl_type {
                let named = Ty::Named(to_owned(itype.as_str()));
                assert(named@ == TyM::Named(itype@));
                let (self_ty, self_mut) = match recv {
                    Receiver::Value => (named, false),
                    Receiver::Ref => (Ty::Ref(Box::new(named)), false),
                    // `&mut self` is a mutable binding, so that fields can be assigned.
                    Receiver::RefMut => (Ty::RefMut(Box::new(named)), true),
                };
                scope.insert(String::from_str("self"), self_ty, self_mut);
            }
        }
        let ghost sc1 = scope@;
        let mut i: usize = 0;
        while i < f.params.len()
            invariant
                i <= f.params.len(),
                scope@.len() == 1,
                b_params_scope(scope@, f.params@, i as int) == b_params_scope(sc1, f.params@, 0),
            decreases f.params.len() - i,
        {
            scope.insert(f.params[i].name.clone(), f.params[i].ty.clone_ty(), false);
            i += 1;
        }
        assert(scope@ == b_fn_scope(*f, opt_str(impl_type)));
        self.check_stmts(&f.body, &mut scope);
    }

    fn check_methods(&mut self, ms: &Vec<FnDecl>, itype: &String)
        ensures
            final(self).env == old(self).env,
            final(self).st() == b_methods(old(self).em(), old(self).st(), ms@, itype@, 0),
    {
        let mut i: usize = 0;
        while i < ms.len()
            invariant
                i <= ms.len(),
                self.env == old(self).env,
                b_methods(self.em(), self.st(), ms@, itype@, i as int) == b_methods(
                    old(self).em(),
                    old(self).st(),
                    ms@,
                    itype@,
                    0,
                ),
            decreases ms.len() - i,
        {
            self.check_fn(&ms[i], Some(itype));
            i += 1;
        }
    }

    fn check_items(&mut self, items: &Vec<Item>, prefix: &String)
        ensures
            final(self).env == old(self).env,
            final(self).st() == b_items(old(self).em(), old(self).st(), items@, prefix@, 0),
        decreases items,
    {
        proof {
            lemma_vec_index_decreases(*items);
        }
        let mut i: usize = 0;
        while i < items.len()
            invariant
                i <= items.len(),
                self.env == old(self).env,
                forall|j: int| 0 <= j < items.len() ==> decreases_to!(*items => items@[j]),
                b_items(self.em(), self.st(), items@, prefix@, i as int) == b_items(
                    old(self).em(),
                    old(self).st(),
                    items@,
                    prefix@,
                    0,
                ),
            decreases items.len() - i,
        {
            match &items[i] {
                Item::Fn(f) => self.check_fn(f, None),
                Item::Impl(imp) => {
                    let ty_name = cat(prefix.as_str(), imp.ty_name.as_str());
                    self.check_methods(&imp.methods, &ty_name);
                },
                Item::Mod { name, items: sub, .. } => {
                    let p = cat3(prefix.as_str(), name.as_str(), "_");
                    self.check_items(sub, &p);
                },
                _ => {},
            }
            i += 1;
        }
    }

    /// Phase 2 on a whole file.
    pub fn check_file(&mut self, file: &File)
        ensures
            final(self).env == old(self).env,
            final(self).st() == b_check_file(old(self).em(), old(self).st(), *file),
    {
        let root = String::new();
        proof {
            assert(root@ == Seq::<char>::empty());
        }
        self.check_items(&file.items, &root);
    }
}

/// Marks moved, in `scope`, each bound variable that `entries` (the entries of a
/// branch's scope, with their moved flags) records as moved.
fn propagate_moves(scope: &mut Scope, entries: &Vec<(String, bool)>, Ghost(model): Ghost<FrameM>)
    requires
        entries@.len() == model.len(),
        forall|i: int| 0 <= i < entries@.len() ==> (#[trigger] entries@[i]).0@ == model[i].0
            && entries@[i].1 == model[i].1.moved,
    ensures
        final(scope)@.len() == old(scope)@.len(),
        final(scope)@ == b_propagate(old(scope)@, model, 0),
{
    let mut i: usize = 0;
    while i < entries.len()
        invariant
            i <= entries.len(),
            entries@.len() == model.len(),
            forall|j: int| 0 <= j < entries@.len() ==> (#[trigger] entries@[j]).0@ == model[j].0
                && entries@[j].1 == model[j].1.moved,
            scope@.len() == old(scope)@.len(),
            b_propagate(scope@, model, i as int) == b_propagate(old(scope)@, model, 0),
        decreases entries.len() - i,
    {
        let moved = entries[i].1;
        if moved {
            let bound = scope.lookup(entries[i].0.as_str()).is_some();
            if bound {
                scope.set_moved(entries[i].0.as_str());
            }
        }
        i += 1;
    }
}

} // verus!
