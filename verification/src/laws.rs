//! Properties of the front end that hold for all inputs.
use crate::ast::TyM;
use crate::lexer::{
    Class, LexSt, TokenM, adv, byte_at, char_escape, char_lit, class_drops, class_ok, float_rest, float_suffix,
    is_alpha, is_digit, is_hex, is_ws, lemma_lex_kind, lemma_next_tok, lemma_skip_ws, lex_kind, next_tok, peek_is,
    scan, skip_ws, spec_tokenize, start_st, str_body, str_escape, tokens_from, unicode_body,
};
use crate::ast::{BinOp, Block, Expr, ExprKind, File, FnDecl, ImplBlock, Item, resolve_self_m, resolve_self_seq, MatchArm, Pat, PatBindings, Receiver, Stmt, StmtKind};
use crate::error::ErrM;
use crate::loc::Loc;
use crate::parser::parsable;
use crate::type_checker::{EnvM, TyEnv, mark_mod, resolve_m, param_tys_m, s_collect_item, s_impl_methods, spec_check, spec_env_of, type_errors};
use crate::type_checker::borrow::{
    BcSt, b_args, b_arm_bodies, b_block, b_collect, b_collect_list, b_err, b_expr, b_fields, b_fn,
    b_fn_scope, b_if, b_if_let, b_items, b_let, b_list, b_lvalue, b_match_arms, b_methods,
    b_opt, b_params, b_pat_binds, b_stmt, b_stmt_borrows, b_stmts, b_tuple, immutable_var, b_at,
};
use crate::type_checker::scope::{ScopeM, fresh_var, insert_m, lookup_m};
use crate::type_checker::tc_spec::{TcSt, q, s_binop, s_check_file, s_cond, s_infer};
use crate::lexer::{TokM, punct_m};
use crate::parser::grammar::op_at;
use crate::codegen::c_op;
use crate::type_checker::types::is_ref_m;
use crate::type_checker::types::compat_m;
use vstd::prelude::*;

verus! {

/// Whether `ts` is a well-formed token stream: it ends with `Eof`, and `Eof` occurs
/// nowhere else.
pub open spec fn ends_with_eof(ts: Seq<TokenM>) -> bool {
    &&& ts.len() > 0
    &&& ts.last().kind is Eof
    &&& forall|i: int| 0 <= i < ts.len() - 1 ==> !(#[trigger] ts[i].kind is Eof)
}

proof fn lemma_tokens_from(src: Seq<u8>, st: LexSt, acc: Seq<TokenM>)
    requires
        forall|i: int| 0 <= i < acc.len() ==> !(#[trigger] acc[i].kind is Eof),
    ensures
        tokens_from(src, st, acc) matches Ok(ts) ==> ends_with_eof(ts) && acc.is_prefix_of(ts),
    decreases src.len() - st.pos,
{
    match next_tok(src, st) {
        Err(_) => {},
        Ok((t, st1)) => {
            if !(t.kind is Eof) {
                lemma_next_tok(src, st);
                let acc1 = acc.push(t);
                assert forall|i: int| 0 <= i < acc1.len() implies !(#[trigger] acc1[i].kind is Eof) by {
                    if i < acc.len() {
                        assert(acc1[i] == acc[i]);
                    }
                }
                lemma_tokens_from(src, st1, acc1);
                if let Ok(ts) = tokens_from(src, st1, acc1) {
                    assert forall|i: int| 0 <= i < acc.len() implies acc[i] == ts[i] by {
                        assert(acc1[i] == acc[i]);
                    }
                }
            } else {
                let ts = acc.push(t);
                assert forall|i: int| 0 <= i < ts.len() - 1 implies !(#[trigger] ts[i].kind is Eof) by {
                    assert(ts[i] == acc[i]);
                }
                assert forall|i: int| 0 <= i < acc.len() implies acc[i] == ts[i] by {}
            }
        },
    }
}

/// Lexing a source text either fails or gives a token stream that ends with `Eof`, with
/// no `Eof` before it.
pub proof fn law_tokens_end_with_eof(src: Seq<u8>)
    ensures
        spec_tokenize(src) matches Ok(ts) ==> ends_with_eof(ts),
{
    lemma_tokens_from(src, start_st(), Seq::empty());
}

/// Whatever the lexer produces, the parser can be handed: the token sequence ends with
/// `Eof`.
pub proof fn law_lexer_output_parsable(src: Seq<u8>)
    ensures
        spec_tokenize(src) matches Ok(ts) ==> parsable(ts),
{
    law_tokens_end_with_eof(src);
}

/// Every type is compatible with itself.
pub proof fn law_compat_reflexive(t: TyM)
    ensures
        compat_m(t, t),
{
}

/// A diverging expression (of type `!`) is acceptable wherever any type is expected.
pub proof fn law_never_compat(t: TyM)
    ensures
        compat_m(TyM::Never, t),
{
}

// ---------------------------------------------------------------------------
// What the borrow checker reports
// ---------------------------------------------------------------------------

/// A diagnostic of the kinds the borrow checker reports: a use of a moved value, an
/// assignment to an immutable variable, `&mut` of an immutable binding, or a
/// conflicting borrow.
pub open spec fn borrow_diag(m: Seq<char>) -> bool {
    ||| "use of moved value "@.is_prefix_of(m)
    ||| "cannot assign to immutable variable "@.is_prefix_of(m)
    ||| "cannot take `&mut` of immutable binding "@.is_prefix_of(m)
    ||| "cannot borrow "@.is_prefix_of(m)
}

pub open spec fn borrow_diags(errs: Seq<ErrM>) -> bool {
    forall|i: int| 0 <= i < errs.len() ==> borrow_diag(#[trigger] errs[i].message)
}


proof fn lemma_prefix(a: Seq<char>, b: Seq<char>, c: Seq<char>)
    ensures
        a.is_prefix_of(a + b),
        a.is_prefix_of(a + b + c),
{
    assert((a + b).subrange(0, a.len() as int) =~= a);
    assert((a + b + c).subrange(0, a.len() as int) =~= a);
}

proof fn lemma_err(st: BcSt, msg: Seq<char>)
    requires
        borrow_diags(st.errs),
        borrow_diag(msg),
    ensures
        borrow_diags(b_err(st, msg).errs),
{
    let errs = b_err(st, msg).errs;
    assert forall|i: int| 0 <= i < errs.len() implies borrow_diag(#[trigger] errs[i].message) by {
        if i < st.errs.len() {
            assert(errs[i] == st.errs[i]);
        }
    }
}

proof fn lemma_b_collect(st: BcSt, sh: Set<Seq<char>>, mu: Set<Seq<char>>, x: Expr)
    requires
        borrow_diags(st.errs),
    ensures
        borrow_diags(b_collect(st, sh, mu, x).0.errs),
    decreases x, 0int,
{
    let st0 = b_at(st, x.loc);
    match x.kind {
        ExprKind::AddrOf { mutable, expr: inner } => {
            match inner.kind {
                ExprKind::Var(name) => {
                    let n = name@;
                    reveal_strlit("cannot borrow ");
                    lemma_prefix("cannot borrow "@, q(n), " as immutable: also borrowed as mutable"@);
                    lemma_prefix("cannot borrow "@, q(n), " as mutable: also borrowed as immutable"@);
                    lemma_prefix("cannot borrow "@, q(n), " as mutable more than once"@);
                    if !mutable {
                        if mu.contains(n) {
                            lemma_err(
                                st0,
                                "cannot borrow "@ + q(n) + " as immutable: also borrowed as mutable"@,
                            );
                        }
                    } else if sh.contains(n) {
                        lemma_err(
                            st0,
                            "cannot borrow "@ + q(n) + " as mutable: also borrowed as immutable"@,
                        );
                    } else if mu.contains(n) {
                        lemma_err(st0, "cannot borrow "@ + q(n) + " as mutable more than once"@);
                    }
                    let (st1, sh1, mu1) = if !mutable {
                        let st1 = if mu.contains(n) {
                            b_err(
                                st0,
                                "cannot borrow "@ + q(n) + " as immutable: also borrowed as mutable"@,
                            )
                        } else {
                            st0
                        };
                        (st1, sh.insert(n), mu)
                    } else {
                        let st1 = if sh.contains(n) {
                            b_err(
                                st0,
                                "cannot borrow "@ + q(n) + " as mutable: also borrowed as immutable"@,
                            )
                        } else if mu.contains(n) {
                            b_err(st0, "cannot borrow "@ + q(n) + " as mutable more than once"@)
                        } else {
                            st0
                        };
                        (st1, sh, mu.insert(n))
                    };
                    lemma_b_collect(st1, sh1, mu1, *inner);
                },
                _ => {
                    lemma_b_collect(st0, sh, mu, *inner);
                },
            }
        },
        ExprKind::BinOp { lhs, rhs, .. } => {
            lemma_b_collect(st0, sh, mu, *lhs);
            let (st1, sh1, mu1) = b_collect(st0, sh, mu, *lhs);
            lemma_b_collect(st1, sh1, mu1, *rhs);
        },
        ExprKind::UnOp { operand, .. } => lemma_b_collect(st0, sh, mu, *operand),
        ExprKind::Call { args, .. } => lemma_b_collect_list(st0, sh, mu, args@, 0),
        ExprKind::AssocCall { args, .. } => lemma_b_collect_list(st0, sh, mu, args@, 0),
        ExprKind::MethodCall { expr, args, .. } => {
            lemma_b_collect(st0, sh, mu, *expr);
            let (st1, sh1, mu1) = b_collect(st0, sh, mu, *expr);
            lemma_b_collect_list(st1, sh1, mu1, args@, 0);
        },
        ExprKind::Tuple(elems) => lemma_b_collect_list(st0, sh, mu, elems@, 0),
        ExprKind::ArrayLit(elems) => lemma_b_collect_list(st0, sh, mu, elems@, 0),
        ExprKind::Field { expr, .. } => lemma_b_collect(st0, sh, mu, *expr),
        ExprKind::Deref(expr) => lemma_b_collect(st0, sh, mu, *expr),
        ExprKind::Cast { expr, .. } => lemma_b_collect(st0, sh, mu, *expr),
        ExprKind::Index { expr, index } => {
            lemma_b_collect(st0, sh, mu, *expr);
            let (st1, sh1, mu1) = b_collect(st0, sh, mu, *expr);
            lemma_b_collect(st1, sh1, mu1, *index);
        },
        ExprKind::Range { start, end } => {
            let (st1, sh1, mu1) = match start {
                Some(s) => {
                    lemma_b_collect(st0, sh, mu, *s);
                    b_collect(st0, sh, mu, *s)
                },
                None => (st0, sh, mu),
            };
            match end {
                Some(en) => lemma_b_collect(st1, sh1, mu1, *en),
                None => {},
            }
        },
        _ => {},
    }
}

proof fn lemma_b_collect_list(st: BcSt, sh: Set<Seq<char>>, mu: Set<Seq<char>>, es: Seq<Expr>, i: int)
    requires
        borrow_diags(st.errs),
    ensures
        borrow_diags(b_collect_list(st, sh, mu, es, i).0.errs),
    decreases es, es.len() - i,
{
    if 0 <= i < es.len() {
        lemma_b_collect(st, sh, mu, es[i]);
        let (st1, sh1, mu1) = b_collect(st, sh, mu, es[i]);
        lemma_b_collect_list(st1, sh1, mu1, es, i + 1);
    }
}

proof fn lemma_b_lvalue(st: BcSt, sc: ScopeM, x: Expr)
    requires
        borrow_diags(st.errs),
    ensures
        borrow_diags(b_lvalue(st, sc, x).errs),
    decreases x,
{
    let st0 = b_at(st, x.loc);
    match x.kind {
        ExprKind::Var(name) => {
            reveal_strlit("cannot assign to immutable variable ");
            lemma_prefix("cannot assign to immutable variable "@, q(name@), Seq::empty());
            if immutable_var(sc, x) {
                lemma_err(st0, "cannot assign to immutable variable "@ + q(name@));
            }
        },
        ExprKind::Index { expr, .. } => lemma_b_lvalue(st0, sc, *expr),
        _ => {},
    }
}

proof fn lemma_b_stmt_borrows(st: BcSt, s: Stmt)
    requires
        borrow_diags(st.errs),
    ensures
        borrow_diags(b_stmt_borrows(st, s).errs),
{
    match s.kind {
        StmtKind::Let { expr, .. } => lemma_b_collect(st, Set::empty(), Set::empty(), expr),
        StmtKind::Expr(x) => lemma_b_collect(st, Set::empty(), Set::empty(), x),
        StmtKind::Return(Some(x)) => lemma_b_collect(st, Set::empty(), Set::empty(), x),
        _ => {},
    }
}

proof fn lemma_b_expr(e: EnvM, st: BcSt, sc: ScopeM, x: Expr, by_ref: bool)
    requires
        borrow_diags(st.errs),
    ensures
        borrow_diags(b_expr(e, st, sc, x, by_ref).0.errs),
    decreases x, 0int,
{
    let st0 = b_at(st, x.loc);
    match x.kind {
        ExprKind::Var(name) => {
            reveal_strlit("use of moved value ");
            lemma_prefix("use of moved value "@, q(name@), Seq::empty());
            match lookup_m(sc, name@) {
                Some(bv) => if bv.moved {
                    lemma_err(st0, "use of moved value "@ + q(name@));
                },
                None => {},
            }
        },
        ExprKind::Call { name, args } => lemma_b_args(e, st0, sc, args@, b_params(e, name@), 0),
        ExprKind::AssocCall { ty_name, method, args } => lemma_b_args(
            e,
            st0,
            sc,
            args@,
            b_params(e, ty_name@ + "_"@ + method@),
            0,
        ),
        ExprKind::MethodCall { expr, args, .. } => {
            lemma_b_expr(e, st0, sc, *expr, true);
            let (st1, sc1) = b_expr(e, st0, sc, *expr, true);
            lemma_b_list(e, st1, sc1, args@, false, 0);
        },
        ExprKind::AddrOf { mutable, expr } => {
            let st1 = if mutable && immutable_var(sc, *expr) {
                reveal_strlit("cannot take `&mut` of immutable binding ");
                lemma_prefix(
                    "cannot take `&mut` of immutable binding "@,
                    q(expr.kind->Var_0@),
                    Seq::empty(),
                );
                lemma_err(st0, "cannot take `&mut` of immutable binding "@ + q(expr.kind->Var_0@));
                b_err(st0, "cannot take `&mut` of immutable binding "@ + q(expr.kind->Var_0@))
            } else {
                st0
            };
            lemma_b_expr(e, st1, sc, *expr, true);
        },
        ExprKind::Tuple(elems) => lemma_b_tuple(e, st0, sc, elems@, Set::empty(), Set::empty(), 0),
        ExprKind::BinOp { lhs, rhs, .. } => {
            lemma_b_expr(e, st0, sc, *lhs, false);
            let (st1, sc1) = b_expr(e, st0, sc, *lhs, false);
            lemma_b_expr(e, st1, sc1, *rhs, false);
        },
        ExprKind::UnOp { operand, .. } => lemma_b_expr(e, st0, sc, *operand, false),
        ExprKind::Deref(inner) => lemma_b_expr(e, st0, sc, *inner, true),
        ExprKind::Field { expr, .. } => lemma_b_expr(e, st0, sc, *expr, true),
        ExprKind::Index { expr, index } => {
            lemma_b_expr(e, st0, sc, *expr, true);
            let (st1, sc1) = b_expr(e, st0, sc, *expr, true);
            lemma_b_expr(e, st1, sc1, *index, false);
        },
        ExprKind::Range { start, end } => {
            lemma_b_opt(e, st0, sc, start);
            let (st1, sc1) = b_opt(e, st0, sc, start);
            lemma_b_opt(e, st1, sc1, end);
        },
        ExprKind::Cast { expr, .. } => lemma_b_expr(e, st0, sc, *expr, false),
        ExprKind::StructLit { fields, .. } => lemma_b_fields(e, st0, sc, fields@, 0),
        ExprKind::EnumStructLit { fields, .. } => lemma_b_fields(e, st0, sc, fields@, 0),
        ExprKind::ArrayLit(elems) => lemma_b_list(e, st0, sc, elems@, false, 0),
        ExprKind::Unsafe(block) => lemma_b_stmts(e, st0, sc, block.stmts@, 0),
        ExprKind::Block(block) => lemma_b_stmts(e, st0, sc, block.stmts@, 0),
        ExprKind::If { cond, then_block, else_block } => {
            lemma_b_expr(e, st0, sc, *cond, false);
            let (st1, sc1) = b_expr(e, st0, sc, *cond, false);
            lemma_b_stmts(e, st1, sc1, then_block.stmts@, 0);
            let (st2, sc2) = b_stmts(e, st1, sc1, then_block.stmts@, 0);
            match else_block {
                Some(b) => lemma_b_stmts(e, st2, sc2, b.stmts@, 0),
                None => {},
            }
        },
        ExprKind::Match { arms, .. } => lemma_b_arm_bodies(e, st0, sc, arms@, 0),
        ExprKind::Loop { body, .. } => lemma_b_stmts(e, st0, sc, body.stmts@, 0),
        _ => {},
    }
}

proof fn lemma_b_opt(e: EnvM, st: BcSt, sc: ScopeM, x: Option<Box<Expr>>)
    requires
        borrow_diags(st.errs),
    ensures
        borrow_diags(b_opt(e, st, sc, x).0.errs),
    decreases x, 0int,
{
    match x {
        Some(b) => lemma_b_expr(e, st, sc, *b, false),
        None => {},
    }
}

proof fn lemma_b_list(e: EnvM, st: BcSt, sc: ScopeM, es: Seq<Expr>, by_ref: bool, i: int)
    requires
        borrow_diags(st.errs),
    ensures
        borrow_diags(b_list(e, st, sc, es, by_ref, i).0.errs),
    decreases es, es.len() - i,
{
    if 0 <= i < es.len() {
        lemma_b_expr(e, st, sc, es[i], by_ref);
        let (st1, sc1) = b_expr(e, st, sc, es[i], by_ref);
        lemma_b_list(e, st1, sc1, es, by_ref, i + 1);
    }
}

proof fn lemma_b_args(e: EnvM, st: BcSt, sc: ScopeM, args: Seq<Expr>, ps: Seq<TyM>, i: int)
    requires
        borrow_diags(st.errs),
    ensures
        borrow_diags(b_args(e, st, sc, args, ps, i).0.errs),
    decreases args, args.len() - i,
{
    if 0 <= i < args.len() {
        let by_ref = i < ps.len() && is_ref_m(ps[i]);
        lemma_b_expr(e, st, sc, args[i], by_ref);
        let (st1, sc1) = b_expr(e, st, sc, args[i], by_ref);
        lemma_b_args(e, st1, sc1, args, ps, i + 1);
    }
}

proof fn lemma_b_fields(e: EnvM, st: BcSt, sc: ScopeM, fs: Seq<(String, Expr)>, i: int)
    requires
        borrow_diags(st.errs),
    ensures
        borrow_diags(b_fields(e, st, sc, fs, i).0.errs),
    decreases fs, fs.len() - i,
{
    if 0 <= i < fs.len() {
        lemma_b_expr(e, st, sc, fs[i].1, false);
        let (st1, sc1) = b_expr(e, st, sc, fs[i].1, false);
        lemma_b_fields(e, st1, sc1, fs, i + 1);
    }
}

proof fn lemma_b_tuple(
    e: EnvM,
    st: BcSt,
    sc: ScopeM,
    es: Seq<Expr>,
    sh: Set<Seq<char>>,
    mu: Set<Seq<char>>,
    i: int,
)
    requires
        borrow_diags(st.errs),
    ensures
        borrow_diags(b_tuple(e, st, sc, es, sh, mu, i).0.errs),
    decreases es, es.len() - i,
{
    if 0 <= i < es.len() {
        lemma_b_collect(st, sh, mu, es[i]);
        let (st1, sh1, mu1) = b_collect(st, sh, mu, es[i]);
        lemma_b_expr(e, st1, sc, es[i], false);
        let (st2, sc2) = b_expr(e, st1, sc, es[i], false);
        lemma_b_tuple(e, st2, sc2, es, sh1, mu1, i + 1);
    }
}

proof fn lemma_b_arm_bodies(e: EnvM, st: BcSt, sc: ScopeM, arms: Seq<MatchArm>, i: int)
    requires
        borrow_diags(st.errs),
    ensures
        borrow_diags(b_arm_bodies(e, st, sc, arms, i).0.errs),
    decreases arms, arms.len() - i,
{
    if 0 <= i < arms.len() {
        lemma_b_stmts(e, st, sc, arms[i].body.stmts@, 0);
        let (st1, sc1) = b_stmts(e, st, sc, arms[i].body.stmts@, 0);
        lemma_b_arm_bodies(e, st1, sc1, arms, i + 1);
    }
}

proof fn lemma_b_stmts(e: EnvM, st: BcSt, sc: ScopeM, ss: Seq<Stmt>, i: int)
    requires
        borrow_diags(st.errs),
    ensures
        borrow_diags(b_stmts(e, st, sc, ss, i).0.errs),
    decreases ss, ss.len() - i,
{
    if 0 <= i < ss.len() {
        lemma_b_stmt_borrows(st, ss[i]);
        lemma_b_stmt(e, b_stmt_borrows(st, ss[i]), sc, ss[i]);
        let (st1, sc1) = b_stmt(e, b_stmt_borrows(st, ss[i]), sc, ss[i]);
        lemma_b_stmts(e, st1, sc1, ss, i + 1);
    }
}

proof fn lemma_b_block(e: EnvM, st: BcSt, sc: ScopeM, b: Block)
    requires
        borrow_diags(st.errs),
    ensures
        borrow_diags(b_block(e, st, sc, b).0.errs),
    decreases b, 0int,
{
    lemma_b_stmts(e, st, sc.push(Seq::empty()), b.stmts@, 0);
}


proof fn lemma_b_stmt(e: EnvM, st: BcSt, sc: ScopeM, s: Stmt)
    requires
        borrow_diags(st.errs),
    ensures
        borrow_diags(b_stmt(e, st, sc, s).0.errs),
    decreases s, 0int,
{
    let st0 = b_at(st, s.loc);
    match s.kind {
        StmtKind::Let { .. } => lemma_b_let(e, st0, sc, s.kind),
        StmtKind::Assign { name, expr } => {
            lemma_b_expr(e, st0, sc, expr, false);
            let (st1, sc1) = b_expr(e, st0, sc, expr, false);
            reveal_strlit("cannot assign to immutable variable ");
            lemma_prefix("cannot assign to immutable variable "@, q(name@), Seq::empty());
            match lookup_m(sc1, name@) {
                Some(bv) => if !bv.mutable {
                    lemma_err(st1, "cannot assign to immutable variable "@ + q(name@));
                },
                None => {},
            }
        },
        StmtKind::Return(Some(x)) => lemma_b_expr(e, st0, sc, x, false),
        StmtKind::Return(None) => {},
        StmtKind::If { .. } => lemma_b_if(e, st0, sc, s.kind),
        StmtKind::While { cond, body } => {
            lemma_b_expr(e, st0, sc, cond, true);
            let (st1, sc1) = b_expr(e, st0, sc, cond, true);
            lemma_b_block(e, st1, sc1, body);
        },
        StmtKind::Loop(body) => lemma_b_block(e, st0, sc, body),
        StmtKind::For { var, body, .. } => {
            lemma_b_block(e, st0, insert_m(sc, var@, fresh_var(TyM::Unit, false)), body);
        },
        StmtKind::Break(Some(v)) => lemma_b_expr(e, st0, sc, v, false),
        StmtKind::Break(None) => {},
        StmtKind::Continue => {},
        StmtKind::CompoundAssign { lhs, rhs, .. } => {
            lemma_b_expr(e, st0, sc, rhs, false);
            let (st1, sc1) = b_expr(e, st0, sc, rhs, false);
            lemma_b_lvalue(st1, sc1, lhs);
        },
        StmtKind::IfLet { .. } => lemma_b_if_let(e, st0, sc, s.kind),
        StmtKind::WhileLet { pat, expr, body, .. } => {
            lemma_b_expr(e, st0, sc, expr, false);
            let (st1, sc1) = b_expr(e, st0, sc, expr, false);
            lemma_b_block(e, st1, b_pat_binds(sc1, pat), body);
        },
        StmtKind::Match { arms, .. } => lemma_b_match_arms(e, st0, sc, arms@, 0),
        StmtKind::Println { args, .. } => lemma_b_list(e, st0, sc, args@, true, 0),
        StmtKind::Expr(x) => match x.kind {
            ExprKind::BinOp { op: BinOp::Eq, lhs, rhs } => {
                lemma_b_expr(e, st0, sc, *rhs, false);
                let (st1, sc1) = b_expr(e, st0, sc, *rhs, false);
                lemma_b_lvalue(st1, sc1, *lhs);
            },
            _ => lemma_b_expr(e, st0, sc, x, false),
        },
        StmtKind::LetPat { expr, else_block, .. } => {
            lemma_b_expr(e, st0, sc, expr, false);
            let (st1, sc1) = b_expr(e, st0, sc, expr, false);
            match else_block {
                Some(b) => lemma_b_block(e, st1, sc1, b),
                None => {},
            }
        },
    }
}

proof fn lemma_b_let(e: EnvM, st: BcSt, sc: ScopeM, k: StmtKind)
    requires
        borrow_diags(st.errs),
    ensures
        borrow_diags(b_let(e, st, sc, k).0.errs),
    decreases k, 0int,
{
    match k {
        StmtKind::Let { name, mutable, ty, expr } => {
            let st1 = match expr.kind {
                ExprKind::Var(src) => {
                    reveal_strlit("use of moved value ");
                    lemma_prefix("use of moved value "@, q(src@), Seq::empty());
                    match lookup_m(sc, src@) {
                        Some(sv) => if sv.moved {
                            lemma_err(st, "use of moved value "@ + q(src@));
                            b_err(st, "use of moved value "@ + q(src@))
                        } else {
                            st
                        },
                        None => st,
                    }
                },
                _ => st,
            };
            lemma_b_expr(e, st1, sc, expr, false);
        },
        _ => {},
    }
}


proof fn lemma_b_if(e: EnvM, st: BcSt, sc: ScopeM, k: StmtKind)
    requires
        borrow_diags(st.errs),
    ensures
        borrow_diags(b_if(e, st, sc, k).0.errs),
    decreases k, 0int,
{
    match k {
        StmtKind::If { cond, then_block, else_block } => {
            lemma_b_expr(e, st, sc, cond, true);
            let (st1, sc1) = b_expr(e, st, sc, cond, true);
            lemma_b_block(e, st1, sc1, then_block);
            let (st2, then_sc) = b_block(e, st1, sc1, then_block);
            let (st3, else_sc) = match else_block {
                Some(b) => {
                    lemma_b_block(e, st2, sc1, b);
                    b_block(e, st2, sc1, b)
                },
                None => (st2, sc1),
            };
        },
        _ => {},
    }
}

proof fn lemma_b_if_let(e: EnvM, st: BcSt, sc: ScopeM, k: StmtKind)
    requires
        borrow_diags(st.errs),
    ensures
        borrow_diags(b_if_let(e, st, sc, k).0.errs),
    decreases k, 0int,
{
    match k {
        StmtKind::IfLet { pat, expr, then_block, else_block, .. } => {
            lemma_b_expr(e, st, sc, expr, false);
            let (st1, sc1) = b_expr(e, st, sc, expr, false);
            lemma_b_block(e, st1, b_pat_binds(sc1, pat), then_block);
            let (st2, _) = b_block(e, st1, b_pat_binds(sc1, pat), then_block);
            match else_block {
                Some(eb) => lemma_b_block(e, st2, sc1, eb),
                None => {},
            }
        },
        _ => {},
    }
}

proof fn lemma_b_match_arms(e: EnvM, st: BcSt, sc: ScopeM, arms: Seq<MatchArm>, i: int)
    requires
        borrow_diags(st.errs),
    ensures
        borrow_diags(b_match_arms(e, st, sc, arms, i).errs),
    decreases arms, arms.len() - i,
{
    if 0 <= i < arms.len() {
        lemma_b_stmts(e, st, b_pat_binds(sc, arms[i].pat), arms[i].body.stmts@, 0);
        let (st1, _) = b_stmts(e, st, b_pat_binds(sc, arms[i].pat), arms[i].body.stmts@, 0);
        lemma_b_match_arms(e, st1, sc, arms, i + 1);
    }
}

proof fn lemma_b_fn(e: EnvM, st: BcSt, f: FnDecl, impl_type: Option<Seq<char>>)
    requires
        borrow_diags(st.errs),
    ensures
        borrow_diags(b_fn(e, st, f, impl_type).errs),
{
    lemma_b_stmts(e, st, b_fn_scope(f, impl_type), f.body.stmts@, 0);
}


proof fn lemma_b_methods(e: EnvM, st: BcSt, ms: Seq<FnDecl>, itype: Seq<char>, i: int)
    requires
        borrow_diags(st.errs),
    ensures
        borrow_diags(b_methods(e, st, ms, itype, i).errs),
    decreases ms.len() - i,
{
    if 0 <= i < ms.len() {
        lemma_b_fn(e, st, ms[i], Some(itype));
        lemma_b_methods(e, b_fn(e, st, ms[i], Some(itype)), ms, itype, i + 1);
    }
}

proof fn lemma_b_items(e: EnvM, st: BcSt, items: Seq<Item>, prefix: Seq<char>, i: int)
    requires
        borrow_diags(st.errs),
    ensures
        borrow_diags(b_items(e, st, items, prefix, i).errs),
    decreases items, items.len() - i,
{
    if 0 <= i < items.len() {
        let st1 = match items[i] {
            Item::Fn(f) => {
                lemma_b_fn(e, st, f, None);
                b_fn(e, st, f, None)
            },
            Item::Impl(imp) => {
                lemma_b_methods(e, st, imp.methods@, prefix + imp.ty_name@, 0);
                b_methods(e, st, imp.methods@, prefix + imp.ty_name@, 0)
            },
            Item::Mod { name, items: sub, .. } => {
                lemma_b_items(e, st, sub@, prefix + name@ + "_"@, 0);
                b_items(e, st, sub@, prefix + name@ + "_"@, 0)
            },
            _ => st,
        };
        lemma_b_items(e, st1, items, prefix, i + 1);
    }
}

/// The borrow checker runs only on a file that type-checks: when type checking reports
/// anything, that is all that is reported.
pub proof fn law_type_errors_stop_the_borrow_check(f: File, f2: File)
    ensures
        type_errors(f).len() > 0 ==> spec_check(f, f2) == type_errors(f),
{
}

/// What the borrow checker reports is only uses of moved values, assignments to
/// immutable variables, `&mut` of immutable bindings, and conflicting borrows within a
/// statement. (`f2` is the file as type checking leaves it, which the borrow checker
/// reads.)
pub proof fn law_borrow_diagnostics(f: File, f2: File)
    ensures
        type_errors(f).len() == 0 ==> borrow_diags(spec_check(f, f2)),
{
    let st = BcSt { errs: Seq::empty(), loc: Loc { line: 0, col: 0 } };
    lemma_b_items(spec_env_of(f), st, f2.items@, Seq::empty(), 0);
}

// ---------------------------------------------------------------------------
// Collecting the methods of impl blocks
// ---------------------------------------------------------------------------

/// The name a method `m` of type `ty` is registered under.
pub open spec fn method_key(ty: Seq<char>, m: FnDecl) -> Seq<char> {
    ty + "_"@ + m.name@
}

/// Registering methods none of which is named `k` leaves the entry for `k` as it was.
proof fn lemma_methods_untouched(
    e: EnvM,
    ty: Seq<char>,
    prefix: Seq<char>,
    has_trait: bool,
    ms: Seq<FnDecl>,
    i: int,
    k: Seq<char>,
)
    requires
        forall|j: int| i <= j < ms.len() ==> method_key(ty, #[trigger] ms[j]) != k,
    ensures
        s_impl_methods(e, ty, prefix, has_trait, ms, i).fns.contains_key(k) == e.fns.contains_key(k),
        e.fns.contains_key(k) ==> s_impl_methods(e, ty, prefix, has_trait, ms, i).fns[k] == e.fns[k],
    decreases ms.len() - i,
{
    if 0 <= i < ms.len() {
        let m = ms[i];
        let mangled = ty + "_"@ + m.name@;
        assert(mangled == method_key(ty, ms[i]));
        let e1 = mark_mod(e, mangled, prefix, m.is_pub);
        let sig = (
            resolve_self_seq(param_tys_m(m.params@), ty),
            resolve_self_m(m.return_ty@, ty),
        );
        let e2 = if has_trait {
            if e1.fns.contains_key(mangled) {
                e1
            } else {
                EnvM { fns: e1.fns.insert(mangled, sig), ..e1 }
            }
        } else {
            EnvM { fns: e1.fns.insert(mangled, sig), ..e1 }
        };
        lemma_methods_untouched(e2, ty, prefix, has_trait, ms, i + 1, k);
    }
}

/// A trait impl never replaces a method that is already registered.
proof fn lemma_trait_methods_keep(
    e: EnvM,
    ty: Seq<char>,
    prefix: Seq<char>,
    ms: Seq<FnDecl>,
    i: int,
    k: Seq<char>,
)
    requires
        e.fns.contains_key(k),
    ensures
        s_impl_methods(e, ty, prefix, true, ms, i).fns.contains_key(k),
        s_impl_methods(e, ty, prefix, true, ms, i).fns[k] == e.fns[k],
    decreases ms.len() - i,
{
    if 0 <= i < ms.len() {
        let m = ms[i];
        let mangled = ty + "_"@ + m.name@;
        let e1 = mark_mod(e, mangled, prefix, m.is_pub);
        let sig = (
            resolve_self_seq(param_tys_m(m.params@), ty),
            resolve_self_m(m.return_ty@, ty),
        );
        let e2 = if e1.fns.contains_key(mangled) {
            e1
        } else {
            EnvM { fns: e1.fns.insert(mangled, sig), ..e1 }
        };
        lemma_trait_methods_keep(e2, ty, prefix, ms, i + 1, k);
    }
}

/// What an inherent impl registers under the name of one of its methods does not
/// depend on what was registered before.
proof fn lemma_inherent_methods_set(
    e: EnvM,
    f: EnvM,
    ty: Seq<char>,
    prefix: Seq<char>,
    ms: Seq<FnDecl>,
    i: int,
    k: Seq<char>,
)
    requires
        0 <= i,
        exists|j: int| i <= j < ms.len() && method_key(ty, #[trigger] ms[j]) == k,
    ensures
        s_impl_methods(e, ty, prefix, false, ms, i).fns.contains_key(k),
        s_impl_methods(f, ty, prefix, false, ms, i).fns.contains_key(k),
        s_impl_methods(e, ty, prefix, false, ms, i).fns[k] == s_impl_methods(
            f,
            ty,
            prefix,
            false,
            ms,
            i,
        ).fns[k],
    decreases ms.len() - i,
{
    let m = ms[i];
    let mangled = ty + "_"@ + m.name@;
    let sig = (resolve_self_seq(param_tys_m(m.params@), ty), resolve_self_m(m.return_ty@, ty));
    let e1 = mark_mod(e, mangled, prefix, m.is_pub);
    let f1 = mark_mod(f, mangled, prefix, m.is_pub);
    let e2 = EnvM { fns: e1.fns.insert(mangled, sig), ..e1 };
    let f2 = EnvM { fns: f1.fns.insert(mangled, sig), ..f1 };
    assert(s_impl_methods(e, ty, prefix, false, ms, i) == s_impl_methods(e2, ty, prefix, false, ms, i + 1));
    assert(s_impl_methods(f, ty, prefix, false, ms, i) == s_impl_methods(f2, ty, prefix, false, ms, i + 1));
    if exists|j: int| i + 1 <= j < ms.len() && method_key(ty, #[trigger] ms[j]) == k {
        lemma_inherent_methods_set(e2, f2, ty, prefix, ms, i + 1, k);
    } else {
        let j = choose|j: int| i <= j < ms.len() && method_key(ty, #[trigger] ms[j]) == k;
        assert(j == i);
        assert(mangled == k);
        lemma_methods_untouched(e2, ty, prefix, false, ms, i + 1, k);
        lemma_methods_untouched(f2, ty, prefix, false, ms, i + 1, k);
    }
}

/// Methods of an inherent `impl` take precedence over same-named methods of a trait
/// `impl` for the same type, whichever of the two blocks comes first.
pub proof fn law_inherent_impl_wins(e: EnvM, a: ImplBlock, b: ImplBlock, prefix: Seq<char>, j: int)
    requires
        a.trait_name is None,
        b.trait_name is Some,
        a.ty_name@ == b.ty_name@,
        0 <= j < a.methods@.len(),
    ensures
        ({
            let k = prefix + a.ty_name@ + "_"@ + a.methods@[j].name@;
            let ab = s_collect_item(s_collect_item(e, Item::Impl(a), prefix), Item::Impl(b), prefix);
            let ba = s_collect_item(s_collect_item(e, Item::Impl(b), prefix), Item::Impl(a), prefix);
            &&& ab.fns.contains_key(k)
            &&& ba.fns.contains_key(k)
            &&& ab.fns[k] == ba.fns[k]
        }),
{
    let ty = prefix + a.ty_name@;
    let k = ty + "_"@ + a.methods@[j].name@;
    assert(method_key(ty, a.methods@[j]) == k);
    let ea = s_impl_methods(e, ty, prefix, false, a.methods@, 0);
    let eb = s_impl_methods(e, ty, prefix, true, b.methods@, 0);
    lemma_inherent_methods_set(e, eb, ty, prefix, a.methods@, 0, k);
    lemma_trait_methods_keep(ea, ty, prefix, b.methods@, 0, k);
    assert(prefix + a.ty_name@ + "_"@ + a.methods@[j].name@ == k);
}

// ---------------------------------------------------------------------------
// Token positions
// ---------------------------------------------------------------------------

/// The lexer state at byte `p`: the start, moved past each byte before `p`.
pub open spec fn state_at(src: Seq<u8>, p: nat) -> LexSt
    decreases p,
{
    if p == 0 {
        start_st()
    } else {
        adv(src, state_at(src, (p - 1) as nat))
    }
}

/// Whether `st` is the state the lexer has at its position.
pub open spec fn on_track(src: Seq<u8>, st: LexSt) -> bool {
    st.pos <= src.len() && st == state_at(src, st.pos)
}

/// Whether position (`l1`, `c1`) comes before (`l2`, `c2`).
pub open spec fn before(l1: nat, c1: nat, l2: nat, c2: nat) -> bool {
    l1 < l2 || (l1 == l2 && c1 < c2)
}

/// Whether each token of `ts` starts before every later one.
pub open spec fn increasing(ts: Seq<TokenM>) -> bool {
    forall|i: int, j: int|
        0 <= i < j < ts.len() ==> before(
            #[trigger] ts[i].line,
            ts[i].col,
            #[trigger] ts[j].line,
            ts[j].col,
        )
}

proof fn lemma_state_at_pos(src: Seq<u8>, p: nat)
    requires
        p <= src.len(),
    ensures
        state_at(src, p).pos == p,
    decreases p,
{
    if p > 0 {
        lemma_state_at_pos(src, (p - 1) as nat);
    }
}

/// Later bytes have later positions.
proof fn lemma_state_at_before(src: Seq<u8>, p: nat, q: nat)
    requires
        p < q <= src.len(),
    ensures
        before(state_at(src, p).line, state_at(src, p).col, state_at(src, q).line, state_at(src, q).col),
    decreases q,
{
    lemma_state_at_pos(src, (q - 1) as nat);
    if p < q - 1 {
        lemma_state_at_before(src, p, (q - 1) as nat);
    }
}

proof fn lemma_adv_on_track(src: Seq<u8>, st: LexSt)
    requires
        on_track(src, st),
    ensures
        on_track(src, adv(src, st)),
{
}

proof fn lemma_skip_on_track(src: Seq<u8>, st: LexSt, in_comment: bool)
    requires
        on_track(src, st),
    ensures
        on_track(src, skip_ws(src, st, in_comment)),
    decreases src.len() - st.pos, if in_comment { 1int } else { 0int },
{
    if in_comment {
        if st.pos < src.len() && src[st.pos as int] != ('\n' as u8) {
            lemma_skip_on_track(src, adv(src, st), true);
        } else {
            lemma_skip_on_track(src, st, false);
        }
    } else if st.pos < src.len() && is_ws(src[st.pos as int]) {
        lemma_skip_on_track(src, adv(src, st), false);
    } else if byte_at(src, st.pos) == Some(('/' as u8)) && byte_at(src, st.pos + 1) == Some(
        ('/' as u8),
    ) {
        lemma_adv_on_track(src, st);
        lemma_adv_on_track(src, adv(src, st));
        lemma_skip_on_track(src, adv(src, adv(src, st)), true);
    }
}

proof fn lemma_scan_on_track(src: Seq<u8>, st: LexSt, acc: Seq<char>, k: Class)
    requires
        on_track(src, st),
    ensures
        on_track(src, scan(src, st, acc, k).1),
    decreases src.len() - st.pos,
{
    if let Some(c) = byte_at(src, st.pos) {
        if class_ok(k, c) {
            let acc1 = if class_drops(k, c) {
                acc
            } else {
                acc.push(c as char)
            };
            lemma_scan_on_track(src, adv(src, st), acc1, k);
        }
    }
}

proof fn lemma_str_body_on_track(src: Seq<u8>, st: LexSt, acc: Seq<char>)
    requires
        on_track(src, st),
    ensures
        str_body(src, st, acc) matches Ok((_, st1)) ==> on_track(src, st1),
    decreases src.len() - st.pos,
{
    if let Some(c) = byte_at(src, st.pos) {
        let st1 = adv(src, st);
        lemma_adv_on_track(src, st);
        lemma_adv_on_track(src, st1);
        if c == ('\\' as u8) {
            if let Some(d) = byte_at(src, st1.pos) {
                lemma_str_body_on_track(src, adv(src, st1), acc.push(str_escape(d)));
            }
        } else if c != ('"' as u8) {
            lemma_str_body_on_track(src, st1, acc.push(c as char));
        }
    }
}

proof fn lemma_unicode_body_on_track(src: Seq<u8>, st: LexSt, acc: Seq<char>)
    requires
        on_track(src, st),
    ensures
        unicode_body(src, st, acc) matches Ok((_, st1)) ==> on_track(src, st1),
    decreases src.len() - st.pos,
{
    if let Some(c) = byte_at(src, st.pos) {
        if c != ('}' as u8) && is_hex(c) {
            lemma_unicode_body_on_track(src, adv(src, st), acc.push(c as char));
        }
    }
}

proof fn lemma_char_escape_on_track(src: Seq<u8>, st: LexSt)
    requires
        on_track(src, st),
    ensures
        char_escape(src, st) matches Ok((_, st1)) ==> on_track(src, st1),
{
    let st1 = adv(src, st);
    lemma_adv_on_track(src, st);
    lemma_adv_on_track(src, st1);
    lemma_unicode_body_on_track(src, adv(src, st1), Seq::empty());
}

proof fn lemma_char_lit_on_track(src: Seq<u8>, st: LexSt)
    requires
        on_track(src, st),
    ensures
        char_lit(src, st) matches Ok((_, st1)) ==> on_track(src, st1),
{
    let st1 = adv(src, st);
    lemma_adv_on_track(src, st);
    lemma_adv_on_track(src, st1);
    let st2 = adv(src, st1);
    lemma_char_escape_on_track(src, st2);
    if let Some(c) = byte_at(src, st1.pos) {
        let body = if c == ('\\' as u8) {
            char_escape(src, st2)
        } else {
            Ok((c as u32, st2))
        };
        if let Ok((v, st3)) = body {
            lemma_adv_on_track(src, st3);
        }
    }
}

proof fn lemma_float_rest_on_track(src: Seq<u8>, st: LexSt, s: Seq<char>)
    requires
        on_track(src, st),
    ensures
        on_track(src, float_rest(src, st, s).1),
{
    lemma_adv_on_track(src, st);
    let st1 = if peek_is(src, st, ('.' as u8)) {
        lemma_scan_on_track(src, adv(src, st), s.push('.'), Class::DecUs);
        scan(src, adv(src, st), s.push('.'), Class::DecUs).1
    } else {
        st
    };
    if peek_is(src, st1, ('e' as u8)) || peek_is(src, st1, ('E' as u8)) {
        let s1 = if peek_is(src, st, ('.' as u8)) {
            scan(src, adv(src, st), s.push('.'), Class::DecUs).0
        } else {
            s
        };
        let st2 = adv(src, st1);
        lemma_adv_on_track(src, st1);
        lemma_adv_on_track(src, st2);
        let (s2, st3) = if peek_is(src, st2, ('+' as u8)) || peek_is(src, st2, ('-' as u8)) {
            (s1.push('e').push(src[st2.pos as int] as char), adv(src, st2))
        } else {
            (s1.push('e'), st2)
        };
        lemma_scan_on_track(src, st3, s2, Class::Dec);
    }
}

proof fn lemma_lex_kind_on_track(src: Seq<u8>, st: LexSt, c: u8)
    requires
        on_track(src, st),
        byte_at(src, st.pos) == Some(c),
    ensures
        lex_kind(src, st, c) matches Ok((_, st1)) ==> on_track(src, st1),
{
    lemma_adv_on_track(src, st);
    lemma_adv_on_track(src, adv(src, st));
    if c == ('"' as u8) {
        lemma_str_body_on_track(src, adv(src, st), Seq::empty());
    } else if c == ('\'' as u8) {
        lemma_char_lit_on_track(src, st);
    } else if is_digit(c) {
        let next = byte_at(src, st.pos + 1);
        if peek_is(src, st, ('0' as u8)) && (next == Some(('x' as u8)) || next == Some(('X' as u8))) {
            lemma_scan_on_track(src, adv(src, adv(src, st)), Seq::empty(), Class::HexUs);
        } else if peek_is(src, st, ('0' as u8)) && (next == Some(('b' as u8)) || next == Some(
            ('B' as u8),
        )) {
            lemma_scan_on_track(src, adv(src, adv(src, st)), Seq::empty(), Class::BinUs);
        } else {
            lemma_scan_on_track(src, st, Seq::empty(), Class::DecUs);
            let (s, st1) = scan(src, st, Seq::empty(), Class::DecUs);
            lemma_float_rest_on_track(src, st1, s);
            let st2 = float_rest(src, st1, s).1;
            lemma_adv_on_track(src, st2);
            lemma_adv_on_track(src, adv(src, st2));
            lemma_adv_on_track(src, adv(src, adv(src, st2)));
        }
    } else if is_alpha(c) || c == ('_' as u8) {
        lemma_scan_on_track(src, st, Seq::empty(), Class::Word);
    }
}

/// A token is read at the position where the lexer stands after whitespace, and leaves
/// the lexer on track.
proof fn lemma_next_tok_on_track(src: Seq<u8>, st: LexSt)
    requires
        on_track(src, st),
    ensures
        next_tok(src, st) matches Ok((t, st1)) ==> {
            let s = skip_ws(src, st, false);
            &&& on_track(src, s)
            &&& st.pos <= s.pos
            &&& t.line == s.line
            &&& t.col == s.col
            &&& (!(t.kind is Eof) ==> s.pos < st1.pos && on_track(src, st1))
        },
{
    lemma_skip_on_track(src, st, false);
    lemma_skip_ws(src, st, false);
    lemma_next_tok(src, st);
    let s = skip_ws(src, st, false);
    if let Some(c) = byte_at(src, s.pos) {
        lemma_lex_kind_on_track(src, s, c);
        lemma_lex_kind(src, s, c);
    }
}

proof fn lemma_tokens_from_increasing(src: Seq<u8>, st: LexSt, acc: Seq<TokenM>, last: nat)
    requires
        on_track(src, st),
        increasing(acc),
        acc.len() > 0 ==> last < st.pos && acc.last().line == state_at(src, last).line
            && acc.last().col == state_at(src, last).col,
    ensures
        tokens_from(src, st, acc) matches Ok(ts) ==> increasing(ts),
    decreases src.len() - st.pos,
{
    lemma_next_tok_on_track(src, st);
    match next_tok(src, st) {
        Err(_) => {},
        Ok((t, st1)) => {
            let s = skip_ws(src, st, false);
            let acc1 = acc.push(t);
            if acc.len() > 0 {
                lemma_state_at_before(src, last, s.pos);
            }
            assert forall|i: int, j: int| 0 <= i < j < acc1.len() implies before(
                #[trigger] acc1[i].line,
                acc1[i].col,
                #[trigger] acc1[j].line,
                acc1[j].col,
            ) by {
                if j < acc.len() {
                    assert(acc1[i] == acc[i] && acc1[j] == acc[j]);
                } else if i < acc.len() - 1 {
                    assert(acc1[i] == acc[i]);
                    assert(acc[acc.len() - 1] == acc.last());
                    assert(before(acc[i].line, acc[i].col, acc[acc.len() - 1].line, acc[acc.len() - 1].col));
                } else {
                    assert(acc1[i] == acc.last());
                }
            }
            if !(t.kind is Eof) {
                lemma_tokens_from_increasing(src, st1, acc1, s.pos);
            }
        },
    }
}

/// Each token a successful lexing produces starts before every later one: positions
/// (line, then column) strictly increase along the token sequence.
pub proof fn law_token_positions_increase(src: Seq<u8>)
    ensures
        spec_tokenize(src) matches Ok(ts) ==> increasing(ts),
{
    assert(on_track(src, start_st()));
    lemma_tokens_from_increasing(src, start_st(), Seq::empty(), 0);
}


/// `p` is a chain of aliases: distinct alias names, each naming the next.
pub open spec fn alias_chain(al: Map<Seq<char>, TyM>, p: Seq<Seq<char>>) -> bool {
    &&& forall|i: int, j: int| 0 <= i < j < p.len() ==> p[i] != p[j]
    &&& forall|i: int| 0 <= i < p.len() ==> al.contains_key(#[trigger] p[i])
    &&& forall|i: int| 0 <= i < p.len() - 1 ==> al[#[trigger] p[i]] == TyM::Named(p[i + 1])
}

/// Following a chain that closes into a cycle at `p[j]`, from `p[m]` with
/// `p[j..m]` already seen, ends at `p[j]`.
proof fn lemma_cycle_resolves(al: Map<Seq<char>, TyM>, p: Seq<Seq<char>>, j: int, m: int)
    requires
        al.dom().finite(),
        alias_chain(al, p),
        0 <= j <= m < p.len(),
        al[p.last()] == TyM::Named(p[j]),
    ensures
        resolve_m(al, TyM::Named(p[m]), p.subrange(j, m).to_set()) == TyM::Named(p[j]),
    decreases p.len() - m,
{
    let w = p.subrange(j, m).to_set();
    assert(!w.contains(p[m])) by {
        if w.contains(p[m]) {
            let k = choose|k: int| 0 <= k < m - j && #[trigger] p.subrange(j, m)[k] == p[m];
            assert(p[j + k] == p[m]);
        }
    }
    assert(al.contains_key(p[m]));
    assert(p.subrange(j, m + 1).to_set() =~= w.insert(p[m])) by {
        assert forall|x: Seq<char>| p.subrange(j, m + 1).to_set().contains(x) implies w.insert(p[m]).contains(x) by {
            let k = choose|k: int| 0 <= k < m + 1 - j && #[trigger] p.subrange(j, m + 1)[k] == x;
            if k < m - j {
                assert(p.subrange(j, m)[k] == x);
            }
        }
        assert forall|x: Seq<char>| w.insert(p[m]).contains(x) implies p.subrange(j, m + 1).to_set().contains(x) by {
            if x == p[m] {
                assert(p.subrange(j, m + 1)[m - j] == x);
            } else {
                let k = choose|k: int| 0 <= k < m - j && #[trigger] p.subrange(j, m)[k] == x;
                assert(p.subrange(j, m + 1)[k] == x);
            }
        }
    }
    assert(resolve_m(al, TyM::Named(p[m]), w) == resolve_m(
        al,
        al[p[m]],
        p.subrange(j, m + 1).to_set(),
    ));
    if m < p.len() - 1 {
        lemma_cycle_resolves(al, p, j, m + 1);
    } else {
        assert(p.subrange(j, m + 1)[0] == p[j]);
        assert(p.subrange(j, m + 1).contains(p[j]));
        assert(p.subrange(j, m + 1).to_set().contains(p[j]));
        assert(resolve_m(al, TyM::Named(p[j]), p.subrange(j, m + 1).to_set()) == TyM::Named(p[j]));
    }
}

/// Resolving from state `(p, t)` of the walk, where `p` is the chain seen so far and `t`
/// the value of its last name, gives a type that resolves to itself.
proof fn lemma_resolve_fixed(al: Map<Seq<char>, TyM>, p: Seq<Seq<char>>, t: TyM)
    requires
        al.dom().finite(),
        alias_chain(al, p),
        p.len() > 0 ==> t == al[p.last()],
    ensures
        resolve_m(al, resolve_m(al, t, p.to_set()), Set::empty()) == resolve_m(al, t, p.to_set()),
    decreases al.dom().difference(p.to_set()).len(),
{
    let v = p.to_set();
    if let TyM::Named(x) = t {
        if v.contains(x) {
            let j = choose|j: int| 0 <= j < p.len() && #[trigger] p[j] == x;
            lemma_cycle_resolves(al, p, j, j);
            assert(p.subrange(j, j).to_set() =~= Set::<Seq<char>>::empty());
        } else if al.contains_key(x) {
            let p2 = p.push(x);
            assert forall|y: Seq<char>| p2.to_set().contains(y) <==> v.insert(x).contains(y) by {
                if p2.contains(y) {
                    let k = choose|k: int| 0 <= k < p2.len() && #[trigger] p2[k] == y;
                    if k < p.len() {
                        assert(p[k] == y);
                    }
                }
                if p.contains(y) {
                    let k = choose|k: int| 0 <= k < p.len() && #[trigger] p[k] == y;
                    assert(p2[k] == y);
                }
                if y == x {
                    assert(p2[p.len() as int] == y);
                }
            }
            assert(p2.to_set() =~= v.insert(x));
            assert(al.dom().difference(v.insert(x)) =~= al.dom().difference(v).remove(x));
            assert(alias_chain(al, p2)) by {
                assert forall|i: int, j: int| 0 <= i < j < p2.len() implies p2[i] != p2[j] by {
                    if j == p.len() {
                        assert(v.contains(p[i]));
                    }
                }
                assert forall|i: int| 0 <= i < p2.len() - 1 implies al[#[trigger] p2[i]] == TyM::Named(
                    p2[i + 1],
                ) by {
                    if i == p.len() - 1 {
                        assert(p2[i] == p.last());
                    }
                }
            }
            lemma_resolve_fixed(al, p2, al[x]);
        }
    }
}

/// Resolving a type is idempotent: what `TyEnv::resolve` gives back resolves to itself.
/// An alias chain ends in a type that is not an alias, or, where the aliases form a
/// cycle, in a name on the cycle, which resolves to itself.
pub proof fn law_resolve_idempotent(env: &TyEnv, t: TyM)
    ensures
        resolve_m(
            env.model().aliases,
            resolve_m(env.model().aliases, t, Set::empty()),
            Set::empty(),
        ) == resolve_m(env.model().aliases, t, Set::empty()),
{
    env.type_aliases.lemma_dom_finite();
    assert(env.model().aliases.dom() =~= env.type_aliases@.dom());
    let p = Seq::<Seq<char>>::empty();
    assert(p.to_set() =~= Set::<Seq<char>>::empty());
    lemma_resolve_fixed(env.model().aliases, p, t);
}


// ---------------------------------------------------------------------------
// Comparisons
// ---------------------------------------------------------------------------

/// Whether `op` compares its operands.
pub open spec fn is_comparison(op: BinOp) -> bool {
    ||| op is Eq
    ||| op is Ne
    ||| op is Lt
    ||| op is Gt
    ||| op is Le
    ||| op is Ge
}

/// A comparison has type `bool`, whatever the types of its operands.
pub proof fn law_comparison_is_bool(e: EnvM, st: TcSt, op: BinOp, l: TyM, r: TyM)
    requires
        is_comparison(op),
    ensures
        s_binop(e, st, op, l, r).1 == TyM::Bool,
{
}

/// `&&` and `||` have type `bool`, and with `bool` operands nothing is reported.
pub proof fn law_logical_is_bool(e: EnvM, st: TcSt, op: BinOp, l: TyM, r: TyM)
    requires
        op is And || op is Or,
    ensures
        s_binop(e, st, op, l, r).1 == TyM::Bool,
        s_binop(e, st, op, TyM::Bool, TyM::Bool).0 == st,
{
    assert(compat_m(TyM::Bool, TyM::Bool));
}

/// Arithmetic and bitwise operators give a value of their left operand's type, and on
/// two operands of one integer type nothing is reported.
pub proof fn law_arithmetic_keeps_type(e: EnvM, st: TcSt, op: BinOp, l: TyM, r: TyM)
    requires
        !is_comparison(op),
        !(op is And || op is Or),
    ensures
        s_binop(e, st, op, l, r).1 == l,
        crate::type_checker::types::is_integer_m(crate::type_checker::tc_spec::res(e, l)) ==> s_binop(e, st, op, l, l).0 == st,
{
    let lr = crate::type_checker::tc_spec::res(e, l);
    if crate::type_checker::types::is_integer_m(lr) {
        assert(compat_m(lr, lr));
    }
}

/// An expression that compares two values has type `bool`, so it can stand as a
/// condition: checking it as one reports only what inferring it reports.
pub proof fn law_comparison_is_a_condition(e: EnvM, st: TcSt, sc: ScopeM, c: Expr, what: Seq<char>)
    requires
        c.kind is BinOp,
        is_comparison(c.kind->BinOp_op),
    ensures
        s_infer(e, st, sc, c).1 == TyM::Bool,
        s_cond(e, st, sc, c, what) == s_infer(e, st, sc, c).0,
{
    if let ExprKind::BinOp { op, lhs, rhs } = c.kind {
        let st0 = crate::type_checker::tc_spec::at(st, c.loc);
        let (st1, l) = s_infer(e, st0, sc, *lhs);
        let (st2, r) = s_infer(e, st1, sc, *rhs);
        law_comparison_is_bool(e, st2, op, l, r);
        assert(crate::type_checker::tc_spec::s_infer_binop(e, st0, sc, c.kind) == s_binop(e, st2, op, l, r));
        assert(s_infer(e, st, sc, c) == crate::type_checker::tc_spec::s_infer_binop(e, st0, sc, c.kind));
        assert(compat_m(TyM::Bool, TyM::Bool));
    }
}

// ---------------------------------------------------------------------------
// Conflicting borrows within a statement are found
// ---------------------------------------------------------------------------

/// Whether the diagnostics `errs` include one with message `m`.
pub open spec fn has_msg(errs: Seq<ErrM>, m: Seq<char>) -> bool {
    exists|t: int| 0 <= t < errs.len() && (#[trigger] errs[t]).message == m
}

/// `x` is `&mut n` (`mutable`) or `&n`.
pub open spec fn is_borrow_of(x: Expr, n: Seq<char>, mutable: bool) -> bool {
    &&& x.kind is AddrOf
    &&& x.kind->AddrOf_mutable == mutable
    &&& x.kind->AddrOf_expr.kind is Var
    &&& x.kind->AddrOf_expr.kind->Var_0@ == n
}

/// Collecting borrows only adds diagnostics and only adds borrowed names.
proof fn lemma_collect_grows(st: BcSt, sh: Set<Seq<char>>, mu: Set<Seq<char>>, x: Expr)
    ensures
        st.errs.is_prefix_of(b_collect(st, sh, mu, x).0.errs),
        sh.subset_of(b_collect(st, sh, mu, x).1),
        mu.subset_of(b_collect(st, sh, mu, x).2),
    decreases x, 0int,
{
    let st0 = b_at(st, x.loc);
    match x.kind {
        ExprKind::AddrOf { mutable, expr: inner } => {
            let (st1, sh1, mu1) = match inner.kind {
                ExprKind::Var(name) => {
                    let n = name@;
                    if !mutable {
                        let st1 = if mu.contains(n) {
                            b_err(st0, "cannot borrow "@ + q(n) + " as immutable: also borrowed as mutable"@)
                        } else {
                            st0
                        };
                        (st1, sh.insert(n), mu)
                    } else {
                        let st1 = if sh.contains(n) {
                            b_err(st0, "cannot borrow "@ + q(n) + " as mutable: also borrowed as immutable"@)
                        } else if mu.contains(n) {
                            b_err(st0, "cannot borrow "@ + q(n) + " as mutable more than once"@)
                        } else {
                            st0
                        };
                        (st1, sh, mu.insert(n))
                    }
                },
                _ => (st0, sh, mu),
            };
            assert(st.errs.is_prefix_of(st1.errs));
            lemma_collect_grows(st1, sh1, mu1, *inner);
        },
        ExprKind::BinOp { lhs, rhs, .. } => {
            lemma_collect_grows(st0, sh, mu, *lhs);
            let (st1, sh1, mu1) = b_collect(st0, sh, mu, *lhs);
            lemma_collect_grows(st1, sh1, mu1, *rhs);
        },
        ExprKind::UnOp { operand, .. } => lemma_collect_grows(st0, sh, mu, *operand),
        ExprKind::Call { args, .. } => lemma_collect_list_grows(st0, sh, mu, args@, 0),
        ExprKind::AssocCall { args, .. } => lemma_collect_list_grows(st0, sh, mu, args@, 0),
        ExprKind::MethodCall { expr, args, .. } => {
            lemma_collect_grows(st0, sh, mu, *expr);
            let (st1, sh1, mu1) = b_collect(st0, sh, mu, *expr);
            lemma_collect_list_grows(st1, sh1, mu1, args@, 0);
        },
        ExprKind::Tuple(elems) => lemma_collect_list_grows(st0, sh, mu, elems@, 0),
        ExprKind::ArrayLit(elems) => lemma_collect_list_grows(st0, sh, mu, elems@, 0),
        ExprKind::Field { expr, .. } => lemma_collect_grows(st0, sh, mu, *expr),
        ExprKind::Deref(expr) => lemma_collect_grows(st0, sh, mu, *expr),
        ExprKind::Cast { expr, .. } => lemma_collect_grows(st0, sh, mu, *expr),
        ExprKind::Index { expr, index } => {
            lemma_collect_grows(st0, sh, mu, *expr);
            let (st1, sh1, mu1) = b_collect(st0, sh, mu, *expr);
            lemma_collect_grows(st1, sh1, mu1, *index);
        },
        ExprKind::Range { start, end } => {
            let (st1, sh1, mu1) = match start {
                Some(s) => {
                    lemma_collect_grows(st0, sh, mu, *s);
                    b_collect(st0, sh, mu, *s)
                },
                None => (st0, sh, mu),
            };
            match end {
                Some(en) => lemma_collect_grows(st1, sh1, mu1, *en),
                None => {},
            }
        },
        _ => {},
    }
}

proof fn lemma_collect_list_grows(st: BcSt, sh: Set<Seq<char>>, mu: Set<Seq<char>>, es: Seq<Expr>, i: int)
    ensures
        st.errs.is_prefix_of(b_collect_list(st, sh, mu, es, i).0.errs),
        sh.subset_of(b_collect_list(st, sh, mu, es, i).1),
        mu.subset_of(b_collect_list(st, sh, mu, es, i).2),
    decreases es, es.len() - i,
{
    if 0 <= i < es.len() {
        lemma_collect_grows(st, sh, mu, es[i]);
        let (st1, sh1, mu1) = b_collect(st, sh, mu, es[i]);
        lemma_collect_list_grows(st1, sh1, mu1, es, i + 1);
    }
}

proof fn lemma_prefix_keeps_msg(a: Seq<ErrM>, b: Seq<ErrM>, m: Seq<char>)
    requires
        has_msg(a, m),
        a.is_prefix_of(b),
    ensures
        has_msg(b, m),
{
    let t = choose|t: int| 0 <= t < a.len() && (#[trigger] a[t]).message == m;
    assert(b[t] == a[t]);
}

/// From argument `k` on, with `n` already borrowed mutably, a later `&n` at `j` is
/// reported.
proof fn lemma_shared_after_mut(
    st: BcSt,
    sh: Set<Seq<char>>,
    mu: Set<Seq<char>>,
    es: Seq<Expr>,
    k: int,
    j: int,
    n: Seq<char>,
)
    requires
        0 <= k <= j < es.len(),
        mu.contains(n),
        is_borrow_of(es[j], n, false),
    ensures
        has_msg(
            b_collect_list(st, sh, mu, es, k).0.errs,
            "cannot borrow "@ + q(n) + " as immutable: also borrowed as mutable"@,
        ),
    decreases j - k,
{
    let m = "cannot borrow "@ + q(n) + " as immutable: also borrowed as mutable"@;
    let (st1, sh1, mu1) = b_collect(st, sh, mu, es[k]);
    if k < j {
        lemma_collect_grows(st, sh, mu, es[k]);
        lemma_shared_after_mut(st1, sh1, mu1, es, k + 1, j, n);
    } else {
        let x = es[k];
        let st0 = b_at(st, x.loc);
        let inner = x.kind->AddrOf_expr;
        let e1 = b_err(st0, m);
        assert(e1.errs[e1.errs.len() - 1].message == m);
        lemma_collect_grows(e1, sh.insert(n), mu, *inner);
        lemma_prefix_keeps_msg(e1.errs, st1.errs, m);
        lemma_collect_list_grows(st1, sh1, mu1, es, k + 1);
        lemma_prefix_keeps_msg(st1.errs, b_collect_list(st1, sh1, mu1, es, k + 1).0.errs, m);
    }
}

/// Within one call, an argument `&mut n` followed by a later argument `&n` is reported
/// as a shared borrow of a mutably borrowed variable, whatever else the arguments hold.
pub proof fn law_shared_after_mutable_borrow_is_reported(
    st: BcSt,
    sh: Set<Seq<char>>,
    mu: Set<Seq<char>>,
    args: Seq<Expr>,
    i: int,
    j: int,
    n: Seq<char>,
)
    requires
        0 <= i < j < args.len(),
        is_borrow_of(args[i], n, true),
        is_borrow_of(args[j], n, false),
    ensures
        has_msg(
            b_collect_list(st, sh, mu, args, 0).0.errs,
            "cannot borrow "@ + q(n) + " as immutable: also borrowed as mutable"@,
        ),
{
    lemma_mut_then_shared(st, sh, mu, args, 0, i, j, n);
}

proof fn lemma_mut_then_shared(
    st: BcSt,
    sh: Set<Seq<char>>,
    mu: Set<Seq<char>>,
    es: Seq<Expr>,
    k: int,
    i: int,
    j: int,
    n: Seq<char>,
)
    requires
        0 <= k <= i < j < es.len(),
        is_borrow_of(es[i], n, true),
        is_borrow_of(es[j], n, false),
    ensures
        has_msg(
            b_collect_list(st, sh, mu, es, k).0.errs,
            "cannot borrow "@ + q(n) + " as immutable: also borrowed as mutable"@,
        ),
    decreases i - k,
{
    let (st1, sh1, mu1) = b_collect(st, sh, mu, es[k]);
    if k < i {
        lemma_mut_then_shared(st1, sh1, mu1, es, k + 1, i, j, n);
    } else {
        let x = es[k];
        let inner = x.kind->AddrOf_expr;
        let st0 = b_at(st, x.loc);
        let st_a = if sh.contains(n) {
            b_err(st0, "cannot borrow "@ + q(n) + " as mutable: also borrowed as immutable"@)
        } else if mu.contains(n) {
            b_err(st0, "cannot borrow "@ + q(n) + " as mutable more than once"@)
        } else {
            st0
        };
        lemma_collect_grows(st_a, sh, mu.insert(n), *inner);
        assert(mu1.contains(n));
        lemma_shared_after_mut(st1, sh1, mu1, es, k + 1, j, n);
    }
}

// ---------------------------------------------------------------------------
// Operators are read and written as they are spelled
// ---------------------------------------------------------------------------

/// The bytes that spell the binary operator `op` in the source language (and, for the
/// arithmetic operators, in C).
pub open spec fn op_bytes(op: BinOp) -> Seq<u8> {
    match op {
        BinOp::Add => seq!['+' as u8],
        BinOp::Sub => seq!['-' as u8],
        BinOp::Mul => seq!['*' as u8],
        BinOp::Div => seq!['/' as u8],
        BinOp::Rem => seq!['%' as u8],
        BinOp::Eq => seq!['=' as u8, '=' as u8],
        BinOp::Ne => seq!['!' as u8, '=' as u8],
        BinOp::Lt => seq!['<' as u8],
        BinOp::Gt => seq!['>' as u8],
        BinOp::Le => seq!['<' as u8, '=' as u8],
        BinOp::Ge => seq!['>' as u8, '=' as u8],
        BinOp::And => seq!['&' as u8, '&' as u8],
        BinOp::Or => seq!['|' as u8, '|' as u8],
        BinOp::BitAnd => seq!['&' as u8],
        BinOp::BitOr => seq!['|' as u8],
        BinOp::BitXor => seq!['^' as u8],
        BinOp::Shl => seq!['<' as u8, '<' as u8],
        BinOp::Shr => seq!['>' as u8, '>' as u8],
    }
}

/// The token that lexing the bytes `b` from their start gives first, if any.
pub open spec fn first_punct(b: Seq<u8>) -> Option<TokM> {
    if b.len() > 0 {
        match punct_m(b, start_st(), b[0]) {
            Some((k, _)) => Some(k),
            None => None,
        }
    } else {
        None
    }
}

/// The parser reads a binary operator token as the operator that token spells: the
/// spelling of what it reads lexes back to the same token.
pub proof fn law_parsed_operator_is_spelled(level: nat, k: TokM, op: BinOp)
    requires
        op_at(level, k) == Some(op),
    ensures
        first_punct(op_bytes(op)) == Some(k),
{
}

/// Every binary operator, spelled out, lexes to a token that the parser reads, at some
/// precedence level, as that operator.
pub proof fn law_spelled_operator_parses(op: BinOp)
    ensures
        first_punct(op_bytes(op)) is Some,
        exists|level: nat| level <= 9 && #[trigger] op_at(level, first_punct(op_bytes(op))->Some_0) == Some(op),
{
    let k = first_punct(op_bytes(op))->Some_0;
    match op {
        BinOp::Or => assert(op_at(0, k) == Some(op)),
        BinOp::And => assert(op_at(1, k) == Some(op)),
        BinOp::Eq | BinOp::Ne => assert(op_at(2, k) == Some(op)),
        BinOp::Lt | BinOp::Gt | BinOp::Le | BinOp::Ge => assert(op_at(3, k) == Some(op)),
        BinOp::BitOr => assert(op_at(4, k) == Some(op)),
        BinOp::BitXor => assert(op_at(5, k) == Some(op)),
        BinOp::BitAnd => assert(op_at(6, k) == Some(op)),
        BinOp::Shl | BinOp::Shr => assert(op_at(7, k) == Some(op)),
        BinOp::Add | BinOp::Sub => assert(op_at(8, k) == Some(op)),
        BinOp::Mul | BinOp::Div | BinOp::Rem => assert(op_at(9, k) == Some(op)),
    }
}

/// The C text that code generation writes for an arithmetic operator is that operator's
/// spelling, so the C expression computes what the source expression does; read back
/// through the front end it gives the same operator.
pub proof fn law_c_operator_is_spelled(op: BinOp)
    requires
        op is Add || op is Sub || op is Mul || op is Div || op is Rem,
    ensures
        c_op(op) == op_bytes(op).map_values(|b: u8| b as char),
        first_punct(c_op(op).map_values(|c: char| c as u8)) is Some,
        op_at(8, first_punct(c_op(op).map_values(|c: char| c as u8))->Some_0) == Some(op) || op_at(
            9,
            first_punct(c_op(op).map_values(|c: char| c as u8))->Some_0,
        ) == Some(op),
{
    reveal_strlit("+");
    reveal_strlit("-");
    reveal_strlit("*");
    reveal_strlit("/");
    reveal_strlit("%");
    assert(c_op(op) =~= op_bytes(op).map_values(|b: u8| b as char));
    assert(c_op(op).map_values(|c: char| c as u8) =~= op_bytes(op));
    law_spelled_operator_parses(op);
}

// ---------------------------------------------------------------------------
// Escapes
// ---------------------------------------------------------------------------

/// The character that the one-letter escape `\d` stands for in Rust.
pub open spec fn rust_escape(d: u8) -> Option<char> {
    if d == ('n' as u8) {
        Some('\n')
    } else if d == ('t' as u8) {
        Some('\t')
    } else if d == ('r' as u8) {
        Some('\r')
    } else if d == ('\\' as u8) {
        Some('\\')
    } else if d == ('\'' as u8) {
        Some('\'')
    } else if d == ('"' as u8) {
        Some('"')
    } else if d == ('0' as u8) {
        Some('\0')
    } else {
        None
    }
}

/// A one-letter escape in a char literal stands for the character Rust gives it, and
/// the lexer moves past its letter.
pub proof fn law_char_escape_is_rusts(src: Seq<u8>, st: LexSt)
    requires
        byte_at(src, st.pos) matches Some(d) && rust_escape(d) is Some,
    ensures
        char_escape(src, st) == Ok::<(u32, LexSt), Seq<char>>(
            ((rust_escape(byte_at(src, st.pos)->Some_0)->Some_0) as u32, adv(src, st)),
        ),
{
}

/// A char literal `'\d'` with a one-letter escape lexes to the code of the character
/// Rust gives that escape.
pub proof fn law_char_literal_escape(src: Seq<u8>, st: LexSt, d: u8)
    requires
        byte_at(src, st.pos) == Some('\'' as u8),
        byte_at(src, st.pos + 1) == Some('\\' as u8),
        byte_at(src, st.pos + 2) == Some(d),
        byte_at(src, st.pos + 3) == Some('\'' as u8),
        rust_escape(d) is Some,
    ensures
        char_lit(src, st) is Ok,
        char_lit(src, st)->Ok_0.0 == TokM::CharLit((rust_escape(d)->Some_0) as u32),
{
    let st1 = adv(src, st);
    let st2 = adv(src, st1);
    law_char_escape_is_rusts(src, st2);
}

/// The escapes a string literal knows (`\n`, `\t`, `\\`, `\"`) stand for the
/// characters Rust gives them.
pub proof fn law_string_escape_is_rusts(d: u8)
    requires
        d == ('n' as u8) || d == ('t' as u8) || d == ('\\' as u8) || d == ('"' as u8),
    ensures
        Some(str_escape(d)) == rust_escape(d),
{
}


/// From argument `k` on, with `n` already borrowed (shared when `shared`, mutably
/// otherwise), a later `&mut n` at `j` is reported.
proof fn lemma_mut_after(
    st: BcSt,
    sh: Set<Seq<char>>,
    mu: Set<Seq<char>>,
    es: Seq<Expr>,
    k: int,
    j: int,
    n: Seq<char>,
    shared: bool,
)
    requires
        0 <= k <= j < es.len(),
        shared ==> sh.contains(n),
        !shared ==> mu.contains(n),
        is_borrow_of(es[j], n, true),
    ensures
        has_msg(
            b_collect_list(st, sh, mu, es, k).0.errs,
            "cannot borrow "@ + q(n) + " as mutable: also borrowed as immutable"@,
        ) || (!shared && has_msg(
            b_collect_list(st, sh, mu, es, k).0.errs,
            "cannot borrow "@ + q(n) + " as mutable more than once"@,
        )),
    decreases j - k,
{
    let m1 = "cannot borrow "@ + q(n) + " as mutable: also borrowed as immutable"@;
    let m2 = "cannot borrow "@ + q(n) + " as mutable more than once"@;
    let (st1, sh1, mu1) = b_collect(st, sh, mu, es[k]);
    if k < j {
        lemma_collect_grows(st, sh, mu, es[k]);
        lemma_mut_after(st1, sh1, mu1, es, k + 1, j, n, shared);
    } else {
        let x = es[k];
        let st0 = b_at(st, x.loc);
        let inner = x.kind->AddrOf_expr;
        let m = if sh.contains(n) { m1 } else { m2 };
        let e1 = b_err(st0, m);
        assert(e1.errs[e1.errs.len() - 1].message == m);
        lemma_collect_grows(e1, sh, mu.insert(n), *inner);
        lemma_prefix_keeps_msg(e1.errs, st1.errs, m);
        lemma_collect_list_grows(st1, sh1, mu1, es, k + 1);
        lemma_prefix_keeps_msg(st1.errs, b_collect_list(st1, sh1, mu1, es, k + 1).0.errs, m);
    }
}

/// Walks to argument `i`, a borrow of `n` (mutable when `mutable`), and then on to a
/// later `&mut n` at `j`.
proof fn lemma_borrow_then_mut(
    st: BcSt,
    sh: Set<Seq<char>>,
    mu: Set<Seq<char>>,
    es: Seq<Expr>,
    k: int,
    i: int,
    j: int,
    n: Seq<char>,
    mutable: bool,
)
    requires
        0 <= k <= i < j < es.len(),
        is_borrow_of(es[i], n, mutable),
        is_borrow_of(es[j], n, true),
    ensures
        has_msg(
            b_collect_list(st, sh, mu, es, k).0.errs,
            "cannot borrow "@ + q(n) + " as mutable: also borrowed as immutable"@,
        ) || (mutable && has_msg(
            b_collect_list(st, sh, mu, es, k).0.errs,
            "cannot borrow "@ + q(n) + " as mutable more than once"@,
        )),
    decreases i - k,
{
    let (st1, sh1, mu1) = b_collect(st, sh, mu, es[k]);
    if k < i {
        lemma_borrow_then_mut(st1, sh1, mu1, es, k + 1, i, j, n, mutable);
    } else {
        let x = es[k];
        let inner = x.kind->AddrOf_expr;
        let st0 = b_at(st, x.loc);
        if !mutable {
            let st_a = if mu.contains(n) {
                b_err(st0, "cannot borrow "@ + q(n) + " as immutable: also borrowed as mutable"@)
            } else {
                st0
            };
            lemma_collect_grows(st_a, sh.insert(n), mu, *inner);
            assert(sh1.contains(n));
            lemma_mut_after(st1, sh1, mu1, es, k + 1, j, n, true);
        } else {
            let st_a = if sh.contains(n) {
                b_err(st0, "cannot borrow "@ + q(n) + " as mutable: also borrowed as immutable"@)
            } else if mu.contains(n) {
                b_err(st0, "cannot borrow "@ + q(n) + " as mutable more than once"@)
            } else {
                st0
            };
            lemma_collect_grows(st_a, sh, mu.insert(n), *inner);
            assert(mu1.contains(n));
            lemma_mut_after(st1, sh1, mu1, es, k + 1, j, n, false);
        }
    }
}

/// Within one call, an argument `&n` followed by a later argument `&mut n` is reported
/// as a mutable borrow of a variable that is also borrowed shared.
pub proof fn law_mutable_after_shared_borrow_is_reported(
    st: BcSt,
    sh: Set<Seq<char>>,
    mu: Set<Seq<char>>,
    args: Seq<Expr>,
    i: int,
    j: int,
    n: Seq<char>,
)
    requires
        0 <= i < j < args.len(),
        is_borrow_of(args[i], n, false),
        is_borrow_of(args[j], n, true),
    ensures
        has_msg(
            b_collect_list(st, sh, mu, args, 0).0.errs,
            "cannot borrow "@ + q(n) + " as mutable: also borrowed as immutable"@,
        ),
{
    lemma_borrow_then_mut(st, sh, mu, args, 0, i, j, n, false);
}

/// Within one call, two arguments `&mut n` are reported: as a second mutable borrow,
/// or, where `n` is also borrowed shared, as that conflict.
pub proof fn law_second_mutable_borrow_is_reported(
    st: BcSt,
    sh: Set<Seq<char>>,
    mu: Set<Seq<char>>,
    args: Seq<Expr>,
    i: int,
    j: int,
    n: Seq<char>,
)
    requires
        0 <= i < j < args.len(),
        is_borrow_of(args[i], n, true),
        is_borrow_of(args[j], n, true),
    ensures
        has_msg(
            b_collect_list(st, sh, mu, args, 0).0.errs,
            "cannot borrow "@ + q(n) + " as mutable more than once"@,
        ) || has_msg(
            b_collect_list(st, sh, mu, args, 0).0.errs,
            "cannot borrow "@ + q(n) + " as mutable: also borrowed as immutable"@,
        ),
{
    lemma_borrow_then_mut(st, sh, mu, args, 0, i, j, n, true);
}

} // verus!
