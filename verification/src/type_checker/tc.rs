//! Phase 1: the type checker.
use crate::ast::{
    BinOp, Block, ExternFn, File, EnumVariant, Expr, ExprKind, FieldDecl, FnDecl, Item, MatchArm, Param, Pat,
    PatBindings, Receiver, Stmt, StmtKind, TraitMethod, Ty, TyM, UnOp, VariantFields,
    lemma_tys_view, resolve_self_m, tys_view,
};
use crate::error::{Error, ErrM};
use crate::loc::Loc;
use crate::text::{
    cat, cat3, cat5, cat7, is_all_digits, nat_to_dec, parse_usize_or_max, str_eq, to_owned,
    u64_to_string,
};
use super::{EnvM, TyEnv, param_tys_m};
use super::scope::{Scope, ScopeM, VarInfo, fresh_var, insert_m, lookup_m};
use super::tc_spec::{
    TcSt, ann_arm, ann_arms, ann_block, ann_file, ann_fn, ann_item, ann_items, ann_kind, ann_list,
    ann_methods, ann_stmt, ann_stmts, flat_fns, flat_item, flat_items, is_implicit_return, s_check_item,
    same_sig, same_sig_fns, same_sig_item, same_sig_items, lemma_flat_fns, all_arms_return, arm_named_binds, arm_tuple_binds, at, compat, definitely_returns,
    err, find_field, find_method, find_variant, fn_scope, given_names, has_fn_named,
    has_unit_variant, needs_value, params_scope, q, res, s_arm, s_arm_bindings, s_arm_value,
    s_arm_values, s_arms, s_array_rest, s_bind, s_bind_all, s_bind_named, s_bind_struct_fields,
    s_bind_struct_named, s_bind_zip, s_binop, s_block, s_block_value, s_call_args, s_check_args,
    s_check_file, s_check_fn, s_check_items, s_check_methods, s_cond, s_field_ty, s_find_break,
    s_if_join, s_infer, s_infer_addr_of, s_infer_array, s_infer_assoc_call, s_infer_binop,
    s_infer_call, s_infer_deref, s_infer_enum_lit, s_infer_field, s_infer_fields, s_infer_if,
    s_infer_if_let, s_infer_index, s_infer_list, s_infer_loop, s_infer_method_call, s_infer_opt,
    s_infer_struct_lit, s_infer_tys, s_infer_unop, s_infer_var, s_lit_fields, s_lvalue,
    s_missing, s_missing_methods, s_stmt, s_stmt_assign, s_stmt_compound, s_stmt_expr,
    s_stmt_for, s_stmt_if, s_stmt_if_let, s_stmt_let, s_stmt_let_pat, s_stmt_return,
    s_stmt_while_let, s_stmts, s_stmts_step, s_stmts_unit, s_tail_value, s_unsafe_value, s_validate_externs,
    s_validate_fields, s_validate_item, s_validate_item_list, s_validate_items,
    s_validate_params, s_validate_sigs, s_validate_trait_sigs, s_validate_ty, s_validate_tys,
    s_validate_variants, s_vis_field, s_vis_item,
};
use super::types::{
    base_name_m, base_type_name, compat_m, display_m, is_integer, is_integer_m, is_numeric,
    is_numeric_m, ty_compat, ty_display,
};
use vstd::prelude::*;

verus! {

broadcast use vstd::map_lib::group_map_properties;

/// Appends `q(s)`, the text `s` in backquotes.
pub(crate) fn add_q(m: &mut String, s: &str)
    ensures
        final(m)@ == old(m)@ + q(s@),
{
    m.append("`");
    m.append(s);
    m.append("`");
    assert(final(m)@ =~= old(m)@ + q(s@));
}

/// Appends the display of `ty` in backquotes.
fn add_ty(m: &mut String, ty: &Ty)
    ensures
        final(m)@ == old(m)@ + q(display_m(ty@)),
{
    let d = ty_display(ty);
    add_q(m, d.as_str());
}

/// Appends the decimal text of `n`.
fn add_dec(m: &mut String, n: usize)
    ensures
        final(m)@ == old(m)@ + nat_to_dec(n as nat),
{
    let d = u64_to_string(n as u64);
    m.append(d.as_str());
}

/// The models of a list of diagnostics.
pub open spec fn errs_view(s: Seq<Error>) -> Seq<ErrM> {
    s.map_values(|e: Error| e@)
}

/// Walks the tree and accumulates type errors. `cur_loc` is the location reported
/// with each error; `cur_mod` is the module path of the item being checked (e.g.
/// `"math_"` inside `mod math { }`, `""` at top level).
pub struct TypeChecker<'a, 'b> {
    pub env: &'b TyEnv<'a>,
    pub errors: Vec<Error>,
    pub cur_loc: Loc,
    pub cur_mod: String,
    /// Whether the current expression is inside an `unsafe` block.
    pub in_unsafe: bool,
}

impl<'a, 'b> TypeChecker<'a, 'b> {
    /// The observable state.
    pub open spec fn st(&self) -> TcSt {
        TcSt {
            errs: errs_view(self.errors@),
            loc: self.cur_loc,
            cur_mod: self.cur_mod@,
            in_unsafe: self.in_unsafe,
        }
    }

    /// The model of the environment.
    pub open spec fn em(&self) -> EnvM {
        self.env.model()
    }

    pub fn new(env: &'b TyEnv<'a>) -> (r: Self)
        ensures
            r.env == env,
            r.st() == (TcSt {
                errs: Seq::empty(),
                loc: Loc { line: 0, col: 0 },
                cur_mod: Seq::empty(),
                in_unsafe: false,
            }),
    {
        let r = TypeChecker {
            env,
            errors: Vec::new(),
            cur_loc: Loc::default(),
            cur_mod: String::new(),
            in_unsafe: false,
        };
        assert(errs_view(r.errors@) =~= Seq::<ErrM>::empty());
        r
    }

    fn err(&mut self, msg: String)
        ensures
            final(self).env == old(self).env,
            final(self).st() == err(old(self).st(), msg@),
    {
        let e = Error::new(self.cur_loc, msg);
        self.errors.push(e);
        assert(errs_view(self.errors@) =~= errs_view(old(self).errors@).push(
            ErrM { loc: old(self).cur_loc, message: msg@ },
        ));
    }

    /// Check whether `name` (a fully-qualified item) is accessible from `cur_mod`.
    fn check_item_visibility(&mut self, name: &String)
        ensures
            final(self).env == old(self).env,
            final(self).st() == s_vis_item(old(self).em(), old(self).st(), name@),
    {
        if let Some(item_mod) = self.env.item_module.get(name.as_str()) {
            let accessible = crate::text::starts_with(self.cur_mod.as_str(), item_mod.as_str())
                || self.env.pub_items.contains(name.as_str());
            if !accessible {
                let mut m = String::new();
                add_q(&mut m, name.as_str());
                m.append(" is private");
                assert(m@ =~= q(name@) + " is private"@);
                self.err(m);
            }
        }
    }

    /// Check that `field` of struct `struct_name` is accessible from `cur_mod`.
    fn check_field_visibility(&mut self, struct_name: &String, field: &String)
        ensures
            final(self).env == old(self).env,
            final(self).st() == s_vis_field(old(self).em(), old(self).st(), struct_name@, field@),
    {
        if let Some(struct_mod) = self.env.item_module.get(struct_name.as_str()) {
            if !crate::text::starts_with(self.cur_mod.as_str(), struct_mod.as_str()) {
                let is_pub = match self.env.pub_fields.get(struct_name.as_str()) {
                    Some(s) => s.contains(field.as_str()),
                    None => false,
                };
                if !is_pub {
                    let mut m = String::from_str("field ");
                    add_q(&mut m, field.as_str());
                    m.append(" of ");
                    add_q(&mut m, struct_name.as_str());
                    m.append(" is private");
                    self.err(m);
                }
            }
        }
    }

    /// Resolve a type alias chain (cycle-safe).
    fn resolve(&self, ty: &Ty) -> (r: Ty)
        ensures
            r@ == res(self.em(), ty@),
    {
        self.env.resolve(ty)
    }

    /// Type compatibility with alias resolution on both sides.
    fn compat(&self, got: &Ty, expected: &Ty) -> (r: bool)
        ensures
            r == compat(self.em(), got@, expected@),
    {
        let g = self.resolve(got);
        let e = self.resolve(expected);
        ty_compat(&g, &e)
    }

    /// Check that a type's named parts refer to declared, accessible types.
    fn validate_ty(&mut self, ty: &Ty)
        ensures
            final(self).env == old(self).env,
            final(self).st() == s_validate_ty(old(self).em(), old(self).st(), ty@),
        decreases ty, 1int,
    {
        match ty {
            Ty::Named(name) => {
                if !self.env.structs.contains_key(name.as_str()) && !self.env.enums.contains_key(
                    name.as_str(),
                ) && !self.env.type_aliases.contains_key(name.as_str()) {
                    let mut m = String::from_str("unknown type ");
                    add_q(&mut m, name.as_str());
                    self.err(m);
                } else {
                    self.check_item_visibility(name);
                }
            },
            Ty::DynTrait(name) => {
                if !self.env.traits.contains_key(name.as_str()) {
                    let mut m = String::from_str("unknown trait ");
                    add_q(&mut m, name.as_str());
                    self.err(m);
                } else {
                    self.check_item_visibility(name);
                }
            },
            Ty::Array(inner, _) => self.validate_ty(inner),
            Ty::Slice(inner) => self.validate_ty(inner),
            Ty::Ref(inner) => self.validate_ty(inner),
            Ty::RefMut(inner) => self.validate_ty(inner),
            Ty::RawConst(inner) => self.validate_ty(inner),
            Ty::RawMut(inner) => self.validate_ty(inner),
            Ty::Tuple(tys) => {
                proof {
                    crate::ast::lemma_vec_elems_decrease(*ty, *tys);
                }
                self.validate_tys(tys, Ghost(*ty));
            },
            Ty::FnPtr { params, ret } => {
                proof {
                    crate::ast::lemma_vec_elems_decrease(*ty, *params);
                }
                self.validate_tys(params, Ghost(*ty));
                self.validate_ty(ret);
            },
            _ => {},
        }
    }

    fn validate_tys(&mut self, tys: &Vec<Ty>, Ghost(outer): Ghost<Ty>)
        requires
            forall|i: int| 0 <= i < tys.len() ==> decreases_to!(outer => tys@[i]),
        ensures
            final(self).env == old(self).env,
            final(self).st() == s_validate_tys(old(self).em(), old(self).st(), tys_view(tys@), 0),
        decreases outer, 0int,
    {
        proof {
            lemma_tys_view(tys@);
        }
        let mut i: usize = 0;
        while i < tys.len()
            invariant
                i <= tys.len(),
                self.env == old(self).env,
                tys_view(tys@).len() == tys.len(),
                forall|j: int| 0 <= j < tys.len() ==> #[trigger] tys_view(tys@)[j] == tys@[j]@,
                forall|j: int| 0 <= j < tys.len() ==> decreases_to!(outer => tys@[j]),
                s_validate_tys(self.em(), self.st(), tys_view(tys@), i as int) == s_validate_tys(
                    old(self).em(),
                    old(self).st(),
                    tys_view(tys@),
                    0,
                ),
            decreases tys.len() - i,
        {
            self.validate_ty(&tys[i]);
            i += 1;
        }
    }
}

/// The index of the first field named `name`.
fn find_field_idx(fs: &Vec<FieldDecl>, name: &String) -> (r: Option<usize>)
    ensures
        match r {
            Some(k) => find_field(fs@, name@, 0) == Some(k as int) && k < fs.len(),
            None => find_field(fs@, name@, 0) is None,
        },
{
    let mut i: usize = 0;
    while i < fs.len()
        invariant
            i <= fs.len(),
            find_field(fs@, name@, 0) == find_field(fs@, name@, i as int),
        decreases fs.len() - i,
    {
        if str_eq(fs[i].name.as_str(), name.as_str()) {
            return Some(i);
        }
        i += 1;
    }
    None
}

/// The index of the first variant named `name`.
fn find_variant_idx(vs: &Vec<EnumVariant>, name: &String) -> (r: Option<usize>)
    ensures
        match r {
            Some(k) => find_variant(vs@, name@, 0) == Some(k as int) && k < vs.len(),
            None => find_variant(vs@, name@, 0) is None,
        },
{
    let mut i: usize = 0;
    while i < vs.len()
        invariant
            i <= vs.len(),
            find_variant(vs@, name@, 0) == find_variant(vs@, name@, i as int),
        decreases vs.len() - i,
    {
        if str_eq(vs[i].name.as_str(), name.as_str()) {
            return Some(i);
        }
        i += 1;
    }
    None
}

/// The index of the first trait method named `name`.
fn find_method_idx(ms: &Vec<TraitMethod>, name: &String) -> (r: Option<usize>)
    ensures
        match r {
            Some(k) => find_method(ms@, name@, 0) == Some(k as int) && k < ms.len(),
            None => find_method(ms@, name@, 0) is None,
        },
{
    let mut i: usize = 0;
    while i < ms.len()
        invariant
            i <= ms.len(),
            find_method(ms@, name@, 0) == find_method(ms@, name@, i as int),
        decreases ms.len() - i,
    {
        if str_eq(ms[i].name.as_str(), name.as_str()) {
            return Some(i);
        }
        i += 1;
    }
    None
}

fn has_unit_variant_named(vs: &Vec<EnumVariant>, name: &String) -> (r: bool)
    ensures
        r == has_unit_variant(vs@, name@),
{
    let mut i: usize = 0;
    while i < vs.len()
        invariant
            i <= vs.len(),
            forall|j: int| 0 <= j < i ==> !(#[trigger] vs@[j].name@ == name@ && vs@[j].fields is Unit),
        decreases vs.len() - i,
    {
        if str_eq(vs[i].name.as_str(), name.as_str()) && matches!(vs[i].fields, VariantFields::Unit) {
            return true;
        }
        i += 1;
    }
    false
}

fn has_fn_named_exec(ms: &Vec<FnDecl>, name: &String) -> (r: bool)
    ensures
        r == has_fn_named(ms@, name@),
{
    let mut i: usize = 0;
    while i < ms.len()
        invariant
            i <= ms.len(),
            forall|j: int| 0 <= j < i ==> #[trigger] ms@[j].name@ != name@,
        decreases ms.len() - i,
    {
        if str_eq(ms[i].name.as_str(), name.as_str()) {
            return true;
        }
        i += 1;
    }
    false
}

/// Whether a struct literal's fields include one named `name`.
fn gives_field(fields: &Vec<(String, Expr)>, name: &String) -> (r: bool)
    ensures
        r == given_names(fields@).contains(name@),
{
    let mut i: usize = 0;
    while i < fields.len()
        invariant
            i <= fields.len(),
            forall|j: int| 0 <= j < i ==> #[trigger] fields@[j].0@ != name@,
        decreases fields.len() - i,
    {
        if str_eq(fields[i].0.as_str(), name.as_str()) {
            assert(fields@[i as int].0@ == name@);
            return true;
        }
        i += 1;
    }
    false
}


impl<'a, 'b> TypeChecker<'a, 'b> {
    /// Bind pattern variables into the current scope frame, and check the pattern
    /// against the type of the value it matches.
    fn bind_pat_vars(&mut self, pat: &Pat, ty: &Ty, scope: &mut Scope)
        requires
            old(scope)@.len() > 0,
        ensures
            final(self).env == old(self).env,
            final(scope)@.len() == old(scope)@.len(),
            (final(self).st(), final(scope)@) == s_bind(
                old(self).em(),
                old(self).st(),
                old(scope)@,
                *pat,
                ty@,
            ),
        decreases pat, 1int,
    {
        let env = self.env;
        match pat {
            Pat::Wildcard => {},
            Pat::Binding(name) => {
                scope.insert(name.clone(), ty.clone_ty(), false);
            },
            Pat::Bool(_) => {
                if !matches!(ty, Ty::Bool) {
                    let mut m = String::from_str("bool pattern on ");
                    add_ty(&mut m, ty);
                    self.err(m);
                }
            },
            Pat::Int(_) => {
                if !is_integer(ty) {
                    let mut m = String::from_str("integer pattern on ");
                    add_ty(&mut m, ty);
                    self.err(m);
                }
            },
            Pat::Char(_) => {
                if !matches!(ty, Ty::Char) {
                    let mut m = String::from_str("char pattern on ");
                    add_ty(&mut m, ty);
                    self.err(m);
                }
            },
            Pat::CharRange { .. } => {
                if !matches!(ty, Ty::Char) {
                    let mut m = String::from_str("char range pattern on ");
                    add_ty(&mut m, ty);
                    self.err(m);
                }
            },
            Pat::At { name, pat: inner } => {
                scope.insert(name.clone(), ty.clone_ty(), false);
                self.bind_pat_vars(inner, ty, scope);
            },
            Pat::Range { .. } => {
                if !is_integer(ty) {
                    let mut m = String::from_str("range pattern on non-integer ");
                    add_ty(&mut m, ty);
                    self.err(m);
                }
            },
            Pat::Tuple(pats) => {
                if let Ty::Tuple(tys) = ty {
                    proof {
                        lemma_pats_decrease(*pat, *pats);
                    }
                    self.bind_zip(pats, tys, scope, Ghost(*pat));
                }
            },
            Pat::TupleStruct { ty_name, fields } => {
                if let Some(sdecl) = env.structs.get(ty_name.as_str()) {
                    proof {
                        lemma_pats_decrease(*pat, *fields);
                    }
                    self.bind_struct_fields(fields, &sdecl.fields, scope, Ghost(*pat));
                } else {
                    let mut m = String::from_str("unknown struct ");
                    add_q(&mut m, ty_name.as_str());
                    m.append(" in pattern");
                    self.err(m);
                }
            },
            Pat::Or(alts) => {
                proof {
                    lemma_pats_decrease(*pat, *alts);
                }
                self.bind_all(alts, ty, scope, Ghost(*pat));
            },
            Pat::EnumVariant { ty_name, variant, bindings } => {
                let ok = match ty {
                    Ty::Named(n) => str_eq(n.as_str(), ty_name.as_str()),
                    _ => false,
                };
                let label = cat3(ty_name.as_str(), "::", variant.as_str());
                if !ok {
                    let mut m = String::from_str("pattern ");
                    add_q(&mut m, label.as_str());
                    m.append(" used on ");
                    add_ty(&mut m, ty);
                    self.err(m);
                }
                if let Some(edecl) = env.enums.get(ty_name.as_str()) {
                    if let Some(k) = find_variant_idx(&edecl.variants, variant) {
                        let ev = &edecl.variants[k];
                        match (bindings, &ev.fields) {
                            (PatBindings::Empty, _) => {},
                            (PatBindings::Tuple(pats), VariantFields::Tuple(tys)) => {
                                if pats.len() > tys.len() {
                                    let mut m = String::from_str("too many bindings for ");
                                    add_q(&mut m, label.as_str());
                                    m.append(": expected ");
                                    add_dec(&mut m, tys.len());
                                    m.append(", found ");
                                    add_dec(&mut m, pats.len());
                                    self.err(m);
                                }
                                proof {
                                    lemma_pats_decrease(*pat, *pats);
                                }
                                self.bind_zip(pats, tys, scope, Ghost(*pat));
                            },
                            (PatBindings::Named(fields, _), VariantFields::Named(decl)) => {
                                self.bind_named(fields, decl, &label, scope, false);
                            },
                            _ => {
                                let mut m = String::from_str("binding shape mismatch for ");
                                add_q(&mut m, label.as_str());
                                self.err(m);
                            },
                        }
                    } else {
                        let mut m = String::from_str("no variant ");
                        add_q(&mut m, variant.as_str());
                        m.append(" in enum ");
                        add_q(&mut m, ty_name.as_str());
                        self.err(m);
                    }
                } else if str_eq(ty_name.as_str(), variant.as_str()) {
                    if let Some(sdecl) = env.structs.get(ty_name.as_str()) {
                        if let PatBindings::Named(fields, _) = bindings {
                            self.bind_named(fields, &sdecl.fields, ty_name, scope, true);
                        }
                    }
                }
            },
        }
    }

    fn bind_zip(&mut self, pats: &Vec<Pat>, tys: &Vec<Ty>, scope: &mut Scope, Ghost(outer): Ghost<Pat>)
        requires
            old(scope)@.len() > 0,
            forall|i: int| 0 <= i < pats.len() ==> decreases_to!(outer => pats@[i]),
        ensures
            final(self).env == old(self).env,
            final(scope)@.len() == old(scope)@.len(),
            (final(self).st(), final(scope)@) == s_bind_zip(
                old(self).em(),
                old(self).st(),
                old(scope)@,
                pats@,
                tys_view(tys@),
                0,
            ),
        decreases outer, 0int,
    {
        proof {
            lemma_tys_view(tys@);
        }
        let mut i: usize = 0;
        while i < pats.len() && i < tys.len()
            invariant
                i <= pats.len(),
                self.env == old(self).env,
                old(scope)@.len() > 0,
                scope@.len() == old(scope)@.len(),
                tys_view(tys@).len() == tys.len(),
                forall|j: int| 0 <= j < tys.len() ==> #[trigger] tys_view(tys@)[j] == tys@[j]@,
                forall|j: int| 0 <= j < pats.len() ==> decreases_to!(outer => pats@[j]),
                s_bind_zip(self.em(), self.st(), scope@, pats@, tys_view(tys@), i as int)
                    == s_bind_zip(old(self).em(), old(self).st(), old(scope)@, pats@, tys_view(tys@), 0),
            decreases pats.len() - i,
        {
            self.bind_pat_vars(&pats[i], &tys[i], scope);
            i += 1;
        }
    }

    fn bind_all(&mut self, pats: &Vec<Pat>, ty: &Ty, scope: &mut Scope, Ghost(outer): Ghost<Pat>)
        requires
            old(scope)@.len() > 0,
            forall|i: int| 0 <= i < pats.len() ==> decreases_to!(outer => pats@[i]),
        ensures
            final(self).env == old(self).env,
            final(scope)@.len() == old(scope)@.len(),
            (final(self).st(), final(scope)@) == s_bind_all(
                old(self).em(),
                old(self).st(),
                old(scope)@,
                pats@,
                ty@,
                0,
            ),
        decreases outer, 0int,
    {
        let mut i: usize = 0;
        while i < pats.len()
            invariant
                i <= pats.len(),
                self.env == old(self).env,
                old(scope)@.len() > 0,
                scope@.len() == old(scope)@.len(),
                forall|j: int| 0 <= j < pats.len() ==> decreases_to!(outer => pats@[j]),
                s_bind_all(self.em(), self.st(), scope@, pats@, ty@, i as int) == s_bind_all(
                    old(self).em(),
                    old(self).st(),
                    old(scope)@,
                    pats@,
                    ty@,
                    0,
                ),
            decreases pats.len() - i,
        {
            self.bind_pat_vars(&pats[i], ty, scope);
            i += 1;
        }
    }

    fn bind_struct_fields(
        &mut self,
        pats: &Vec<Pat>,
        fs: &Vec<FieldDecl>,
        scope: &mut Scope,
        Ghost(outer): Ghost<Pat>,
    )
        requires
            old(scope)@.len() > 0,
            forall|i: int| 0 <= i < pats.len() ==> decreases_to!(outer => pats@[i]),
        ensures
            final(self).env == old(self).env,
            final(scope)@.len() == old(scope)@.len(),
            (final(self).st(), final(scope)@) == s_bind_struct_fields(
                old(self).em(),
                old(self).st(),
                old(scope)@,
                pats@,
                fs@,
                0,
            ),
        decreases outer, 0int,
    {
        let mut i: usize = 0;
        while i < pats.len()
            invariant
                i <= pats.len(),
                self.env == old(self).env,
                old(scope)@.len() > 0,
                scope@.len() == old(scope)@.len(),
                forall|j: int| 0 <= j < pats.len() ==> decreases_to!(outer => pats@[j]),
                s_bind_struct_fields(self.em(), self.st(), scope@, pats@, fs@, i as int)
                    == s_bind_struct_fields(old(self).em(), old(self).st(), old(scope)@, pats@, fs@, 0),
            decreases pats.len() - i,
        {
            let fty = if i < fs.len() {
                fs[i].ty.clone_ty()
            } else {
                Ty::Unit
            };
            self.bind_pat_vars(&pats[i], &fty, scope);
            i += 1;
        }
    }

    /// Binds `field: binding` pairs; `in_struct` selects the struct-pattern wording.
    fn bind_named(
        &mut self,
        fields: &Vec<(String, String)>,
        decl: &Vec<FieldDecl>,
        label: &String,
        scope: &mut Scope,
        in_struct: bool,
    )
        requires
            old(scope)@.len() > 0,
        ensures
            final(self).env == old(self).env,
            final(scope)@.len() == old(scope)@.len(),
            !in_struct ==> (final(self).st(), final(scope)@) == s_bind_named(
                old(self).st(),
                old(scope)@,
                fields@,
                decl@,
                label@,
                0,
            ),
            in_struct ==> (final(self).st(), final(scope)@) == s_bind_struct_named(
                old(self).st(),
                old(scope)@,
                fields@,
                decl@,
                label@,
                0,
            ),
    {
        let mut i: usize = 0;
        while i < fields.len()
            invariant
                i <= fields.len(),
                self.env == old(self).env,
                old(scope)@.len() > 0,
                scope@.len() == old(scope)@.len(),
                !in_struct ==> s_bind_named(self.st(), scope@, fields@, decl@, label@, i as int)
                    == s_bind_named(old(self).st(), old(scope)@, fields@, decl@, label@, 0),
                in_struct ==> s_bind_struct_named(self.st(), scope@, fields@, decl@, label@, i as int)
                    == s_bind_struct_named(old(self).st(), old(scope)@, fields@, decl@, label@, 0),
            decreases fields.len() - i,
        {
            let (fname, binding) = &fields[i];
            match find_field_idx(decl, fname) {
                Some(k) => {
                    scope.insert(binding.clone(), decl[k].ty.clone_ty(), false);
                },
                None => {
                    let mut m = String::from_str("no field ");
                    add_q(&mut m, fname.as_str());
                    if in_struct {
                        m.append(" in struct ");
                    } else {
                        m.append(" in ");
                    }
                    add_q(&mut m, label.as_str());
                    self.err(m);
                },
            }
            i += 1;
        }
    }

    /// Check operand types for a binary operator and return the result type: the
    /// left operand's type for arithmetic/bitwise operators, `bool` otherwise.
    fn check_binop(&mut self, op: BinOp, lty: &Ty, rty: &Ty) -> (r: Ty)
        ensures
            final(self).env == old(self).env,
            (final(self).st(), r@) == s_binop(old(self).em(), old(self).st(), op, lty@, rty@),
    {
        let lty_r = self.resolve(lty);
        let rty_r = self.resolve(rty);
        match op {
            BinOp::Add | BinOp::Sub | BinOp::Mul | BinOp::Div | BinOp::Rem => {
                if !is_numeric(&lty_r) {
                    let mut m = String::from_str("arithmetic on non-numeric ");
                    add_ty(&mut m, lty);
                    self.err(m);
                } else if !ty_compat(&rty_r, &lty_r) && !ty_compat(&lty_r, &rty_r) {
                    let mut m = String::from_str("arithmetic type mismatch: ");
                    add_ty(&mut m, lty);
                    m.append(" vs ");
                    add_ty(&mut m, rty);
                    self.err(m);
                }
                lty.clone_ty()
            },
            BinOp::BitAnd | BinOp::BitOr | BinOp::BitXor | BinOp::Shl | BinOp::Shr => {
                if !is_integer(&lty_r) {
                    let mut m = String::from_str("bitwise op on non-integer ");
                    add_ty(&mut m, lty);
                    self.err(m);
                } else if !is_integer(&rty_r) {
                    let mut m = String::from_str("bitwise op RHS must be integer, found ");
                    add_ty(&mut m, rty);
                    self.err(m);
                }
                lty.clone_ty()
            },
            BinOp::Eq | BinOp::Ne | BinOp::Lt | BinOp::Gt | BinOp::Le | BinOp::Ge => {
                if !ty_compat(&lty_r, &rty_r) && !ty_compat(&rty_r, &lty_r) {
                    let mut m = String::from_str("comparison type mismatch: ");
                    add_ty(&mut m, lty);
                    m.append(" vs ");
                    add_ty(&mut m, rty);
                    self.err(m);
                }
                Ty::Bool
            },
            BinOp::And | BinOp::Or => {
                if !self.compat(lty, &Ty::Bool) {
                    let mut m = String::from_str("logical op requires `bool`, found ");
                    add_ty(&mut m, lty);
                    self.err(m);
                }
                if !self.compat(rty, &Ty::Bool) {
                    let mut m = String::from_str("logical op requires `bool`, found ");
                    add_ty(&mut m, rty);
                    self.err(m);
                }
                Ty::Bool
            },
        }
    }

    /// The type of `field` on `ty`, or an error and `()`; aliases are resolved first.
    fn lookup_field_ty(&mut self, ty: &Ty, field: &String) -> (r: Ty)
        ensures
            final(self).env == old(self).env,
            (final(self).st(), r@) == s_field_ty(old(self).em(), old(self).st(), ty@, field@),
    {
        let env = self.env;
        let ty_r = self.resolve(ty);
        match base_type_name(&ty_r) {
            Some(name) => {
                if let Some(s) = env.structs.get(name.as_str()) {
                    match find_field_idx(&s.fields, field) {
                        Some(k) => s.fields[k].ty.clone_ty(),
                        None => {
                            let mut m = String::from_str("no field ");
                            add_q(&mut m, field.as_str());
                            m.append(" on ");
                            add_q(&mut m, name.as_str());
                            self.err(m);
                            Ty::Unit
                        },
                    }
                } else {
                    Ty::Unit
                }
            },
            None => {
                let mut m = String::from_str("no field ");
                add_q(&mut m, field.as_str());
                m.append(" on ");
                add_ty(&mut m, &ty_r);
                self.err(m);
                Ty::Unit
            },
        }
    }
}

pub proof fn lemma_pats_decrease(outer: Pat, v: Vec<Pat>)
    requires
        decreases_to!(outer => v),
    ensures
        forall|i: int| 0 <= i < v.len() ==> decreases_to!(outer => v@[i]),
{
    assert forall|i: int| 0 <= i < v.len() implies decreases_to!(outer => v@[i]) by {
        vstd::std_specs::vec::axiom_vec_index_decreases(v, i);
    }
}


pub proof fn lemma_vec_index_decreases<U>(v: Vec<U>)
    ensures
        forall|i: int| 0 <= i < v.len() ==> decreases_to!(v => v@[i]),
{
    assert forall|i: int| 0 <= i < v.len() implies decreases_to!(v => v@[i]) by {
        vstd::std_specs::vec::axiom_vec_index_decreases(v, i);
    }
}

pub proof fn lemma_elems_decrease<T, U>(outer: T, v: Vec<U>)
    requires
        decreases_to!(outer => v),
    ensures
        forall|i: int| 0 <= i < v.len() ==> decreases_to!(outer => v@[i]),
{
    assert forall|i: int| 0 <= i < v.len() implies decreases_to!(outer => v@[i]) by {
        vstd::std_specs::vec::axiom_vec_index_decreases(v, i);
    }
}

fn needs_value_exec(ret: &Ty) -> (r: bool)
    ensures
        r == needs_value(ret@),
{
    !matches!(ret, Ty::Unit) && !matches!(ret, Ty::Never)
}

pub open spec fn opt_ty_view(t: Option<Ty>) -> Option<TyM> {
    match t {
        Some(x) => Some(x@),
        None => None,
    }
}

impl<'a, 'b> TypeChecker<'a, 'b> {
    /// Checks that a condition is `bool`; `what` names the construct.
    fn cond(&mut self, c: &Expr, what: &str, scope: &Scope)
        requires
            scope@.len() > 0,
        ensures
            final(self).env == old(self).env,
            final(self).st() == s_cond(old(self).em(), old(self).st(), scope@, *c, what@),
        decreases c, 11int,
    {
        let ct = self.infer_expr(c, scope);
        if !self.compat(&ct, &Ty::Bool) {
            let mut m = String::from_str(what);
            m.append(" must be `bool`, found ");
            add_ty(&mut m, &ct);
            self.err(m);
        }
    }

    fn infer_opt(&mut self, x: &Option<Box<Expr>>, scope: &Scope)
        requires
            scope@.len() > 0,
        ensures
            final(self).env == old(self).env,
            final(self).st() == s_infer_opt(old(self).em(), old(self).st(), scope@, *x),
        decreases x, 11int,
    {
        if let Some(b) = x {
            self.infer_expr(b, scope);
        }
    }

    /// Infers `es[from..]`, discarding the types.
    fn infer_list(&mut self, es: &Vec<Expr>, from: usize, scope: &Scope)
        requires
            scope@.len() > 0,
                    ensures
            final(self).env == old(self).env,
            final(self).st() == s_infer_list(old(self).em(), old(self).st(), scope@, es@, from as int),
        decreases es, 1int,
    {
        proof {
            lemma_vec_index_decreases(*es);
        }
        let mut i: usize = from;
        while i < es.len()
            invariant
                self.env == old(self).env,
                forall|j: int| 0 <= j < es.len() ==> decreases_to!(*es => es@[j]),
                scope@.len() > 0,
                from <= i,
                s_infer_list(self.em(), self.st(), scope@, es@, i as int) == s_infer_list(
                    old(self).em(),
                    old(self).st(),
                    scope@,
                    es@,
                    from as int,
                ),
            decreases es.len() - i,
        {
            self.infer_expr(&es[i], scope);
            i += 1;
        }
    }

    /// Infers the types of `es`.
    fn infer_tys(&mut self, es: &Vec<Expr>, scope: &Scope) -> (r: Vec<Ty>)
        requires
            scope@.len() > 0,
                    ensures
            final(self).env == old(self).env,
            (final(self).st(), tys_view(r@)) == s_infer_tys(
                old(self).em(),
                old(self).st(),
                scope@,
                es@,
                0,
                Seq::empty(),
            ),
        decreases es, 1int,
    {
        proof {
            lemma_vec_index_decreases(*es);
        }
        let mut out: Vec<Ty> = Vec::new();
        let mut i: usize = 0;
        assert(tys_view(out@) =~= Seq::<TyM>::empty());
        while i < es.len()
            invariant
                self.env == old(self).env,
                forall|j: int| 0 <= j < es.len() ==> decreases_to!(*es => es@[j]),
                scope@.len() > 0,
                s_infer_tys(self.em(), self.st(), scope@, es@, i as int, tys_view(out@))
                    == s_infer_tys(old(self).em(), old(self).st(), scope@, es@, 0, Seq::empty()),
            decreases es.len() - i,
        {
            let t = self.infer_expr(&es[i], scope);
            let ghost o = out@;
            out.push(t);
            proof {
                lemma_tys_view(o);
                lemma_tys_view(out@);
                assert(tys_view(out@) =~= tys_view(o).push(t@));
            }
            i += 1;
        }
        out
    }

    fn array_rest(&mut self, es: &Vec<Expr>, first: &Ty, scope: &Scope)
        requires
            scope@.len() > 0,
                    ensures
            final(self).env == old(self).env,
            final(self).st() == s_array_rest(old(self).em(), old(self).st(), scope@, es@, 1, first@),
        decreases es, 1int,
    {
        proof {
            lemma_vec_index_decreases(*es);
        }
        let mut i: usize = 1;
        while i < es.len()
            invariant
                self.env == old(self).env,
                forall|j: int| 0 <= j < es.len() ==> decreases_to!(*es => es@[j]),
                scope@.len() > 0,
                1 <= i,
                s_array_rest(self.em(), self.st(), scope@, es@, i as int, first@) == s_array_rest(
                    old(self).em(),
                    old(self).st(),
                    scope@,
                    es@,
                    1,
                    first@,
                ),
            decreases es.len() - i,
        {
            let t = self.infer_expr(&es[i], scope);
            if !ty_compat(&t, first) {
                let mut m = String::from_str("array element type mismatch: expected ");
                add_ty(&mut m, first);
                m.append(", found ");
                add_ty(&mut m, &t);
                self.err(m);
            }
            i += 1;
        }
    }

    fn infer_fields(&mut self, fs: &Vec<(String, Expr)>, scope: &Scope)
        requires
            scope@.len() > 0,
                    ensures
            final(self).env == old(self).env,
            final(self).st() == s_infer_fields(old(self).em(), old(self).st(), scope@, fs@, 0),
        decreases fs, 1int,
    {
        proof {
            lemma_vec_index_decreases(*fs);
        }
        let mut i: usize = 0;
        while i < fs.len()
            invariant
                self.env == old(self).env,
                forall|j: int| 0 <= j < fs.len() ==> decreases_to!(*fs => fs@[j]),
                scope@.len() > 0,
                s_infer_fields(self.em(), self.st(), scope@, fs@, i as int) == s_infer_fields(
                    old(self).em(),
                    old(self).st(),
                    scope@,
                    fs@,
                    0,
                ),
            decreases fs.len() - i,
        {
            self.infer_expr(&fs[i].1, scope);
            i += 1;
        }
    }

    fn lit_fields(
        &mut self,
        fs: &Vec<(String, Expr)>,
        decl: &Vec<FieldDecl>,
        sname: &String,
        check_vis: bool,
        label: &String,
        no_field: &str,
        scope: &Scope,
    )
        requires
            scope@.len() > 0,
                    ensures
            final(self).env == old(self).env,
            final(self).st() == s_lit_fields(
                old(self).em(),
                old(self).st(),
                scope@,
                fs@,
                decl@,
                sname@,
                check_vis,
                label@,
                no_field@,
                0,
            ),
        decreases fs, 1int,
    {
        proof {
            lemma_vec_index_decreases(*fs);
        }
        let mut i: usize = 0;
        while i < fs.len()
            invariant
                self.env == old(self).env,
                forall|j: int| 0 <= j < fs.len() ==> decreases_to!(*fs => fs@[j]),
                scope@.len() > 0,
                s_lit_fields(self.em(), self.st(), scope@, fs@, decl@, sname@, check_vis, label@, no_field@, i as int)
                    == s_lit_fields(old(self).em(), old(self).st(), scope@, fs@, decl@, sname@, check_vis, label@, no_field@, 0),
            decreases fs.len() - i,
        {
            let fname = &fs[i].0;
            let got = self.infer_expr(&fs[i].1, scope);
            if check_vis {
                self.check_field_visibility(sname, fname);
            }
            match find_field_idx(decl, fname) {
                Some(k) => {
                    if !self.compat(&got, &decl[k].ty) {
                        let mut m = String::from_str("field ");
                        add_q(&mut m, fname.as_str());
                        m.append(" of ");
                        add_q(&mut m, label.as_str());
                        m.append(": expected ");
                        add_ty(&mut m, &decl[k].ty);
                        m.append(", found ");
                        add_ty(&mut m, &got);
                        self.err(m);
                    }
                },
                None => {
                    let mut m = String::from_str("no field ");
                    add_q(&mut m, fname.as_str());
                    m.append(no_field);
                    add_q(&mut m, label.as_str());
                    self.err(m);
                },
            }
            i += 1;
        }
    }

    /// Reports each declared field the literal does not give.
    fn missing_fields(&mut self, fs: &Vec<(String, Expr)>, decl: &Vec<FieldDecl>, label: &String)
        ensures
            final(self).env == old(self).env,
            final(self).st() == s_missing(old(self).st(), given_names(fs@), decl@, label@, 0),
    {
        let mut i: usize = 0;
        while i < decl.len()
            invariant
                self.env == old(self).env,
                s_missing(self.st(), given_names(fs@), decl@, label@, i as int) == s_missing(
                    old(self).st(),
                    given_names(fs@),
                    decl@,
                    label@,
                    0,
                ),
            decreases decl.len() - i,
        {
            if !gives_field(fs, &decl[i].name) {
                let mut m = String::from_str("missing field ");
                add_q(&mut m, decl[i].name.as_str());
                m.append(" in ");
                add_q(&mut m, label.as_str());
                self.err(m);
            }
            i += 1;
        }
    }

    /// Verify argument count and types for a call of `name`. For variadic extern fns,
    /// at least as many arguments as parameters must be given; extra arguments are
    /// inferred without checking. Arguments are inferred even on arity mismatch.
    fn check_call_args(
        &mut self,
        name: &String,
        args: &Vec<Expr>,
        params: &Vec<Ty>,
        scope: &Scope,
    )
        requires
            scope@.len() > 0,
                    ensures
            final(self).env == old(self).env,
            final(self).st() == s_call_args(
                old(self).em(),
                old(self).st(),
                scope@,
                name@,
                args@,
                tys_view(params@),
            ),
        decreases args, 3int,
    {
        proof {
            lemma_vec_index_decreases(*args);
        }
        proof {
            lemma_tys_view(params@);
        }
        let is_variadic = self.env.variadic_fns.contains(name.as_str());
        let arity_ok = if is_variadic {
            args.len() >= params.len()
        } else {
            args.len() == params.len()
        };
        if !arity_ok {
            let expected = if is_variadic {
                let mut s = String::from_str("at least ");
                add_dec(&mut s, params.len());
                s
            } else {
                u64_to_string(params.len() as u64)
            };
            let mut m = String::new();
            add_q(&mut m, name.as_str());
            m.append(" expects ");
            m.append(expected.as_str());
            m.append(" argument(s), found ");
            add_dec(&mut m, args.len());
            assert(m@ =~= q(name@) + " expects "@ + expected@ + " argument(s), found "@ + nat_to_dec(
                args.len() as nat,
            ));
            self.err(m);
            self.infer_list(args, 0, scope);
            return;
        }
        self.check_args(name, args, params, scope);
        self.infer_list(args, params.len(), scope);
    }

    fn check_args(
        &mut self,
        name: &String,
        args: &Vec<Expr>,
        params: &Vec<Ty>,
        scope: &Scope,
    )
        requires
            scope@.len() > 0,
                    ensures
            final(self).env == old(self).env,
            final(self).st() == s_check_args(
                old(self).em(),
                old(self).st(),
                scope@,
                name@,
                args@,
                tys_view(params@),
                0,
            ),
        decreases args, 2int,
    {
        proof {
            lemma_vec_index_decreases(*args);
        }
        proof {
            lemma_tys_view(params@);
        }
        let mut i: usize = 0;
        while i < args.len() && i < params.len()
            invariant
                self.env == old(self).env,
                forall|j: int| 0 <= j < args.len() ==> decreases_to!(*args => args@[j]),
                scope@.len() > 0,
                tys_view(params@).len() == params.len(),
                forall|j: int| 0 <= j < params.len() ==> #[trigger] tys_view(params@)[j] == params@[j]@,
                s_check_args(self.em(), self.st(), scope@, name@, args@, tys_view(params@), i as int)
                    == s_check_args(old(self).em(), old(self).st(), scope@, name@, args@, tys_view(params@), 0),
            decreases args.len() - i,
        {
            let got = self.infer_expr(&args[i], scope);
            if !self.compat(&got, &params[i]) {
                let mut m = String::from_str("argument ");
                add_dec(&mut m, i + 1);
                m.append(" of ");
                add_q(&mut m, name.as_str());
                m.append(": expected ");
                add_ty(&mut m, &params[i]);
                m.append(", found ");
                add_ty(&mut m, &got);
                self.err(m);
            }
            i += 1;
        }
    }

    /// The type of a place expression, for assignment checking (`None` if not a place).
    fn infer_lvalue(&mut self, x: &Expr, scope: &Scope) -> (r: Option<Ty>)
        requires
            scope@.len() > 0,
        ensures
            final(self).env == old(self).env,
            (final(self).st(), opt_ty_view(r)) == s_lvalue(old(self).em(), old(self).st(), scope@, *x),
        decreases x, 11int,
    {
        match &x.kind {
            ExprKind::Var(name) => match scope.lookup(name.as_str()) {
                Some(vi) => Some(vi.ty.clone_ty()),
                None => None,
            },
            ExprKind::Field { expr, field } => {
                let ty = self.infer_expr(expr, scope);
                if is_all_digits(field.as_str()) {
                    let idx = parse_usize_or_max(field.as_str());
                    match ty {
                        Ty::Tuple(tys) => {
                            proof {
                                lemma_tys_view(tys@);
                            }
                            if idx < tys.len() {
                                Some(tys[idx].clone_ty())
                            } else {
                                None
                            }
                        },
                        _ => None,
                    }
                } else {
                    Some(self.lookup_field_ty(&ty, field))
                }
            },
            ExprKind::Index { expr, .. } => {
                let ty = self.infer_expr(expr, scope);
                match ty {
                    Ty::Array(inner, _) => Some(*inner),
                    Ty::Slice(inner) => Some(*inner),
                    _ => None,
                }
            },
            ExprKind::Deref(inner) => {
                let ty = self.infer_expr(inner, scope);
                match ty {
                    Ty::RawMut(t) => Some(*t),
                    Ty::RefMut(t) => Some(*t),
                    _ => None,
                }
            },
            _ => None,
        }
    }

    /// The value type of `if`/`if let` from the branch types.
    fn if_join(&mut self, tt: Ty, et: &Ty, what: &str) -> (r: Ty)
        ensures
            final(self).env == old(self).env,
            (final(self).st(), r@) == s_if_join(old(self).st(), tt@, et@, what@),
    {
        if !ty_compat(&tt, et) && !ty_compat(et, &tt) {
            let mut m = String::from_str(what);
            add_ty(&mut m, &tt);
            m.append(" vs ");
            add_ty(&mut m, et);
            self.err(m);
        }
        tt
    }

    /// Infers the type of `x` and returns it. Diagnostics are accumulated; on error a
    /// best-effort fallback type (usually `()`) is returned so checking can go on.
    fn infer_expr(&mut self, x: &Expr, scope: &Scope) -> (r: Ty)
        requires
            scope@.len() > 0,
        ensures
            final(self).env == old(self).env,
            (final(self).st(), r@) == s_infer(old(self).em(), old(self).st(), scope@, *x),
        decreases x, 10int,
    {
        self.cur_loc = x.loc;
        match &x.kind {
            ExprKind::Int(_, Some(t)) => t.clone_ty(),
            ExprKind::Int(_, None) => Ty::I64,
            ExprKind::Float(_, Some(t)) => t.clone_ty(),
            ExprKind::Float(_, None) => Ty::F64,
            ExprKind::Bool(_) => Ty::Bool,
            ExprKind::Char(_) => Ty::Char,
            ExprKind::Str(_) => Ty::Str,
            ExprKind::Var(_) => self.infer_var(x, scope),
            ExprKind::Tuple(elems) => {
                let ts = self.infer_tys(elems, scope);
                Ty::Tuple(ts)
            },
            ExprKind::ArrayLit(_) => self.infer_array(x, scope),
            ExprKind::Index { .. } => self.infer_index(x, scope),
            ExprKind::Range { start, end } => {
                self.infer_opt(start, scope);
                self.infer_opt(end, scope);
                Ty::I64
            },
            ExprKind::StructLit { .. } => self.infer_struct_lit(x, scope),
            ExprKind::EnumStructLit { .. } => self.infer_enum_struct_lit(x, scope),
            ExprKind::Field { .. } => self.infer_field(x, scope),
            ExprKind::Call { .. } => self.infer_call(x, scope),
            ExprKind::AssocCall { .. } => self.infer_assoc_call(x, scope),
            ExprKind::MethodCall { .. } => self.infer_method_call(x, scope),
            ExprKind::UnOp { .. } => self.infer_unop(x, scope),
            ExprKind::BinOp { .. } => self.infer_binop(x, scope),
            ExprKind::AddrOf { .. } => self.infer_addr_of(x, scope),
            ExprKind::Deref(_) => self.infer_deref(x, scope),
            ExprKind::Cast { ty, .. } => ty.clone_ty(),
            ExprKind::Unsafe(block) => {
                let saved = self.in_unsafe;
                self.in_unsafe = true;
                let t = self.unsafe_value(block, scope);
                self.in_unsafe = saved;
                t
            },
            ExprKind::Block(block) => self.infer_block_value_ty(block, scope),
            ExprKind::If { .. } => self.infer_if(x, scope),
            ExprKind::Match { expr, arms, .. } => {
                let sty = self.infer_expr(expr, scope);
                self.arm_values(arms, &sty, scope)
            },
            ExprKind::Loop { .. } => self.infer_loop(x, scope),
            ExprKind::IfLet { .. } => self.infer_if_let(x, scope),
            ExprKind::Abort { message } => {
                self.infer_opt(message, scope);
                Ty::Never
            },
        }
    }

    fn infer_array(&mut self, x: &Expr, scope: &Scope) -> (r: Ty)
        requires
            scope@.len() > 0,
        ensures
            final(self).env == old(self).env,
            (final(self).st(), r@) == s_infer_array(old(self).em(), old(self).st(), scope@, x.kind),
        decreases x, 9int,
    {
        if let ExprKind::ArrayLit(elems) = &x.kind {
            proof {
                lemma_elems_decrease(x.kind, *elems);
            }
            if elems.len() == 0 {
                let unit = Ty::Unit;
                assert(unit@ == TyM::Unit);
                Ty::Array(Box::new(unit), 0)
            } else {
                let first = self.infer_expr(&elems[0], scope);
                self.array_rest(elems, &first, scope);
                Ty::Array(Box::new(first), elems.len())
            }
        } else {
            Ty::Unit
        }
    }

    fn infer_unop(&mut self, x: &Expr, scope: &Scope) -> (r: Ty)
        requires
            scope@.len() > 0,
        ensures
            final(self).env == old(self).env,
            (final(self).st(), r@) == s_infer_unop(old(self).em(), old(self).st(), scope@, x.kind),
        decreases x, 9int,
    {
        if let ExprKind::UnOp { op, operand } = &x.kind {
            let ty = self.infer_expr(operand, scope);
            match op {
                UnOp::Neg => {
                    if !is_numeric(&ty) {
                        let mut m = String::from_str("negation on non-numeric ");
                        add_ty(&mut m, &ty);
                        self.err(m);
                    }
                    ty
                },
                UnOp::Not => {
                    if matches!(ty, Ty::Bool) {
                        Ty::Bool
                    } else if is_integer(&ty) {
                        ty
                    } else {
                        let mut m = String::from_str("NOT operator on non-bool/integer ");
                        add_ty(&mut m, &ty);
                        self.err(m);
                        Ty::Bool
                    }
                },
                UnOp::BitNot => {
                    if !is_integer(&ty) {
                        let mut m = String::from_str("bitwise NOT on non-integer ");
                        add_ty(&mut m, &ty);
                        self.err(m);
                    }
                    ty
                },
            }
        } else {
            Ty::Unit
        }
    }

    fn infer_binop(&mut self, x: &Expr, scope: &Scope) -> (r: Ty)
        requires
            scope@.len() > 0,
        ensures
            final(self).env == old(self).env,
            (final(self).st(), r@) == s_infer_binop(old(self).em(), old(self).st(), scope@, x.kind),
        decreases x, 9int,
    {
        if let ExprKind::BinOp { op, lhs, rhs } = &x.kind {
            let l = self.infer_expr(lhs, scope);
            let r = self.infer_expr(rhs, scope);
            self.check_binop(*op, &l, &r)
        } else {
            Ty::Unit
        }
    }

    fn infer_addr_of(&mut self, x: &Expr, scope: &Scope) -> (r: Ty)
        requires
            scope@.len() > 0,
        ensures
            final(self).env == old(self).env,
            (final(self).st(), r@) == s_infer_addr_of(old(self).em(), old(self).st(), scope@, x.kind),
        decreases x, 9int,
    {
        if let ExprKind::AddrOf { mutable, expr } = &x.kind {
            if *mutable {
                if let ExprKind::Var(name) = &expr.kind {
                    if let Some(vi) = scope.lookup(name.as_str()) {
                        if !vi.mutable {
                            let mut m = String::from_str("cannot take `&mut` of immutable ");
                            add_q(&mut m, name.as_str());
                            self.err(m);
                        }
                    }
                }
                let t = self.infer_expr(expr, scope);
                Ty::RefMut(Box::new(t))
            } else {
                let t = self.infer_expr(expr, scope);
                Ty::Ref(Box::new(t))
            }
        } else {
            Ty::Unit
        }
    }

    fn infer_deref(&mut self, x: &Expr, scope: &Scope) -> (r: Ty)
        requires
            scope@.len() > 0,
        ensures
            final(self).env == old(self).env,
            (final(self).st(), r@) == s_infer_deref(old(self).em(), old(self).st(), scope@, x.kind),
        decreases x, 9int,
    {
        if let ExprKind::Deref(inner) = &x.kind {
            let ty = self.infer_expr(inner, scope);
            match ty {
                Ty::Ref(t) => *t,
                Ty::RefMut(t) => *t,
                Ty::RawConst(t) => *t,
                Ty::RawMut(t) => *t,
                _ => {
                    let mut m = String::from_str("cannot dereference ");
                    add_ty(&mut m, &ty);
                    self.err(m);
                    Ty::Unit
                },
            }
        } else {
            Ty::Unit
        }
    }

    fn infer_if(&mut self, x: &Expr, scope: &Scope) -> (r: Ty)
        requires
            scope@.len() > 0,
        ensures
            final(self).env == old(self).env,
            (final(self).st(), r@) == s_infer_if(old(self).em(), old(self).st(), scope@, x.kind),
        decreases x, 9int,
    {
        if let ExprKind::If { cond, then_block, else_block } = &x.kind {
            self.cond(cond, "if condition", scope);
            let tt = self.infer_block_value_ty(then_block, scope);
            let et = match else_block {
                Some(b) => self.infer_block_value_ty(b, scope),
                None => Ty::Unit,
            };
            self.if_join(tt, &et, "if/else branch type mismatch: ")
        } else {
            Ty::Unit
        }
    }

    fn infer_loop(&mut self, x: &Expr, scope: &Scope) -> (r: Ty)
        requires
            scope@.len() > 0,
        ensures
            final(self).env == old(self).env,
            (final(self).st(), r@) == s_infer_loop(old(self).em(), old(self).st(), scope@, x.kind),
        decreases x, 9int,
    {
        if let ExprKind::Loop { body, .. } = &x.kind {
            let mut inner = scope.clone_scope();
            self.scan_block(body, &mut inner, &Ty::Unit);
            match self.find_break(body, scope) {
                Some(t) => t,
                None => Ty::Unit,
            }
        } else {
            Ty::Unit
        }
    }

    fn infer_if_let(&mut self, x: &Expr, scope: &Scope) -> (r: Ty)
        requires
            scope@.len() > 0,
        ensures
            final(self).env == old(self).env,
            (final(self).st(), r@) == s_infer_if_let(old(self).em(), old(self).st(), scope@, x.kind),
        decreases x, 9int,
    {
        if let ExprKind::IfLet { pat, expr, then_block, else_block, .. } = &x.kind {
            let t = self.infer_expr(expr, scope);
            let mut inner = scope.clone_scope();
            inner.push();
            self.bind_pat_vars(pat, &t, &mut inner);
            let tt = self.infer_block_value_ty(then_block, &inner);
            let et = match else_block {
                Some(b) => self.infer_block_value_ty(b, scope),
                None => Ty::Unit,
            };
            self.if_join(tt, &et, "if-let branch type mismatch: ")
        } else {
            Ty::Unit
        }
    }

    fn infer_var(&mut self, x: &Expr, scope: &Scope) -> (r: Ty)
        requires
            scope@.len() > 0,
            x.kind is Var,
        ensures
            final(self).env == old(self).env,
            (final(self).st(), r@) == s_infer_var(old(self).em(), old(self).st(), scope@, x.kind),
    {
        let env = self.env;
        let name = match &x.kind {
            ExprKind::Var(n) => n,
            _ => {
                proof {
                    assert(false);
                }
                return Ty::Unit;
            },
        };
        match scope.lookup(name.as_str()) {
            Some(vi) => {
                if vi.moved {
                    let mut m = String::from_str("use of moved value ");
                    add_q(&mut m, name.as_str());
                    self.err(m);
                }
                vi.ty.clone_ty()
            },
            None => {
                if let Some(sig) = env.fns.get(name.as_str()) {
                    Ty::FnPtr { params: super::clone_ty_vec(&sig.0), ret: Box::new(sig.1.clone_ty()) }
                } else if let Some(t) = env.consts.get(name.as_str()) {
                    t.clone_ty()
                } else {
                    let unit_struct = match env.structs.get(name.as_str()) {
                        Some(s) => s.fields.len() == 0 && !s.is_tuple,
                        None => false,
                    };
                    if unit_struct {
                        Ty::Named(name.clone())
                    } else {
                        let mut m = String::from_str("undefined variable ");
                        add_q(&mut m, name.as_str());
                        self.err(m);
                        Ty::Unit
                    }
                }
            },
        }
    }

    fn infer_index(&mut self, x: &Expr, scope: &Scope) -> (r: Ty)
        requires
            scope@.len() > 0,
            x.kind is Index,
        ensures
            final(self).env == old(self).env,
            (final(self).st(), r@) == s_infer_index(old(self).em(), old(self).st(), scope@, x.kind),
        decreases x, 9int,
    {
        if let ExprKind::Index { expr, index } = &x.kind {
            match &index.kind {
                ExprKind::Range { start, end } => {
                    self.infer_opt(start, scope);
                    self.infer_opt(end, scope);
                    let arr = self.infer_expr(expr, scope);
                    match &arr {
                        Ty::Array(inner, _) => Ty::Slice(Box::new((**inner).clone_ty())),
                        Ty::Slice(inner) => Ty::Slice(Box::new((**inner).clone_ty())),
                        _ => {
                            let mut m = String::from_str("cannot slice type ");
                            add_ty(&mut m, &arr);
                            self.err(m);
                            Ty::Unit
                        },
                    }
                },
                _ => {
                    let idx = self.infer_expr(index, scope);
                    if !is_integer(&idx) {
                        let mut m = String::from_str("array index must be an integer, found ");
                        add_ty(&mut m, &idx);
                        self.err(m);
                    }
                    let arr = self.infer_expr(expr, scope);
                    match &arr {
                        Ty::Array(inner, _) => (**inner).clone_ty(),
                        Ty::Slice(inner) => (**inner).clone_ty(),
                        _ => {
                            let mut m = String::from_str("cannot index type ");
                            add_ty(&mut m, &arr);
                            self.err(m);
                            Ty::Unit
                        },
                    }
                },
            }
        } else {
            Ty::Unit
        }
    }

    fn infer_struct_lit(&mut self, x: &Expr, scope: &Scope) -> (r: Ty)
        requires
            scope@.len() > 0,
            x.kind is StructLit,
        ensures
            final(self).env == old(self).env,
            (final(self).st(), r@) == s_infer_struct_lit(old(self).em(), old(self).st(), scope@, x.kind),
        decreases x, 9int,
    {
        let env = self.env;
        if let ExprKind::StructLit { name, fields, rest } = &x.kind {
            proof {
                lemma_elems_decrease(x.kind, *fields);
            }
            self.check_item_visibility(name);
            match env.structs.get(name.as_str()) {
                Some(sdecl) => {
                    let decl = &sdecl.fields;
                    self.lit_fields(fields, decl, name, true, name, " in struct ", scope);
                    match rest {
                        Some(base) => {
                            let bt = self.infer_expr(base, scope);
                            if !self.compat(&bt, &Ty::Named(name.clone())) {
                                let mut m = String::from_str("struct update base has type ");
                                add_ty(&mut m, &bt);
                                m.append(", expected ");
                                add_q(&mut m, name.as_str());
                                self.err(m);
                            }
                        },
                        None => self.missing_fields(fields, decl, name),
                    }
                    Ty::Named(name.clone())
                },
                None => {
                    self.infer_fields(fields, scope);
                    let mut m = String::from_str("unknown struct ");
                    add_q(&mut m, name.as_str());
                    self.err(m);
                    Ty::Named(name.clone())
                },
            }
        } else {
            Ty::Unit
        }
    }

    fn infer_enum_struct_lit(&mut self, x: &Expr, scope: &Scope) -> (r: Ty)
        requires
            scope@.len() > 0,
            x.kind is EnumStructLit,
        ensures
            final(self).env == old(self).env,
            (final(self).st(), r@) == s_infer_enum_lit(old(self).em(), old(self).st(), scope@, x.kind),
        decreases x, 9int,
    {
        let env = self.env;
        if let ExprKind::EnumStructLit { ty_name, variant, fields } = &x.kind {
            proof {
                lemma_elems_decrease(x.kind, *fields);
            }
            let mangled = cat3(ty_name.as_str(), "_", variant.as_str());
            match env.enums.get(ty_name.as_str()) {
                Some(edecl) => {
                    match find_variant_idx(&edecl.variants, variant) {
                        Some(k) => {
                            match &edecl.variants[k].fields {
                                VariantFields::Named(decl) => {
                                    let label = cat3(ty_name.as_str(), "::", variant.as_str());
                                    self.lit_fields(fields, decl, &label, false, &label, " in ", scope);
                                    self.missing_fields(fields, decl, &label);
                                },
                                _ => {
                                    self.infer_fields(fields, scope);
                                },
                            }
                        },
                        None => {
                            self.infer_fields(fields, scope);
                            let mut m = String::from_str("no variant ");
                            add_q(&mut m, variant.as_str());
                            m.append(" in enum ");
                            add_q(&mut m, ty_name.as_str());
                            self.err(m);
                        },
                    }
                    Ty::Named(ty_name.clone())
                },
                None => {
                    match env.structs.get(mangled.as_str()) {
                        Some(sdecl) => {
                            self.check_item_visibility(&mangled);
                            let decl = &sdecl.fields;
                            self.lit_fields(fields, decl, &mangled, true, &mangled, " in ", scope);
                            self.missing_fields(fields, decl, &mangled);
                            Ty::Named(mangled)
                        },
                        None => {
                            self.infer_fields(fields, scope);
                            let mut m = String::from_str("unknown enum ");
                            add_q(&mut m, ty_name.as_str());
                            m.append(" or struct ");
                            add_q(&mut m, mangled.as_str());
                            self.err(m);
                            Ty::Named(ty_name.clone())
                        },
                    }
                },
            }
        } else {
            Ty::Unit
        }
    }

    fn infer_field(&mut self, x: &Expr, scope: &Scope) -> (r: Ty)
        requires
            scope@.len() > 0,
            x.kind is Field,
        ensures
            final(self).env == old(self).env,
            (final(self).st(), r@) == s_infer_field(old(self).em(), old(self).st(), scope@, x.kind),
        decreases x, 9int,
    {
        let env = self.env;
        if let ExprKind::Field { expr, field } = &x.kind {
            let ty = self.infer_expr(expr, scope);
            if is_all_digits(field.as_str()) {
                let idx = parse_usize_or_max(field.as_str());
                let mut oor = String::from_str("tuple index ");
                add_dec(&mut oor, idx);
                oor.append(" out of range");
                match &ty {
                    Ty::Tuple(tys) => {
                        proof {
                            lemma_tys_view(tys@);
                        }
                        if idx < tys.len() {
                            tys[idx].clone_ty()
                        } else {
                            self.err(oor);
                            Ty::Unit
                        }
                    },
                    Ty::Named(n) => {
                        if env.tuple_structs.contains(n.as_str()) {
                            match env.structs.get(n.as_str()) {
                                Some(s) => {
                                    let mut fname = String::from_str("_");
                                    add_dec(&mut fname, idx);
                                    match find_field_idx(&s.fields, &fname) {
                                        Some(k) => s.fields[k].ty.clone_ty(),
                                        None => {
                                            self.err(oor);
                                            Ty::Unit
                                        },
                                    }
                                },
                                None => Ty::Unit,
                            }
                        } else {
                            let mut m = String::from_str("tuple index on non-tuple ");
                            add_ty(&mut m, &ty);
                            self.err(m);
                            Ty::Unit
                        }
                    },
                    _ => {
                        let mut m = String::from_str("tuple index on non-tuple ");
                        add_ty(&mut m, &ty);
                        self.err(m);
                        Ty::Unit
                    },
                }
            } else {
                match &ty {
                    Ty::Named(sn) => self.check_field_visibility(sn, field),
                    Ty::Ref(inner) => {
                        if let Ty::Named(sn) = &**inner {
                            assert((**inner)@ == TyM::Named(sn@));
                            self.check_field_visibility(sn, field);
                        } else {
                            assert(!((**inner)@ is Named));
                        }
                    },
                    _ => {},
                }
                self.lookup_field_ty(&ty, field)
            }
        } else {
            Ty::Unit
        }
    }

    fn infer_call(&mut self, x: &Expr, scope: &Scope) -> (r: Ty)
        requires
            scope@.len() > 0,
            x.kind is Call,
        ensures
            final(self).env == old(self).env,
            (final(self).st(), r@) == s_infer_call(old(self).em(), old(self).st(), scope@, x.kind),
        decreases x, 9int,
    {
        let env = self.env;
        if let ExprKind::Call { name, args } = &x.kind {
            proof {
                lemma_elems_decrease(x.kind, *args);
            }
            match env.fns.get(name.as_str()) {
                Some(sig) => {
                    self.check_item_visibility(name);
                    if env.extern_fns.contains(name.as_str()) && !self.in_unsafe {
                        let mut m = String::from_str("call to unsafe extern fn ");
                        add_q(&mut m, name.as_str());
                        m.append(" must be inside an `unsafe` block");
                        self.err(m);
                    }
                    self.check_call_args(name, args, &sig.0, scope);
                    sig.1.clone_ty()
                },
                None => match scope.lookup(name.as_str()) {
                    Some(vi) => {
                        let vt = self.resolve(&vi.ty);
                        match &vt {
                            Ty::FnPtr { params, ret } => {
                                self.check_call_args(name, args, params, scope);
                                (**ret).clone_ty()
                            },
                            _ => {
                                self.infer_list(args, 0, scope);
                                let mut m = String::from_str("`");
                                m.append(name.as_str());
                                m.append("`");
                                m.append(" is not callable (type: ");
                                add_ty(&mut m, &vi.ty);
                                m.append(")");
                                self.err(m);
                                Ty::Unit
                            },
                        }
                    },
                    None => {
                        self.infer_list(args, 0, scope);
                        let mut m = String::from_str("undefined function ");
                        add_q(&mut m, name.as_str());
                        self.err(m);
                        Ty::Unit
                    },
                },
            }
        } else {
            Ty::Unit
        }
    }

    fn infer_assoc_call(&mut self, x: &Expr, scope: &Scope) -> (r: Ty)
        requires
            scope@.len() > 0,
            x.kind is AssocCall,
        ensures
            final(self).env == old(self).env,
            (final(self).st(), r@) == s_infer_assoc_call(old(self).em(), old(self).st(), scope@, x.kind),
        decreases x, 9int,
    {
        let env = self.env;
        if let ExprKind::AssocCall { ty_name, method, args } = &x.kind {
            proof {
                lemma_elems_decrease(x.kind, *args);
            }
            let mangled = cat3(ty_name.as_str(), "_", method.as_str());
            match env.fns.get(mangled.as_str()) {
                Some(sig) => {
                    self.check_item_visibility(&mangled);
                    self.check_call_args(&mangled, args, &sig.0, scope);
                    sig.1.clone_ty()
                },
                None => {
                    let is_unit_variant = match env.enums.get(ty_name.as_str()) {
                        Some(ed) => has_unit_variant_named(&ed.variants, method),
                        None => false,
                    };
                    if is_unit_variant {
                        Ty::Named(ty_name.clone())
                    } else {
                        self.infer_list(args, 0, scope);
                        let label = cat3(ty_name.as_str(), "::", method.as_str());
                        let mut m = String::from_str("unknown associated function or variant ");
                        add_q(&mut m, label.as_str());
                        self.err(m);
                        Ty::Unit
                    }
                },
            }
        } else {
            Ty::Unit
        }
    }

    fn infer_method_call(&mut self, x: &Expr, scope: &Scope) -> (r: Ty)
        requires
            scope@.len() > 0,
            x.kind is MethodCall,
        ensures
            final(self).env == old(self).env,
            (final(self).st(), r@) == s_infer_method_call(old(self).em(), old(self).st(), scope@, x.kind),
        decreases x, 9int,
    {
        let env = self.env;
        if let ExprKind::MethodCall { expr, method, args } = &x.kind {
            proof {
                lemma_elems_decrease(x.kind, *args);
            }
            let recv = self.infer_expr(expr, scope);
            let rr = self.resolve(&recv);
            match &rr {
                Ty::DynTrait(tn) => {
                    self.infer_list(args, 0, scope);
                    let found = match env.traits.get(tn.as_str()) {
                        Some(td) => match find_method_idx(&td.methods, method) {
                            Some(k) => Some(td.methods[k].return_ty.clone_ty()),
                            None => None,
                        },
                        None => None,
                    };
                    match found {
                        Some(t) => t,
                        None => {
                            let mut m = String::from_str("no method ");
                            add_q(&mut m, method.as_str());
                            m.append(" on `dyn ");
                            m.append(tn.as_str());
                            m.append("`");
                            self.err(m);
                            Ty::Unit
                        },
                    }
                },
                _ => match base_type_name(&rr) {
                    Some(tn) => {
                        let mangled = cat3(tn.as_str(), "_", method.as_str());
                        match env.fns.get(mangled.as_str()) {
                            Some(sig) => {
                                self.check_item_visibility(&mangled);
                                self.check_call_args(&mangled, args, &sig.0, scope);
                                sig.1.clone_ty()
                            },
                            None => {
                                self.infer_list(args, 0, scope);
                                let mut m = String::from_str("no method ");
                                add_q(&mut m, method.as_str());
                                m.append(" on ");
                                add_ty(&mut m, &recv);
                                self.err(m);
                                Ty::Unit
                            },
                        }
                    },
                    None => {
                        self.infer_list(args, 0, scope);
                        let mut m = String::from_str("method call `.");
                        m.append(method.as_str());
                        m.append("()` on primitive type ");
                        add_ty(&mut m, &recv);
                        self.err(m);
                        Ty::Unit
                    },
                },
            }
        } else {
            Ty::Unit
        }
    }

    /// Type-checks a block, pushing and popping a scope frame around it.
    fn check_block(&mut self, b: &mut Block, scope: &mut Scope, ret: &Ty)
        requires
            old(scope)@.len() > 0,
        ensures
            final(self).env == old(self).env,
            final(scope)@.len() == old(scope)@.len(),
            (final(self).st(), final(scope)@) == s_block(
                old(self).em(),
                old(self).st(),
                old(scope)@,
                *old(b),
                ret@,
            ),
            ann_block(old(self).em(), old(self).st(), old(scope)@, *old(b), *final(b), ret@),
        decreases *old(b), 10int,
    {
        scope.push();
        self.check_block_stmts(b, scope, ret);
        scope.pop();
    }

    /// Type-checks the statements of a block. The final bare expression, in a function
    /// that returns a value, is the implicit return value and is checked against `ret`.
    fn check_block_stmts(&mut self, b: &mut Block, scope: &mut Scope, ret: &Ty)
        requires
            old(scope)@.len() > 0,
        ensures
            final(self).env == old(self).env,
            final(scope)@.len() == old(scope)@.len(),
            (final(self).st(), final(scope)@) == s_stmts(
                old(self).em(),
                old(self).st(),
                old(scope)@,
                old(b).stmts@,
                0,
                ret@,
            ),
            ann_list(old(self).em(), old(self).st(), old(scope)@, old(b).stmts@, final(b).stmts@, ret@),
        decreases *old(b), 2int,
    {
        let ghost ss = b.stmts@;
        let ghost e0 = self.em();
        let ghost st0 = self.st();
        let ghost sc0 = scope@;
        proof {
            lemma_elems_decrease(*b, b.stmts);
        }
        let len = b.stmts.len();
        let needs = needs_value_exec(ret);
        let mut i: usize = 0;
        while i < len
            invariant
                len == ss.len(),
                b.stmts@.len() == len,
                i <= len,
                needs == needs_value(ret@),
                self.env == old(self).env,
                e0 == self.em(),
                old(scope)@.len() > 0,
                scope@.len() == old(scope)@.len(),
                forall|j: int| 0 <= j < len ==> decreases_to!(*old(b) => ss[j]),
                forall|j: int| i <= j < len ==> b.stmts@[j] == ss[j],
                s_stmts(self.em(), self.st(), scope@, ss, i as int, ret@) == s_stmts(
                    e0,
                    st0,
                    sc0,
                    ss,
                    0,
                    ret@,
                ),
                forall|ss2: Seq<Stmt>|
                    #![trigger ann_stmts(e0, self.st(), scope@, ss, ss2, i as int, ret@)]
                    ss2.len() == len && (forall|j: int| 0 <= j < i ==> ss2[j] == b.stmts@[j])
                        && ann_stmts(e0, self.st(), scope@, ss, ss2, i as int, ret@) ==> ann_stmts(
                        e0,
                        st0,
                        sc0,
                        ss,
                        ss2,
                        0,
                        ret@,
                    ),
            decreases len - i,
        {
            let ghost st_i = self.st();
            let ghost sc_i = scope@;
            let ghost b_i = b.stmts@;
            let mut handled = false;
            if i + 1 == len && needs {
                if let StmtKind::Expr(e) = &b.stmts[i].kind {
                    self.cur_loc = b.stmts[i].loc;
                    let ty = self.infer_expr(e, scope);
                    if !self.compat(&ty, ret) {
                        let mut m = String::from_str("implicit return: expected ");
                        add_ty(&mut m, ret);
                        m.append(", found ");
                        add_ty(&mut m, &ty);
                        self.err(m);
                    }
                    handled = true;
                }
            }
            if !handled {
                let mut cur = Stmt { kind: StmtKind::Continue, loc: b.stmts[i].loc };
                std::mem::swap(&mut cur, &mut b.stmts[i]);
                assert(cur == ss[i as int]);
                self.check_stmt(&mut cur, scope, ret);
                std::mem::swap(&mut cur, &mut b.stmts[i]);
            }
            proof {
                assert((self.st(), scope@) == s_stmts_step(e0, st_i, sc_i, ss, i as int, ret@));
                assert(forall|j: int| 0 <= j < len && j != i ==> b.stmts@[j] == b_i[j]);
                assert(is_implicit_return(ss, i as int, ret@) ==> b.stmts@[i as int] == ss[i as int]);
                assert(!is_implicit_return(ss, i as int, ret@) ==> ann_stmt(
                    e0,
                    st_i,
                    sc_i,
                    ss[i as int],
                    b.stmts@[i as int],
                    ret@,
                ));
                assert forall|ss2: Seq<Stmt>|
                    ss2.len() == len && (forall|j: int| 0 <= j < i + 1 ==> ss2[j] == b.stmts@[j])
                        && ann_stmts(
                        e0,
                        self.st(),
                        scope@,
                        ss,
                        ss2,
                        i + 1,
                        ret@,
                    ) implies ann_stmts(e0, st0, sc0, ss, ss2, 0, ret@) by {
                    assert(ss2[i as int] == b.stmts@[i as int]);
                    assert(ann_stmts(e0, st_i, sc_i, ss, ss2, i as int, ret@));
                    assert(forall|j: int| 0 <= j < i ==> ss2[j] == b_i[j]);
                }
            }
            i += 1;
        }
        proof {
            assert(ann_stmts(e0, self.st(), scope@, ss, b.stmts@, len as int, ret@));
        }
    }

    /// Type-checks one statement, filling in the types it leaves to inference.
    fn check_stmt(&mut self, s: &mut Stmt, scope: &mut Scope, ret: &Ty)
        requires
            old(scope)@.len() > 0,
        ensures
            final(self).env == old(self).env,
            final(scope)@.len() == old(scope)@.len(),
            (final(self).st(), final(scope)@) == s_stmt(
                old(self).em(),
                old(self).st(),
                old(scope)@,
                *old(s),
                ret@,
            ),
            ann_stmt(old(self).em(), old(self).st(), old(scope)@, *old(s), *final(s), ret@),
        decreases *old(s), 10int,
    {
        self.cur_loc = s.loc;
        match &s.kind {
            StmtKind::Let { .. } => self.check_let(s, scope, ret),
            StmtKind::Assign { .. } => self.check_assign(s, scope, ret),
            StmtKind::Return(Some(_)) => self.check_return(s, scope, ret),
            StmtKind::Return(None) => {
                if !self.compat(&Ty::Unit, ret) && !matches!(ret, Ty::Never) {
                    let mut m = String::from_str("empty return in function returning ");
                    add_ty(&mut m, ret);
                    self.err(m);
                }
            },
            StmtKind::If { .. } => self.check_if(s, scope, ret),
            StmtKind::While { .. } => {
                if let StmtKind::While { cond, body } = &mut s.kind {
                    self.cond(cond, "while condition", scope);
                    self.check_block(body, scope, ret);
                }
            },
            StmtKind::Loop(_) => {
                if let StmtKind::Loop(body) = &mut s.kind {
                    self.check_block(body, scope, ret);
                }
            },
            StmtKind::For { .. } => self.check_for(s, scope, ret),
            StmtKind::Break(val) => {
                if let Some(v) = val {
                    self.infer_expr(v, scope);
                }
            },
            StmtKind::Continue => {},
            StmtKind::Match { .. } => {
                if let StmtKind::Match { expr, arms, scrutinee_ty } = &mut s.kind {
                    let sty = self.infer_expr(expr, scope);
                    *scrutinee_ty = Some(sty.clone_ty());
                    proof {
                        lemma_elems_decrease(old(s).kind, *arms);
                    }
                    self.check_arms(arms, &sty, scope, ret);
                }
            },
            StmtKind::Println { args, .. } => {
                proof {
                    lemma_elems_decrease(s.kind, *args);
                }
                self.infer_list(args, 0, scope);
            },
            StmtKind::CompoundAssign { .. } => self.check_compound(s, scope, ret),
            StmtKind::IfLet { .. } => self.check_if_let(s, scope, ret),
            StmtKind::WhileLet { .. } => self.check_while_let(s, scope, ret),
            StmtKind::Expr(_) => self.check_expr_stmt(s, scope, ret),
            StmtKind::LetPat { .. } => self.check_let_pat(s, scope, ret),
        }
    }

    fn check_let(&mut self, s: &mut Stmt, scope: &mut Scope, ret: &Ty)
        requires
            old(scope)@.len() > 0,
        ensures
            final(self).env == old(self).env,
            final(scope)@.len() == old(scope)@.len(),
            (final(self).st(), final(scope)@) == s_stmt_let(
                old(self).em(),
                old(self).st(),
                old(scope)@,
                old(s).kind,
                ret@,
            ),
            final(s).loc == old(s).loc,
            old(s).kind is Let ==> ann_kind(
                old(self).em(),
                old(self).st(),
                old(scope)@,
                old(s).kind,
                final(s).kind,
                ret@,
            ),
        decreases *old(s), 9int,
    {
        if let StmtKind::Let { name, mutable, ty, expr } = &mut s.kind {
            let inferred = self.infer_expr(expr, scope);
            match ty {
                Some(ann) => {
                    self.validate_ty(ann);
                    if !self.compat(&inferred, ann) {
                        let mut m = String::from_str("let ");
                        add_q(&mut m, name.as_str());
                        m.append(": expected ");
                        add_ty(&mut m, ann);
                        m.append(", found ");
                        add_ty(&mut m, &inferred);
                        self.err(m);
                    }
                    scope.insert(name.clone(), ann.clone_ty(), *mutable);
                },
                None => {
                    *ty = Some(inferred.clone_ty());
                    scope.insert(name.clone(), inferred, *mutable);
                },
            }
        }
    }

    fn check_assign(&mut self, s: &Stmt, scope: &mut Scope, ret: &Ty)
        requires
            old(scope)@.len() > 0,
        ensures
            final(self).env == old(self).env,
            final(scope)@.len() == old(scope)@.len(),
            (final(self).st(), final(scope)@) == s_stmt_assign(
                old(self).em(),
                old(self).st(),
                old(scope)@,
                s.kind,
                ret@,
            ),
        decreases s, 9int,
    {
        if let StmtKind::Assign { name, expr } = &s.kind {
            let rhs = self.infer_expr(expr, scope);
            match scope.lookup(name.as_str()) {
                None => {
                    let mut m = String::from_str("undefined variable ");
                    add_q(&mut m, name.as_str());
                    self.err(m);
                },
                Some(vi) => {
                    if !vi.mutable {
                        let mut m = String::from_str("cannot assign to immutable variable ");
                        add_q(&mut m, name.as_str());
                        self.err(m);
                    }
                    if !self.compat(&rhs, &vi.ty) {
                        let mut m = String::from_str("assign ");
                        add_q(&mut m, name.as_str());
                        m.append(": expected ");
                        add_ty(&mut m, &vi.ty);
                        m.append(", found ");
                        add_ty(&mut m, &rhs);
                        self.err(m);
                    }
                },
        }
        }
    }

    fn check_return(&mut self, s: &Stmt, scope: &mut Scope, ret: &Ty)
        requires
            old(scope)@.len() > 0,
        ensures
            final(self).env == old(self).env,
            final(scope)@.len() == old(scope)@.len(),
            (final(self).st(), final(scope)@) == s_stmt_return(
                old(self).em(),
                old(self).st(),
                old(scope)@,
                s.kind,
                ret@,
            ),
        decreases s, 9int,
    {
        if let StmtKind::Return(Some(expr)) = &s.kind {
            let ty = self.infer_expr(expr, scope);
            if !self.compat(&ty, ret) {
                let mut m = String::from_str("return type mismatch: expected ");
                add_ty(&mut m, ret);
                m.append(", found ");
                add_ty(&mut m, &ty);
                self.err(m);
        }
        }
    }

    fn check_if(&mut self, s: &mut Stmt, scope: &mut Scope, ret: &Ty)
        requires
            old(scope)@.len() > 0,
            old(s).kind is If,
        ensures
            final(self).env == old(self).env,
            final(scope)@.len() == old(scope)@.len(),
            (final(self).st(), final(scope)@) == s_stmt_if(
                old(self).em(),
                old(self).st(),
                old(scope)@,
                old(s).kind,
                ret@,
            ),
            final(s).loc == old(s).loc,
            ann_kind(old(self).em(), old(self).st(), old(scope)@, old(s).kind, final(s).kind, ret@),
        decreases *old(s), 9int,
    {
        if let StmtKind::If { cond, then_block, else_block } = &mut s.kind {
            self.cond(cond, "if condition", scope);
            self.check_block(then_block, scope, ret);
            if let Some(eb) = else_block {
                self.check_block(eb, scope, ret);
            }
        }
    }
    fn check_for(&mut self, s: &mut Stmt, scope: &mut Scope, ret: &Ty)
        requires
            old(scope)@.len() > 0,
            old(s).kind is For,
        ensures
            final(self).env == old(self).env,
            final(scope)@.len() == old(scope)@.len(),
            (final(self).st(), final(scope)@) == s_stmt_for(
                old(self).em(),
                old(self).st(),
                old(scope)@,
                old(s).kind,
                ret@,
            ),
            final(s).loc == old(s).loc,
            ann_kind(old(self).em(), old(self).st(), old(scope)@, old(s).kind, final(s).kind, ret@),
        decreases *old(s), 9int,
    {
        if let StmtKind::For { var, iter, body, elem_ty, iter_ty } = &mut s.kind {
            let it = self.infer_expr(iter, scope);
            let elem = match &it {
                Ty::Array(el, _) => (**el).clone_ty(),
                _ => Ty::I64,
            };
            *iter_ty = Some(it.clone_ty());
            *elem_ty = Some(elem.clone_ty());
            scope.push();
            scope.insert(var.clone(), elem, false);
            self.check_block_stmts(body, scope, ret);
            scope.pop();
        }
    }
    fn check_compound(&mut self, s: &Stmt, scope: &mut Scope, ret: &Ty)
        requires
            old(scope)@.len() > 0,
        ensures
            final(self).env == old(self).env,
            final(scope)@.len() == old(scope)@.len(),
            (final(self).st(), final(scope)@) == s_stmt_compound(
                old(self).em(),
                old(self).st(),
                old(scope)@,
                s.kind,
                ret@,
            ),
        decreases s, 9int,
    {
        if let StmtKind::CompoundAssign { lhs, rhs, .. } = &s.kind {
            let rty = self.infer_expr(rhs, scope);
            let lt = self.infer_lvalue(lhs, scope);
            if let Some(l) = lt {
                if !ty_compat(&rty, &l) {
                    let mut m = String::from_str("compound assignment: expected ");
                    add_ty(&mut m, &l);
                    m.append(", found ");
                    add_ty(&mut m, &rty);
                    self.err(m);
                }
        }
        }
    }

    fn check_if_let(&mut self, s: &mut Stmt, scope: &mut Scope, ret: &Ty)
        requires
            old(scope)@.len() > 0,
            old(s).kind is IfLet,
        ensures
            final(self).env == old(self).env,
            final(scope)@.len() == old(scope)@.len(),
            (final(self).st(), final(scope)@) == s_stmt_if_let(
                old(self).em(),
                old(self).st(),
                old(scope)@,
                old(s).kind,
                ret@,
            ),
            final(s).loc == old(s).loc,
            ann_kind(old(self).em(), old(self).st(), old(scope)@, old(s).kind, final(s).kind, ret@),
        decreases *old(s), 9int,
    {
        if let StmtKind::IfLet { pat, expr, expr_ty, and_cond, then_block, else_block } = &mut s.kind {
            let t = self.infer_expr(expr, scope);
            *expr_ty = Some(t.clone_ty());
            scope.push();
            self.bind_pat_vars(pat, &t, scope);
            if let Some(c) = and_cond {
                self.cond(c, "if-let chain condition", scope);
            }
            self.check_block_stmts(then_block, scope, ret);
            scope.pop();
            if let Some(eb) = else_block {
                self.check_block(eb, scope, ret);
            }
        }
    }
    fn check_while_let(&mut self, s: &mut Stmt, scope: &mut Scope, ret: &Ty)
        requires
            old(scope)@.len() > 0,
            old(s).kind is WhileLet,
        ensures
            final(self).env == old(self).env,
            final(scope)@.len() == old(scope)@.len(),
            (final(self).st(), final(scope)@) == s_stmt_while_let(
                old(self).em(),
                old(self).st(),
                old(scope)@,
                old(s).kind,
                ret@,
            ),
            final(s).loc == old(s).loc,
            ann_kind(old(self).em(), old(self).st(), old(scope)@, old(s).kind, final(s).kind, ret@),
        decreases *old(s), 9int,
    {
        if let StmtKind::WhileLet { pat, expr, expr_ty, body } = &mut s.kind {
            let t = self.infer_expr(expr, scope);
            *expr_ty = Some(t.clone_ty());
            scope.push();
            self.bind_pat_vars(pat, &t, scope);
            self.check_block_stmts(body, scope, ret);
            scope.pop();
        }
    }
    fn check_expr_stmt(&mut self, s: &Stmt, scope: &mut Scope, ret: &Ty)
        requires
            old(scope)@.len() > 0,
        ensures
            final(self).env == old(self).env,
            final(scope)@.len() == old(scope)@.len(),
            (final(self).st(), final(scope)@) == s_stmt_expr(
                old(self).em(),
                old(self).st(),
                old(scope)@,
                s.kind,
                ret@,
            ),
        decreases s, 9int,
    {
        if let StmtKind::Expr(expr) = &s.kind {
            match &expr.kind {
                ExprKind::BinOp { op: BinOp::Eq, lhs, rhs } => {
                    let rty = self.infer_expr(rhs, scope);
                    let lt = self.infer_lvalue(lhs, scope);
                    if let Some(l) = lt {
                        if !ty_compat(&rty, &l) {
                            let mut m = String::from_str("assignment: expected ");
                            add_ty(&mut m, &l);
                            m.append(", found ");
                            add_ty(&mut m, &rty);
                            self.err(m);
                        }
                    }
                },
                _ => {
                    self.infer_expr(expr, scope);
                },
        }
        }
    }

    fn check_let_pat(&mut self, s: &mut Stmt, scope: &mut Scope, ret: &Ty)
        requires
            old(scope)@.len() > 0,
            old(s).kind is LetPat,
        ensures
            final(self).env == old(self).env,
            final(scope)@.len() == old(scope)@.len(),
            (final(self).st(), final(scope)@) == s_stmt_let_pat(
                old(self).em(),
                old(self).st(),
                old(scope)@,
                old(s).kind,
                ret@,
            ),
            final(s).loc == old(s).loc,
            ann_kind(old(self).em(), old(self).st(), old(scope)@, old(s).kind, final(s).kind, ret@),
        decreases *old(s), 9int,
    {
        if let StmtKind::LetPat { pat, ty, expr, else_block } = &mut s.kind {
            let inferred = self.infer_expr(expr, scope);
            match ty {
                Some(ann) => {
                    self.validate_ty(ann);
                },
                None => {
                    *ty = Some(inferred.clone_ty());
                },
            }
            if let Some(eb) = else_block {
                self.check_block(eb, scope, ret);
            }
            self.bind_pat_vars(pat, &inferred, scope);
        }
    }
    /// Type-checks the arms of a `match` statement.
    fn check_arms(&mut self, arms: &mut Vec<MatchArm>, sty: &Ty, scope: &mut Scope, ret: &Ty)
        requires
            old(scope)@.len() > 0,
        ensures
            final(self).env == old(self).env,
            final(scope)@.len() == old(scope)@.len(),
            (final(self).st(), final(scope)@) == s_arms(
                old(self).em(),
                old(self).st(),
                old(scope)@,
                old(arms)@,
                sty@,
                ret@,
                0,
            ),
            final(arms)@.len() == old(arms)@.len(),
            ann_arms(old(self).em(), old(self).st(), old(scope)@, old(arms)@, final(arms)@, sty@, ret@, 0),
        decreases *old(arms), 2int,
    {
        let ghost aa = arms@;
        let ghost e0 = self.em();
        let ghost st0 = self.st();
        let ghost sc0 = scope@;
        proof {
            lemma_vec_index_decreases(*arms);
        }
        let len = arms.len();
        let mut i: usize = 0;
        while i < len
            invariant
                len == aa.len(),
                arms@.len() == len,
                i <= len,
                self.env == old(self).env,
                e0 == self.em(),
                old(scope)@.len() > 0,
                scope@.len() == old(scope)@.len(),
                forall|j: int| 0 <= j < len ==> decreases_to!(*old(arms) => aa[j]),
                forall|j: int| i <= j < len ==> arms@[j] == aa[j],
                s_arms(self.em(), self.st(), scope@, aa, sty@, ret@, i as int) == s_arms(
                    e0,
                    st0,
                    sc0,
                    aa,
                    sty@,
                    ret@,
                    0,
                ),
                forall|a2: Seq<MatchArm>|
                    #![trigger ann_arms(e0, self.st(), scope@, aa, a2, sty@, ret@, i as int)]
                    a2.len() == len && (forall|j: int| 0 <= j < i ==> a2[j] == arms@[j])
                        && ann_arms(e0, self.st(), scope@, aa, a2, sty@, ret@, i as int) ==> ann_arms(
                        e0,
                        st0,
                        sc0,
                        aa,
                        a2,
                        sty@,
                        ret@,
                        0,
                    ),
            decreases len - i,
        {
            let ghost st_i = self.st();
            let ghost sc_i = scope@;
            let ghost a_i = arms@;
            self.check_arm(&mut arms[i], sty, scope, ret);
            proof {
                assert(forall|j: int| 0 <= j < len && j != i ==> arms@[j] == a_i[j]);
                assert forall|a2: Seq<MatchArm>|
                    a2.len() == len && (forall|j: int| 0 <= j < i + 1 ==> a2[j] == arms@[j])
                        && ann_arms(e0, self.st(), scope@, aa, a2, sty@, ret@, i + 1) implies ann_arms(
                        e0,
                        st0,
                        sc0,
                        aa,
                        a2,
                        sty@,
                        ret@,
                        0,
                    ) by {
                    assert(a2[i as int] == arms@[i as int]);
                    assert(ann_arms(e0, st_i, sc_i, aa, a2, sty@, ret@, i as int));
                    assert(forall|j: int| 0 <= j < i ==> a2[j] == a_i[j]);
                }
            }
            i += 1;
        }
        proof {
            assert(ann_arms(e0, self.st(), scope@, aa, arms@, sty@, ret@, len as int));
        }
    }

    /// Type-checks one match arm: binds the pattern's variables in a new frame, checks
    /// the guard, then the body's statements against `ret`.
    fn check_arm(&mut self, arm: &mut MatchArm, sty: &Ty, scope: &mut Scope, ret: &Ty)
        requires
            old(scope)@.len() > 0,
        ensures
            final(self).env == old(self).env,
            final(scope)@.len() == old(scope)@.len(),
            (final(self).st(), final(scope)@) == s_arm(
                old(self).em(),
                old(self).st(),
                old(scope)@,
                *old(arm),
                sty@,
                ret@,
            ),
            ann_arm(old(self).em(), old(self).st(), old(scope)@, *old(arm), *final(arm), sty@, ret@),
        decreases *old(arm), 10int,
    {
        scope.push();
        self.bind_pat_vars(&arm.pat, sty, scope);
        if let Some(g) = &arm.guard {
            self.cond(g, "match guard", scope);
        }
        self.check_block_stmts(&mut arm.body, scope, ret);
        scope.pop();
    }

    // Statements inside expressions (a `loop` body, a block or `unsafe` block in value
    // position) are checked from a shared reference to the expression, so their types are
    // inferred and checked like any other statement's but not written into the tree.

    /// Type-checks a block, pushing and popping a scope frame around it.
    fn scan_block(&mut self, b: &Block, scope: &mut Scope, ret: &Ty)
        requires
            old(scope)@.len() > 0,
        ensures
            final(self).env == old(self).env,
            final(scope)@.len() == old(scope)@.len(),
            (final(self).st(), final(scope)@) == s_block(
                old(self).em(),
                old(self).st(),
                old(scope)@,
                *b,
                ret@,
            ),
        decreases b, 10int,
    {
        scope.push();
        self.scan_block_stmts(b, scope, ret);
        scope.pop();
    }

    /// Type-checks the statements of a block. The final bare expression, in a function
    /// that returns a value, is the implicit return value and is checked against `ret`.
    fn scan_block_stmts(&mut self, b: &Block, scope: &mut Scope, ret: &Ty)
        requires
            old(scope)@.len() > 0,
        ensures
            final(self).env == old(self).env,
            final(scope)@.len() == old(scope)@.len(),
            (final(self).st(), final(scope)@) == s_stmts(
                old(self).em(),
                old(self).st(),
                old(scope)@,
                b.stmts@,
                0,
                ret@,
            ),
        decreases b, 2int,
    {
        proof {
            lemma_elems_decrease(*b, b.stmts);
        }
        let len = b.stmts.len();
        let needs = needs_value_exec(ret);
        let mut i: usize = 0;
        while i < len
            invariant
                len == b.stmts.len(),
                i <= len,
                needs == needs_value(ret@),
                self.env == old(self).env,
                old(scope)@.len() > 0,
                scope@.len() == old(scope)@.len(),
                forall|j: int| 0 <= j < b.stmts.len() ==> decreases_to!(*b => b.stmts@[j]),
                s_stmts(self.em(), self.st(), scope@, b.stmts@, i as int, ret@) == s_stmts(
                    old(self).em(),
                    old(self).st(),
                    old(scope)@,
                    b.stmts@,
                    0,
                    ret@,
                ),
            decreases len - i,
        {
            let ghost st_i = self.st();
            let ghost sc_i = scope@;
            let s = &b.stmts[i];
            let mut handled = false;
            if i + 1 == len && needs {
                if let StmtKind::Expr(e) = &s.kind {
                    self.cur_loc = s.loc;
                    let ty = self.infer_expr(e, scope);
                    if !self.compat(&ty, ret) {
                        let mut m = String::from_str("implicit return: expected ");
                        add_ty(&mut m, ret);
                        m.append(", found ");
                        add_ty(&mut m, &ty);
                        self.err(m);
                    }
                    handled = true;
                }
            }
            if !handled {
                self.scan_stmt(s, scope, ret);
            }
            proof {
                assert((self.st(), scope@) == s_stmts_step(old(self).em(), st_i, sc_i, b.stmts@, i as int, ret@));
            }
            i += 1;
        }
    }

    /// Type-checks one statement.
    fn scan_stmt(&mut self, s: &Stmt, scope: &mut Scope, ret: &Ty)
        requires
            old(scope)@.len() > 0,
        ensures
            final(self).env == old(self).env,
            final(scope)@.len() == old(scope)@.len(),
            (final(self).st(), final(scope)@) == s_stmt(
                old(self).em(),
                old(self).st(),
                old(scope)@,
                *s,
                ret@,
            ),
        decreases s, 10int,
    {
        self.cur_loc = s.loc;
        match &s.kind {
            StmtKind::Let { .. } => self.scan_let(s, scope, ret),
            StmtKind::Assign { .. } => self.check_assign(s, scope, ret),
            StmtKind::Return(Some(_)) => self.check_return(s, scope, ret),
            StmtKind::Return(None) => {
                if !self.compat(&Ty::Unit, ret) && !matches!(ret, Ty::Never) {
                    let mut m = String::from_str("empty return in function returning ");
                    add_ty(&mut m, ret);
                    self.err(m);
                }
            },
            StmtKind::If { .. } => self.scan_if(s, scope, ret),
            StmtKind::While { cond, body } => {
                self.cond(cond, "while condition", scope);
                self.scan_block(body, scope, ret);
            },
            StmtKind::Loop(body) => {
                self.scan_block(body, scope, ret);
            },
            StmtKind::For { .. } => self.scan_for(s, scope, ret),
            StmtKind::Break(val) => {
                if let Some(v) = val {
                    self.infer_expr(v, scope);
                }
            },
            StmtKind::Continue => {},
            StmtKind::Match { expr, arms, .. } => {
                let sty = self.infer_expr(expr, scope);
                proof {
                    lemma_elems_decrease(s.kind, *arms);
                }
                self.scan_arms(arms, &sty, scope, ret);
            },
            StmtKind::Println { args, .. } => {
                proof {
                    lemma_elems_decrease(s.kind, *args);
                }
                self.infer_list(args, 0, scope);
            },
            StmtKind::CompoundAssign { .. } => self.check_compound(s, scope, ret),
            StmtKind::IfLet { .. } => self.scan_if_let(s, scope, ret),
            StmtKind::WhileLet { .. } => self.scan_while_let(s, scope, ret),
            StmtKind::Expr(_) => self.check_expr_stmt(s, scope, ret),
            StmtKind::LetPat { .. } => self.scan_let_pat(s, scope, ret),
        }
    }

    fn scan_let(&mut self, s: &Stmt, scope: &mut Scope, ret: &Ty)
        requires
            old(scope)@.len() > 0,
        ensures
            final(self).env == old(self).env,
            final(scope)@.len() == old(scope)@.len(),
            (final(self).st(), final(scope)@) == s_stmt_let(
                old(self).em(),
                old(self).st(),
                old(scope)@,
                s.kind,
                ret@,
            ),
        decreases s, 9int,
    {
        if let StmtKind::Let { name, mutable, ty, expr } = &s.kind {
            let inferred = self.infer_expr(expr, scope);
            match ty {
                Some(ann) => {
                    self.validate_ty(ann);
                    if !self.compat(&inferred, ann) {
                        let mut m = String::from_str("let ");
                        add_q(&mut m, name.as_str());
                        m.append(": expected ");
                        add_ty(&mut m, ann);
                        m.append(", found ");
                        add_ty(&mut m, &inferred);
                        self.err(m);
                    }
                    scope.insert(name.clone(), ann.clone_ty(), *mutable);
                },
                None => {
                    scope.insert(name.clone(), inferred, *mutable);
                },
        }
        }
    }

    fn scan_if(&mut self, s: &Stmt, scope: &mut Scope, ret: &Ty)
        requires
            old(scope)@.len() > 0,
        ensures
            final(self).env == old(self).env,
            final(scope)@.len() == old(scope)@.len(),
            (final(self).st(), final(scope)@) == s_stmt_if(
                old(self).em(),
                old(self).st(),
                old(scope)@,
                s.kind,
                ret@,
            ),
        decreases s, 9int,
    {
        if let StmtKind::If { cond, then_block, else_block } = &s.kind {
            self.cond(cond, "if condition", scope);
            self.scan_block(then_block, scope, ret);
            if let Some(eb) = else_block {
                self.scan_block(eb, scope, ret);
        }
        }
    }

    fn scan_for(&mut self, s: &Stmt, scope: &mut Scope, ret: &Ty)
        requires
            old(scope)@.len() > 0,
        ensures
            final(self).env == old(self).env,
            final(scope)@.len() == old(scope)@.len(),
            (final(self).st(), final(scope)@) == s_stmt_for(
                old(self).em(),
                old(self).st(),
                old(scope)@,
                s.kind,
                ret@,
            ),
        decreases s, 9int,
    {
        if let StmtKind::For { var, iter, body, .. } = &s.kind {
            let it = self.infer_expr(iter, scope);
            let elem = match &it {
                Ty::Array(el, _) => (**el).clone_ty(),
                _ => Ty::I64,
            };
            scope.push();
            scope.insert(var.clone(), elem, false);
            self.scan_block_stmts(body, scope, ret);
            scope.pop();
        }
    }

    fn scan_if_let(&mut self, s: &Stmt, scope: &mut Scope, ret: &Ty)
        requires
            old(scope)@.len() > 0,
        ensures
            final(self).env == old(self).env,
            final(scope)@.len() == old(scope)@.len(),
            (final(self).st(), final(scope)@) == s_stmt_if_let(
                old(self).em(),
                old(self).st(),
                old(scope)@,
                s.kind,
                ret@,
            ),
        decreases s, 9int,
    {
        if let StmtKind::IfLet { pat, expr, and_cond, then_block, else_block, .. } = &s.kind {
            let t = self.infer_expr(expr, scope);
            scope.push();
            self.bind_pat_vars(pat, &t, scope);
            if let Some(c) = and_cond {
                self.cond(c, "if-let chain condition", scope);
        }
        self.scan_block_stmts(then_block, scope, ret);
        scope.pop();
        if let Some(eb) = else_block {
            self.scan_block(eb, scope, ret);
        }
        }
    }

    fn scan_while_let(&mut self, s: &Stmt, scope: &mut Scope, ret: &Ty)
        requires
            old(scope)@.len() > 0,
        ensures
            final(self).env == old(self).env,
            final(scope)@.len() == old(scope)@.len(),
            (final(self).st(), final(scope)@) == s_stmt_while_let(
                old(self).em(),
                old(self).st(),
                old(scope)@,
                s.kind,
                ret@,
            ),
        decreases s, 9int,
    {
        if let StmtKind::WhileLet { pat, expr, body, .. } = &s.kind {
            let t = self.infer_expr(expr, scope);
            scope.push();
            self.bind_pat_vars(pat, &t, scope);
            self.scan_block_stmts(body, scope, ret);
            scope.pop();
        }
    }

    fn scan_let_pat(&mut self, s: &Stmt, scope: &mut Scope, ret: &Ty)
        requires
            old(scope)@.len() > 0,
        ensures
            final(self).env == old(self).env,
            final(scope)@.len() == old(scope)@.len(),
            (final(self).st(), final(scope)@) == s_stmt_let_pat(
                old(self).em(),
                old(self).st(),
                old(scope)@,
                s.kind,
                ret@,
            ),
        decreases s, 9int,
    {
        if let StmtKind::LetPat { pat, ty, expr, else_block } = &s.kind {
            let inferred = self.infer_expr(expr, scope);
            if let Some(ann) = ty {
                self.validate_ty(ann);
        }
        if let Some(eb) = else_block {
            self.scan_block(eb, scope, ret);
        }
        self.bind_pat_vars(pat, &inferred, scope);
        }
    }

    /// Type-checks the arms of a `match` statement.
    fn scan_arms(&mut self, arms: &Vec<MatchArm>, sty: &Ty, scope: &mut Scope, ret: &Ty)
        requires
            old(scope)@.len() > 0,
                    ensures
            final(self).env == old(self).env,
            final(scope)@.len() == old(scope)@.len(),
            (final(self).st(), final(scope)@) == s_arms(
                old(self).em(),
                old(self).st(),
                old(scope)@,
                arms@,
                sty@,
                ret@,
                0,
            ),
        decreases arms, 2int,
    {
        proof {
            lemma_vec_index_decreases(*arms);
        }
        let mut i: usize = 0;
        while i < arms.len()
            invariant
                i <= arms.len(),
                self.env == old(self).env,
                old(scope)@.len() > 0,
                scope@.len() == old(scope)@.len(),
                forall|j: int| 0 <= j < arms.len() ==> decreases_to!(*arms => arms@[j]),
                s_arms(self.em(), self.st(), scope@, arms@, sty@, ret@, i as int) == s_arms(
                    old(self).em(),
                    old(self).st(),
                    old(scope)@,
                    arms@,
                    sty@,
                    ret@,
                    0,
                ),
            decreases arms.len() - i,
        {
            self.scan_arm(&arms[i], sty, scope, ret);
            i += 1;
        }
    }

    /// Type-checks one match arm: binds the pattern's variables in a new frame, checks
    /// the guard, then the body's statements against `ret`.
    fn scan_arm(&mut self, arm: &MatchArm, sty: &Ty, scope: &mut Scope, ret: &Ty)
        requires
            old(scope)@.len() > 0,
        ensures
            final(self).env == old(self).env,
            final(scope)@.len() == old(scope)@.len(),
            (final(self).st(), final(scope)@) == s_arm(
                old(self).em(),
                old(self).st(),
                old(scope)@,
                *arm,
                sty@,
                ret@,
            ),
        decreases arm, 10int,
    {
        scope.push();
        self.bind_pat_vars(&arm.pat, sty, scope);
        if let Some(g) = &arm.guard {
            self.cond(g, "match guard", scope);
        }
        self.scan_block_stmts(&arm.body, scope, ret);
        scope.pop();
    }

    /// The value type of a block in expression position.
    fn infer_block_value_ty(&mut self, b: &Block, scope: &Scope) -> (r: Ty)
        requires
            scope@.len() > 0,
        ensures
            final(self).env == old(self).env,
            (final(self).st(), r@) == s_block_value(old(self).em(), old(self).st(), scope@, *b),
        decreases b, 10int,
    {
        let n = b.stmts.len();
        if n == 0 {
            return Ty::Unit;
        }
        proof {
            lemma_elems_decrease(*b, b.stmts);
        }
        let mut block_scope = scope.clone_scope();
        self.stmts_unit(b, n - 1, &mut block_scope);
        self.tail_value(&b.stmts[n - 1], &block_scope)
    }

    /// Checks the first `end` statements of a block as statements of a unit block.
    fn stmts_unit(&mut self, b: &Block, end: usize, scope: &mut Scope)
        requires
            old(scope)@.len() > 0,
            end <= b.stmts.len(),
        ensures
            final(self).env == old(self).env,
            final(scope)@.len() == old(scope)@.len(),
            (final(self).st(), final(scope)@) == s_stmts_unit(
                old(self).em(),
                old(self).st(),
                old(scope)@,
                b.stmts@,
                0,
                end as int,
            ),
        decreases b, 2int,
    {
        proof {
            lemma_elems_decrease(*b, b.stmts);
        }
        let mut i: usize = 0;
        while i < end
            invariant
                i <= end,
                end <= b.stmts.len(),
                self.env == old(self).env,
                old(scope)@.len() > 0,
                scope@.len() == old(scope)@.len(),
                forall|j: int| 0 <= j < b.stmts.len() ==> decreases_to!(*b => b.stmts@[j]),
                s_stmts_unit(self.em(), self.st(), scope@, b.stmts@, i as int, end as int)
                    == s_stmts_unit(old(self).em(), old(self).st(), old(scope)@, b.stmts@, 0, end as int),
            decreases end - i,
        {
            self.scan_stmt(&b.stmts[i], scope, &Ty::Unit);
            i += 1;
        }
    }

    /// The value type of a block's last statement.
    fn tail_value(&mut self, last: &Stmt, scope: &Scope) -> (r: Ty)
        requires
            scope@.len() > 0,
        ensures
            final(self).env == old(self).env,
            (final(self).st(), r@) == s_tail_value(old(self).em(), old(self).st(), scope@, *last),
        decreases last, 11int,
    {
        match &last.kind {
            StmtKind::Expr(x) => self.infer_expr(x, scope),
            StmtKind::Return(Some(x)) => self.infer_expr(x, scope),
            StmtKind::If { cond, then_block, else_block } => {
                self.cond(cond, "if condition", scope);
                let tt = self.infer_block_value_ty(then_block, scope);
                let et = match else_block {
                    Some(b) => self.infer_block_value_ty(b, scope),
                    None => Ty::Unit,
                };
                self.if_join(tt, &et, "if/else branch type mismatch: ")
            },
            StmtKind::Match { expr, arms, .. } => {
                let sty = self.infer_expr(expr, scope);
                proof {
                    lemma_elems_decrease(last.kind, *arms);
                }
                self.arm_values(arms, &sty, scope)
            },
            StmtKind::Loop(body) => match self.find_break(body, scope) {
                Some(t) => t,
                None => Ty::Unit,
            },
            _ => {
                let mut sc = scope.clone_scope();
                self.scan_stmt(last, &mut sc, &Ty::Unit);
                Ty::Unit
            },
        }
    }

    /// The value types of match arms: the first arm fixes the result type and each
    /// later one must be compatible with it.
    fn arm_values(&mut self, arms: &Vec<MatchArm>, sty: &Ty, scope: &Scope) -> (r: Ty)
        requires
            scope@.len() > 0,
                    ensures
            final(self).env == old(self).env,
            (final(self).st(), r@) == s_arm_values(
                old(self).em(),
                old(self).st(),
                scope@,
                arms@,
                sty@,
                None,
                0,
            ),
        decreases arms, 2int,
    {
        proof {
            lemma_vec_index_decreases(*arms);
        }
        let mut result: Option<Ty> = None;
        let mut i: usize = 0;
        while i < arms.len()
            invariant
                i <= arms.len(),
                self.env == old(self).env,
                scope@.len() > 0,
                forall|j: int| 0 <= j < arms.len() ==> decreases_to!(*arms => arms@[j]),
                s_arm_values(self.em(), self.st(), scope@, arms@, sty@, opt_ty_view(result), i as int)
                    == s_arm_values(old(self).em(), old(self).st(), scope@, arms@, sty@, None, 0),
            decreases arms.len() - i,
        {
            let at = self.infer_arm_value_ty(&arms[i], sty, scope);
            if result.is_none() {
                result = Some(at);
            } else {
                match &result {
                    Some(rt) => {
                        if !ty_compat(&at, rt) && !ty_compat(rt, &at) {
                            let mut m = String::from_str("match arms have incompatible types: ");
                            add_ty(&mut m, rt);
                            m.append(" vs ");
                            add_ty(&mut m, &at);
                            self.err(m);
                        }
                    },
                    None => {},
                }
            }
            i += 1;
        }
        match result {
            Some(rt) => rt,
            None => Ty::Unit,
        }
    }

    /// The value type of a match arm body, with the arm's enum-variant bindings in scope.
    fn infer_arm_value_ty(&mut self, arm: &MatchArm, sty: &Ty, scope: &Scope) -> (r: Ty)
        requires
            scope@.len() > 0,
        ensures
            final(self).env == old(self).env,
            (final(self).st(), r@) == s_arm_value(old(self).em(), old(self).st(), scope@, *arm, sty@),
        decreases arm, 10int,
    {
        let mut arm_scope = scope.clone_scope();
        arm_scope.push();
        self.arm_bindings(&arm.pat, &mut arm_scope);
        self.infer_block_value_ty(&arm.body, &arm_scope)
    }

    /// The type of the first `break value` among a block's statements, looking into
    /// `if` branches.
    fn find_break(&mut self, b: &Block, scope: &Scope) -> (r: Option<Ty>)
        requires
            scope@.len() > 0,
        ensures
            final(self).env == old(self).env,
            (final(self).st(), opt_ty_view(r)) == s_find_break(
                old(self).em(),
                old(self).st(),
                scope@,
                b.stmts@,
                0,
            ),
        decreases b, 3int,
    {
        proof {
            lemma_elems_decrease(*b, b.stmts);
        }
        let mut i: usize = 0;
        while i < b.stmts.len()
            invariant
                i <= b.stmts.len(),
                self.env == old(self).env,
                scope@.len() > 0,
                forall|j: int| 0 <= j < b.stmts.len() ==> decreases_to!(*b => b.stmts@[j]),
                s_find_break(self.em(), self.st(), scope@, b.stmts@, i as int) == s_find_break(
                    old(self).em(),
                    old(self).st(),
                    scope@,
                    b.stmts@,
                    0,
                ),
            decreases b.stmts.len() - i,
        {
            match &b.stmts[i].kind {
                StmtKind::Break(Some(v)) => {
                    let t = self.infer_expr(v, scope);
                    return Some(t);
                },
                StmtKind::If { then_block, else_block, .. } => {
                    let t1 = self.find_break(then_block, scope);
                    if t1.is_some() {
                        return t1;
                    }
                    if let Some(eb) = else_block {
                        let t2 = self.find_break(eb, scope);
                        if t2.is_some() {
                            return t2;
                        }
                    }
                },
                _ => {},
            }
            i += 1;
        }
        None
    }

    /// The value type of an `unsafe` block.
    fn unsafe_value(&mut self, b: &Block, scope: &Scope) -> (r: Ty)
        requires
            scope@.len() > 0,
        ensures
            final(self).env == old(self).env,
            (final(self).st(), r@) == s_unsafe_value(old(self).em(), old(self).st(), scope@, *b),
        decreases b, 10int,
    {
        let n = b.stmts.len();
        if n == 0 {
            return Ty::Unit;
        }
        proof {
            lemma_elems_decrease(*b, b.stmts);
        }
        let mut sc = scope.clone_scope();
        self.stmts_unit(b, n - 1, &mut sc);
        let last = &b.stmts[n - 1];
        match &last.kind {
            StmtKind::Expr(x) => {
                self.cur_loc = last.loc;
                self.infer_expr(x, &sc)
            },
            StmtKind::Return(Some(x)) => {
                self.cur_loc = last.loc;
                self.infer_expr(x, &sc)
            },
            _ => {
                self.scan_stmt(last, &mut sc, &Ty::Unit);
                Ty::Unit
            },
        }
    }

    /// Binds the variables of an enum-variant pattern for a value-producing arm.
    fn arm_bindings(&self, pat: &Pat, scope: &mut Scope)
        requires
            old(scope)@.len() > 0,
        ensures
            final(scope)@.len() == old(scope)@.len(),
            final(scope)@ == s_arm_bindings(self.em(), old(scope)@, *pat),
    {
        let env = self.env;
        if let Pat::EnumVariant { ty_name, variant, bindings } = pat {
            if let Some(edecl) = env.enums.get(ty_name.as_str()) {
                if let Some(k) = find_variant_idx(&edecl.variants, variant) {
                    match (bindings, &edecl.variants[k].fields) {
                        (PatBindings::Tuple(pats), VariantFields::Tuple(tys)) => {
                            proof {
                                lemma_tys_view(tys@);
                            }
                            let mut i: usize = 0;
                            while i < pats.len() && i < tys.len()
                                invariant
                                    i <= pats.len(),
                                    old(scope)@.len() > 0,
                                    scope@.len() == old(scope)@.len(),
                                    tys_view(tys@).len() == tys.len(),
                                    forall|j: int| 0 <= j < tys.len() ==> #[trigger] tys_view(tys@)[j] == tys@[j]@,
                                    arm_tuple_binds(scope@, pats@, tys_view(tys@), i as int)
                                        == arm_tuple_binds(old(scope)@, pats@, tys_view(tys@), 0),
                                decreases pats.len() - i,
                            {
                                if let Pat::Binding(name) = &pats[i] {
                                    if !str_eq(name.as_str(), "_") {
                                        scope.insert(name.clone(), tys[i].clone_ty(), false);
                                    }
                                }
                                i += 1;
                            }
                        },
                        (PatBindings::Named(fields, _), VariantFields::Named(decl)) => {
                            let mut i: usize = 0;
                            while i < fields.len()
                                invariant
                                    i <= fields.len(),
                                    old(scope)@.len() > 0,
                                    scope@.len() == old(scope)@.len(),
                                    arm_named_binds(scope@, fields@, decl@, i as int)
                                        == arm_named_binds(old(scope)@, fields@, decl@, 0),
                                decreases fields.len() - i,
                            {
                                if let Some(k2) = find_field_idx(decl, &fields[i].0) {
                                    scope.insert(fields[i].1.clone(), decl[k2].ty.clone_ty(), false);
                                }
                                i += 1;
                            }
                        },
                        _ => {},
                    }
                }
            }
        }
    }
}


/// The model of an optional string argument.
pub open spec fn opt_str(s: Option<&String>) -> Option<Seq<char>> {
    match s {
        Some(x) => Some(x@),
        None => None,
    }
}

/// Whether a block definitely produces a value on all paths.
fn block_definitely_returns(b: &Block) -> (r: bool)
    ensures
        r == definitely_returns(*b),
    decreases b, 1int,
{
    let n = b.stmts.len();
    if n == 0 {
        return false;
    }
    proof {
        lemma_elems_decrease(*b, b.stmts);
    }
    match &b.stmts[n - 1].kind {
        StmtKind::Return(_) => true,
        StmtKind::Expr(_) => true,
        StmtKind::If { then_block, else_block: Some(eb), .. } => {
            block_definitely_returns(then_block) && block_definitely_returns(eb)
        },
        StmtKind::Match { arms, .. } => arms.len() > 0 && all_arms_definitely_return(arms),
        StmtKind::Loop(_) => true,
        _ => false,
    }
}

fn all_arms_definitely_return(arms: &Vec<MatchArm>) -> (r: bool)
    ensures
        r == all_arms_return(arms@, 0),
    decreases arms, 0int,
{
    proof {
        lemma_vec_index_decreases(*arms);
    }
    let mut i: usize = 0;
    while i < arms.len()
        invariant
            i <= arms.len(),
            forall|j: int| 0 <= j < arms.len() ==> decreases_to!(*arms => arms@[j]),
            all_arms_return(arms@, 0) == all_arms_return(arms@, i as int),
        decreases arms.len() - i,
    {
        if !block_definitely_returns(&arms[i].body) {
            return false;
        }
        i += 1;
    }
    true
}

impl<'a, 'b> TypeChecker<'a, 'b> {
    /// Type-checks one function or method body, the signature being `f`'s and the body
    /// `body`, and fills in the types the body leaves to inference; `impl_type` is the
    /// mangled name of the implementing type for methods (it resolves `Self` and types
    /// the receiver).
    fn check_fn(&mut self, f: &FnDecl, body: &mut Block, impl_type: Option<&String>)
        ensures
            final(self).env == old(self).env,
            final(self).st() == s_check_fn(
                old(self).em(),
                old(self).st(),
                FnDecl { body: *old(body), ..*f },
                opt_str(impl_type),
            ),
            ann_fn(
                old(self).em(),
                old(self).st(),
                FnDecl { body: *old(body), ..*f },
                *final(body),
                opt_str(impl_type),
            ),
    {
        let ghost fo = FnDecl { body: *body, ..*f };
        self.in_unsafe = false;
        let ret = match impl_type {
            Some(itype) => f.return_ty.resolve_self(itype),
            None => f.return_ty.clone_ty(),
        };
        let mut scope = Scope::new();
        if let Some(recv) = &f.receiver {
            if let Some(itype) = impl_type {
                let named = Ty::Named(to_owned(itype.as_str()));
                assert(named@ == TyM::Named(itype@));
                let self_ty = match recv {
                    Receiver::Value => named,
                    Receiver::Ref => Ty::Ref(Box::new(named)),
                    Receiver::RefMut => Ty::RefMut(Box::new(named)),
                };
                scope.insert(String::from_str("self"), self_ty, false);
            }
        }
        let ghost sc1 = scope@;
        let mut i: usize = 0;
        while i < f.params.len()
            invariant
                i <= f.params.len(),
                scope@.len() == 1,
                params_scope(scope@, f.params@, opt_str(impl_type), i as int) == params_scope(
                    sc1,
                    f.params@,
                    opt_str(impl_type),
                    0,
                ),
            decreases f.params.len() - i,
        {
            let t = match impl_type {
                Some(itype) => f.params[i].ty.resolve_self(itype),
                None => f.params[i].ty.clone_ty(),
            };
            scope.insert(f.params[i].name.clone(), t, false);
            i += 1;
        }
        assert(scope@ == fn_scope(fo, opt_str(impl_type)));
        let ends_in_return = block_definitely_returns(body);
        self.check_block_stmts(body, &mut scope, &ret);
        if needs_value_exec(&ret) && !ends_in_return {
            self.cur_loc = f.loc;
            let mut m = String::from_str("function ");
            add_q(&mut m, f.name.as_str());
            m.append(" may not return a value (expected ");
            add_ty(&mut m, &ret);
            m.append(")");
            self.err(m);
        }
    }

    /// Type-checks the methods `ms`, whose bodies are `bodies[k..]` in order (the
    /// bodies that `orig`, the methods as written, hold).
    fn check_methods(
        &mut self,
        ms: &Vec<FnDecl>,
        bodies: &mut Vec<Block>,
        k: usize,
        itype: &String,
        Ghost(orig): Ghost<Seq<FnDecl>>,
    ) -> (r: usize)
        requires
            same_sig_fns(orig, ms@),
            k + ms.len() <= old(bodies)@.len(),
            forall|j: int| 0 <= j < ms.len() ==> old(bodies)@[k + j] == (#[trigger] orig[j]).body,
        ensures
            final(self).env == old(self).env,
            r == k + ms.len(),
            final(bodies)@.len() == old(bodies)@.len(),
            forall|j: int| 0 <= j < old(bodies)@.len() && !(k <= j < r) ==> final(bodies)@[j] == old(bodies)@[j],
            final(self).st() == s_check_methods(old(self).em(), old(self).st(), orig, itype@, 0),
            forall|nb: Seq<Block>|
                (forall|j: int| k <= j < r ==> nb[j] == final(bodies)@[j]) ==> #[trigger] ann_methods(
                    old(self).em(),
                    old(self).st(),
                    orig,
                    nb,
                    k as int,
                    itype@,
                    0,
                ),
    {
        let ghost e0 = self.em();
        let ghost st0 = self.st();
        let ghost b0 = bodies@;
        let blen = bodies.len();
        let len = ms.len();
        let mut i: usize = 0;
        while i < len
            invariant
                len == ms.len(),
                same_sig_fns(orig, ms@),
                k + len <= b0.len(),
                b0.len() == blen,
                forall|j: int| 0 <= j < len ==> b0[k + j] == (#[trigger] orig[j]).body,
                bodies@.len() == b0.len(),
                i <= len,
                self.env == old(self).env,
                e0 == self.em(),
                forall|j: int| 0 <= j < b0.len() && !(k <= j < k + i) ==> bodies@[j] == b0[j],
                s_check_methods(self.em(), self.st(), orig, itype@, i as int) == s_check_methods(
                    e0,
                    st0,
                    orig,
                    itype@,
                    0,
                ),
                forall|nb: Seq<Block>|
                    #![trigger ann_methods(e0, self.st(), orig, nb, k + i, itype@, i as int)]
                    (forall|j: int| k <= j < k + i ==> nb[j] == bodies@[j]) && ann_methods(
                        e0,
                        self.st(),
                        orig,
                        nb,
                        k + i,
                        itype@,
                        i as int,
                    ) ==> ann_methods(e0, st0, orig, nb, k as int, itype@, 0),
            decreases len - i,
        {
            let ghost st_i = self.st();
            let ghost b_i = bodies@;
            proof {
                assert(same_sig(orig[i as int], ms@[i as int]));
                assert(orig[i as int] == (FnDecl { body: b_i[k + i], ..ms@[i as int] }));
            }
            self.check_fn(&ms[i], &mut bodies[k + i], Some(itype));
            proof {
                assert forall|nb: Seq<Block>|
                    (forall|j: int| k <= j < k + i + 1 ==> nb[j] == bodies@[j]) && ann_methods(
                        e0,
                        self.st(),
                        orig,
                        nb,
                        k + i + 1,
                        itype@,
                        i + 1,
                    ) implies ann_methods(e0, st0, orig, nb, k as int, itype@, 0) by {
                    assert(nb[k + i] == bodies@[k + i]);
                    assert(ann_methods(e0, st_i, orig, nb, k + i, itype@, i as int));
                    assert(forall|j: int| k <= j < k + i ==> nb[j] == b_i[j]);
                }
            }
            i += 1;
        }
        proof {
            assert forall|nb: Seq<Block>|
                (forall|j: int| k <= j < k + len ==> nb[j] == bodies@[j]) implies #[trigger] ann_methods(
                    e0,
                    st0,
                    orig,
                    nb,
                    k as int,
                    itype@,
                    0,
                ) by {
                assert(ann_methods(e0, self.st(), orig, nb, k + len, itype@, len as int));
            }
        }
        k + len
    }

    /// Type-checks the function bodies of the item `x` (the item as written being
    /// `orig`, whose bodies have been set aside in `bodies[c..]`, in order), and fills in
    /// the types they leave to inference. Returns the index past the last body used.
    #[verifier::spinoff_prover]
    #[verifier::rlimit(60)]
    fn check_item(
        &mut self,
        x: &Item,
        bodies: &mut Vec<Block>,
        c: usize,
        prefix: &String,
        Ghost(orig): Ghost<Item>,
    ) -> (r: usize)
        requires
            same_sig_item(orig, *x),
            c + flat_item(orig).len() <= old(bodies)@.len(),
            old(bodies)@.subrange(c as int, c + flat_item(orig).len()) == flat_item(orig),
        ensures
            final(self).env == old(self).env,
            r == c + flat_item(orig).len(),
            final(bodies)@.len() == old(bodies)@.len(),
            forall|j: int| 0 <= j < old(bodies)@.len() && !(c <= j < r) ==> final(bodies)@[j] == old(bodies)@[j],
            final(self).st() == s_check_item(old(self).em(), old(self).st(), orig, prefix@),
            forall|nb: Seq<Block>|
                (forall|j: int| c <= j < r ==> nb[j] == final(bodies)@[j]) ==> #[trigger] ann_item(
                    old(self).em(),
                    old(self).st(),
                    orig,
                    nb,
                    c as int,
                    prefix@,
                ),
        decreases orig, 1int,
    {
        let ghost b0 = bodies@;
        let ghost fl = flat_item(orig);
        let ghost e0 = self.em();
        let ghost st0 = self.st();
        let ghost stp = TcSt { cur_mod: prefix@, ..st0 };
        let bl = bodies.len();
        match x {
            Item::Fn(f) => {
                proof {
                    assert(fl.len() == 1);
                    assert(bodies@[c as int] == bodies@.subrange(c as int, c + fl.len())[0]);
                    assert(orig == Item::Fn(FnDecl { body: b0[c as int], ..*f }));
                }
                let saved = to_owned(self.cur_mod.as_str());
                self.cur_mod = to_owned(prefix.as_str());
                assert(self.st() == stp);
                self.check_fn(f, &mut bodies[c], None);
                self.cur_mod = saved;
                proof {
                    assert forall|nb: Seq<Block>|
                        (forall|j: int| c <= j < c + 1 ==> nb[j] == bodies@[j]) implies #[trigger] ann_item(
                            e0,
                            st0,
                            orig,
                            nb,
                            c as int,
                            prefix@,
                        ) by {
                        assert(nb[c as int] == bodies@[c as int]);
                    }
                }
                c + 1
            },
            Item::Impl(imp) => {
                let ghost om = orig->Impl_0.methods@;
                proof {
                    lemma_flat_fns(om, 0);
                    assert forall|j: int| 0 <= j < imp.methods.len() implies b0[c + j] == (#[trigger] om[j]).body by {
                        assert(b0[c + j] == b0.subrange(c as int, c + fl.len())[j]);
                    }
                }
                let ty_name = cat(prefix.as_str(), imp.ty_name.as_str());
                let saved = to_owned(self.cur_mod.as_str());
                self.cur_mod = to_owned(prefix.as_str());
                assert(self.st() == stp);
                let r = self.check_methods(&imp.methods, bodies, c, &ty_name, Ghost(om));
                self.cur_mod = saved;
                proof {
                    assert(ty_name@ == prefix@ + orig->Impl_0.ty_name@);
                    assert forall|nb: Seq<Block>|
                        (forall|j: int| c <= j < r ==> nb[j] == bodies@[j]) implies #[trigger] ann_item(
                            e0,
                            st0,
                            orig,
                            nb,
                            c as int,
                            prefix@,
                        ) by {
                        assert(ann_methods(e0, stp, om, nb, c as int, ty_name@, 0));
                    }
                }
                r
            },
            Item::Mod { name, items: sub, .. } => {
                let ghost os = orig->Mod_items@;
                let p = cat3(prefix.as_str(), name.as_str(), "_");
                proof {
                    assert(p@ == prefix@ + orig->Mod_name@ + "_"@);
                    assert(decreases_to!(orig => os));
                }
                let r = self.check_items(sub, bodies, c, &p, Ghost(os));
                proof {
                    assert forall|nb: Seq<Block>|
                        (forall|j: int| c <= j < r ==> nb[j] == bodies@[j]) implies #[trigger] ann_item(
                            e0,
                            st0,
                            orig,
                            nb,
                            c as int,
                            prefix@,
                        ) by {
                        assert(ann_items(e0, st0, os, nb, c as int, p@, 0));
                    }
                }
                r
            },
            _ => {
                proof {
                    assert(!(orig is Fn) && !(orig is Impl) && !(orig is Mod));
                    assert(b0.subrange(c as int, c as int) =~= fl);
                }
                c
            },
        }
    }

    /// Type-checks the function bodies of `items` (the items as written being `orig`,
    /// whose bodies have been set aside in `bodies[k..]`, in order), and fills in the
    /// types they leave to inference. `prefix` is the module path (e.g. `"math_"`), which
    /// becomes `cur_mod` so that visibility is judged from there. Returns the index past
    /// the last body used.
    pub fn check_items(
        &mut self,
        items: &Vec<Item>,
        bodies: &mut Vec<Block>,
        k: usize,
        prefix: &String,
        Ghost(orig): Ghost<Seq<Item>>,
    ) -> (r: usize)
        requires
            orig.len() == items@.len(),
            same_sig_items(orig, items@, 0),
            k + flat_items(orig, 0).len() <= old(bodies)@.len(),
            old(bodies)@.subrange(k as int, k + flat_items(orig, 0).len()) == flat_items(orig, 0),
        ensures
            final(self).env == old(self).env,
            r == k + flat_items(orig, 0).len(),
            final(bodies)@.len() == old(bodies)@.len(),
            forall|j: int| 0 <= j < old(bodies)@.len() && !(k <= j < r) ==> final(bodies)@[j] == old(bodies)@[j],
            final(self).st() == s_check_items(old(self).em(), old(self).st(), orig, prefix@, 0),
            forall|nb: Seq<Block>|
                (forall|j: int| k <= j < r ==> nb[j] == final(bodies)@[j]) ==> #[trigger] ann_items(
                    old(self).em(),
                    old(self).st(),
                    orig,
                    nb,
                    k as int,
                    prefix@,
                    0,
                ),
        decreases orig, 0int,
    {
        let ghost e0 = self.em();
        let ghost st0 = self.st();
        let ghost b0 = bodies@;
        let ghost n = flat_items(orig, 0).len();
        let len = items.len();
        let mut c: usize = k;
        let mut i: usize = 0;
        while i < len
            invariant
                len == items@.len(),
                orig.len() == len,
                n == flat_items(orig, 0).len(),
                k + n <= b0.len(),
                k <= c <= k + n,
                c + flat_items(orig, i as int).len() == k + n,
                bodies@.len() == b0.len(),
                bodies@.subrange(c as int, k + n) == flat_items(orig, i as int),
                i <= len,
                same_sig_items(orig, items@, i as int),
                self.env == old(self).env,
                e0 == self.em(),
                forall|j: int| 0 <= j < b0.len() && !(k <= j < c) ==> bodies@[j] == b0[j],
                s_check_items(self.em(), self.st(), orig, prefix@, i as int) == s_check_items(
                    e0,
                    st0,
                    orig,
                    prefix@,
                    0,
                ),
                forall|nb: Seq<Block>|
                    #![trigger ann_items(e0, self.st(), orig, nb, c as int, prefix@, i as int)]
                    (forall|j: int| k <= j < c ==> nb[j] == bodies@[j]) && ann_items(
                        e0,
                        self.st(),
                        orig,
                        nb,
                        c as int,
                        prefix@,
                        i as int,
                    ) ==> ann_items(e0, st0, orig, nb, k as int, prefix@, 0),
            decreases len - i,
        {
            let ghost st_i = self.st();
            let ghost b_i = bodies@;
            let ghost c_i = c as int;
            let ghost fl = flat_item(orig[i as int]);
            proof {
                assert(flat_items(orig, i as int) == fl + flat_items(orig, i + 1));
                assert(bodies@.subrange(c_i, c_i + fl.len()) =~= bodies@.subrange(c_i, k + n).subrange(
                    0,
                    fl.len() as int,
                ));
                assert((fl + flat_items(orig, i + 1)).subrange(0, fl.len() as int) =~= fl);
                assert(bodies@.subrange(c_i, c_i + fl.len()) == fl);
                assert(decreases_to!(orig => orig[i as int]));
            }
            let next = self.check_item(&items[i], bodies, c, prefix, Ghost(orig[i as int]));
            proof {
                assert(bodies@.subrange(next as int, k + n) =~= b_i.subrange(c_i, k + n).subrange(
                    fl.len() as int,
                    k + n - c_i,
                ));
                assert forall|nb: Seq<Block>|
                    (forall|j: int| k <= j < next ==> nb[j] == bodies@[j]) && ann_items(
                        e0,
                        self.st(),
                        orig,
                        nb,
                        next as int,
                        prefix@,
                        i + 1,
                    ) implies ann_items(e0, st0, orig, nb, k as int, prefix@, 0) by {
                    assert(ann_item(e0, st_i, orig[i as int], nb, c_i, prefix@));
                    assert(ann_items(e0, st_i, orig, nb, c_i, prefix@, i as int));
                    assert(forall|j: int| k <= j < c_i ==> nb[j] == b_i[j]);
                }
            }
            c = next;
            i += 1;
        }
        proof {
            assert forall|nb: Seq<Block>|
                (forall|j: int| k <= j < c ==> nb[j] == bodies@[j]) implies #[trigger] ann_items(
                    e0,
                    st0,
                    orig,
                    nb,
                    k as int,
                    prefix@,
                    0,
                ) by {
                assert(ann_items(e0, self.st(), orig, nb, c as int, prefix@, len as int));
            }
        }
        c
    }

    fn validate_params(&mut self, ps: &Vec<Param>)
        ensures
            final(self).env == old(self).env,
            final(self).st() == s_validate_params(old(self).em(), old(self).st(), ps@, 0),
    {
        let mut i: usize = 0;
        while i < ps.len()
            invariant
                i <= ps.len(),
                self.env == old(self).env,
                s_validate_params(self.em(), self.st(), ps@, i as int) == s_validate_params(
                    old(self).em(),
                    old(self).st(),
                    ps@,
                    0,
                ),
            decreases ps.len() - i,
        {
            self.validate_ty(&ps[i].ty);
            i += 1;
        }
    }

    fn validate_fields(&mut self, fs: &Vec<FieldDecl>)
        ensures
            final(self).env == old(self).env,
            final(self).st() == s_validate_fields(old(self).em(), old(self).st(), fs@, 0),
    {
        let mut i: usize = 0;
        while i < fs.len()
            invariant
                i <= fs.len(),
                self.env == old(self).env,
                s_validate_fields(self.em(), self.st(), fs@, i as int) == s_validate_fields(
                    old(self).em(),
                    old(self).st(),
                    fs@,
                    0,
                ),
            decreases fs.len() - i,
        {
            self.validate_ty(&fs[i].ty);
            i += 1;
        }
    }

    fn validate_variants(&mut self, vs: &Vec<EnumVariant>)
        ensures
            final(self).env == old(self).env,
            final(self).st() == s_validate_variants(old(self).em(), old(self).st(), vs@, 0),
    {
        let mut i: usize = 0;
        while i < vs.len()
            invariant
                i <= vs.len(),
                self.env == old(self).env,
                s_validate_variants(self.em(), self.st(), vs@, i as int) == s_validate_variants(
                    old(self).em(),
                    old(self).st(),
                    vs@,
                    0,
                ),
            decreases vs.len() - i,
        {
            match &vs[i].fields {
                VariantFields::Tuple(tys) => {
                    let ghost st0 = self.st();
                    let mut j: usize = 0;
                    proof {
                        lemma_tys_view(tys@);
                    }
                    while j < tys.len()
                        invariant
                            j <= tys.len(),
                            self.env == old(self).env,
                            tys_view(tys@).len() == tys.len(),
                            forall|k: int| 0 <= k < tys.len() ==> #[trigger] tys_view(tys@)[k] == tys@[k]@,
                            s_validate_tys(self.em(), self.st(), tys_view(tys@), j as int)
                                == s_validate_tys(self.em(), st0, tys_view(tys@), 0),
                        decreases tys.len() - j,
                    {
                        self.validate_ty(&tys[j]);
                        j += 1;
                    }
                },
                VariantFields::Named(fs) => self.validate_fields(fs),
                VariantFields::Unit => {},
            }
            i += 1;
        }
    }

    /// Reports each required trait method (one without a default body) that the impl
    /// does not provide.
    fn missing_methods(&mut self, sigs: &Vec<TraitMethod>, provided: &Vec<FnDecl>, tr: &String, ty: &String)
        ensures
            final(self).env == old(self).env,
            final(self).st() == s_missing_methods(old(self).st(), sigs@, provided@, tr@, ty@, 0),
    {
        let mut i: usize = 0;
        while i < sigs.len()
            invariant
                i <= sigs.len(),
                self.env == old(self).env,
                s_missing_methods(self.st(), sigs@, provided@, tr@, ty@, i as int)
                    == s_missing_methods(old(self).st(), sigs@, provided@, tr@, ty@, 0),
            decreases sigs.len() - i,
        {
            if sigs[i].body.is_none() && !has_fn_named_exec(provided, &sigs[i].name) {
                let mut m = String::from_str("`impl ");
                m.append(tr.as_str());
                m.append(" for ");
                m.append(ty.as_str());
                m.append("` missing method ");
                add_q(&mut m, sigs[i].name.as_str());
                self.err(m);
            }
            i += 1;
        }
    }

    fn validate_sigs(&mut self, ms: &Vec<FnDecl>)
        ensures
            final(self).env == old(self).env,
            final(self).st() == s_validate_sigs(old(self).em(), old(self).st(), ms@, 0),
    {
        let mut i: usize = 0;
        while i < ms.len()
            invariant
                i <= ms.len(),
                self.env == old(self).env,
                s_validate_sigs(self.em(), self.st(), ms@, i as int) == s_validate_sigs(
                    old(self).em(),
                    old(self).st(),
                    ms@,
                    0,
                ),
            decreases ms.len() - i,
        {
            self.cur_loc = ms[i].loc;
            self.validate_params(&ms[i].params);
            self.validate_ty(&ms[i].return_ty);
            i += 1;
        }
    }

    fn validate_trait_sigs(&mut self, ms: &Vec<TraitMethod>)
        ensures
            final(self).env == old(self).env,
            final(self).st() == s_validate_trait_sigs(old(self).em(), old(self).st(), ms@, 0),
    {
        let mut i: usize = 0;
        while i < ms.len()
            invariant
                i <= ms.len(),
                self.env == old(self).env,
                s_validate_trait_sigs(self.em(), self.st(), ms@, i as int) == s_validate_trait_sigs(
                    old(self).em(),
                    old(self).st(),
                    ms@,
                    0,
                ),
            decreases ms.len() - i,
        {
            self.validate_params(&ms[i].params);
            self.validate_ty(&ms[i].return_ty);
            i += 1;
        }
    }

    fn validate_externs(&mut self, fs: &Vec<ExternFn>)
        ensures
            final(self).env == old(self).env,
            final(self).st() == s_validate_externs(old(self).em(), old(self).st(), fs@, 0),
    {
        let mut i: usize = 0;
        while i < fs.len()
            invariant
                i <= fs.len(),
                self.env == old(self).env,
                s_validate_externs(self.em(), self.st(), fs@, i as int) == s_validate_externs(
                    old(self).em(),
                    old(self).st(),
                    fs@,
                    0,
                ),
            decreases fs.len() - i,
        {
            self.cur_loc = fs[i].loc;
            self.validate_params(&fs[i].params);
            self.validate_ty(&fs[i].return_ty);
            i += 1;
        }
    }

    /// Validates the declarations of one item of the module whose path is `prefix`.
    fn validate_item(&mut self, item: &Item, prefix: &String)
        ensures
            final(self).env == old(self).env,
            final(self).st() == s_validate_item(old(self).em(), old(self).st(), *item, prefix@),
        decreases item, 2int,
    {
        let env = self.env;
        match item {
            Item::Struct(s) => {
                self.cur_loc = s.loc;
                self.validate_fields(&s.fields);
            },
            Item::Enum(en) => {
                self.cur_loc = en.loc;
                self.validate_variants(&en.variants);
            },
            Item::TypeAlias { ty, .. } => self.validate_ty(ty),
            Item::Fn(f) => {
                self.cur_loc = f.loc;
                self.validate_params(&f.params);
                self.validate_ty(&f.return_ty);
            },
            Item::Impl(imp) => {
                let mangled = cat(prefix.as_str(), imp.ty_name.as_str());
                if !env.structs.contains_key(mangled.as_str()) && !env.enums.contains_key(
                    mangled.as_str(),
                ) {
                    let mut m = String::from_str("impl for unknown type ");
                    add_q(&mut m, imp.ty_name.as_str());
                    self.err(m);
                }
                if let Some(tn) = &imp.trait_name {
                    match env.traits.get(tn.as_str()) {
                        Some(tr) => self.missing_methods(&tr.methods, &imp.methods, tn, &imp.ty_name),
                        None => {
                            let mut m = String::from_str("unknown trait ");
                            add_q(&mut m, tn.as_str());
                            self.err(m);
                        },
                    }
                }
                self.validate_sigs(&imp.methods);
            },
            Item::Trait(t) => self.validate_trait_sigs(&t.methods),
            Item::Mod { name, items, .. } => {
                let p = cat3(prefix.as_str(), name.as_str(), "_");
                self.validate_items(items, &p);
                self.cur_mod = to_owned(prefix.as_str());
            },
            Item::ExternBlock(fs) => self.validate_externs(fs),
            Item::Skip => {},
            Item::Const { ty, .. } => self.validate_ty(ty),
            Item::Static { ty, .. } => self.validate_ty(ty),
        }
    }

    /// Walks all item declarations of a module and verifies that every named type
    /// reference resolves to a known, accessible type and that impl targets exist.
    fn validate_items(&mut self, items: &Vec<Item>, prefix: &String)
        ensures
            final(self).env == old(self).env,
            final(self).st() == s_validate_items(old(self).em(), old(self).st(), items@, prefix@),
        decreases items, 1int,
    {
        proof {
            lemma_vec_index_decreases(*items);
        }
        let saved = to_owned(self.cur_mod.as_str());
        self.cur_mod = to_owned(prefix.as_str());
        let ghost st1 = self.st();
        let mut i: usize = 0;
        while i < items.len()
            invariant
                i <= items.len(),
                self.env == old(self).env,
                forall|j: int| 0 <= j < items.len() ==> decreases_to!(*items => items@[j]),
                s_validate_item_list(self.em(), self.st(), items@, prefix@, i as int)
                    == s_validate_item_list(self.em(), st1, items@, prefix@, 0),
            decreases items.len() - i,
        {
            self.validate_item(&items[i], prefix);
            i += 1;
        }
        self.cur_mod = saved;
    }

    /// The first part of phase 1 on a whole file: the declarations.
    pub fn validate_file(&mut self, file: &File)
        ensures
            final(self).env == old(self).env,
            final(self).st() == s_validate_items(old(self).em(), old(self).st(), file.items@, Seq::empty()),
    {
        let root = String::new();
        proof {
            assert(root@ == Seq::<char>::empty());
        }
        self.validate_items(&file.items, &root);
    }
}

} // verus!
