//! Type and (minimal) borrow checker.
//!
//! Sits between the parser and the code generator:
//!   source -> lexer -> parser -> [type_checker] -> codegen -> C
//!
//! Phase 1, the type checker, builds a global [`TyEnv`] from all item declarations and
//! then walks every function body, checking that expressions, calls, assignments, match
//! arms and return statements are type-consistent, that named types exist, that
//! non-unit functions return on all paths, and that private module items are not used
//! from outside their module. It writes the types it infers into the statements that leave
//! them out: a `let` or `let` pattern without a type, a `for` loop's iterator and
//! element, a `match` scrutinee, and the matched value of `if let` and `while let`.
//! Statements inside expressions (a `loop`, block or `unsafe` block used as a value) and
//! the annotations of expressions themselves (a `loop`'s result type, a `match` or
//! `if let` in value position) are checked but not filled in.
//!
//! Phase 2, the borrow checker, runs only when phase 1 found no error. It rejects
//! assignment to immutable bindings, `&mut` of immutable bindings, conflicting borrows
//! of one variable within a single statement, and use of a variable of a named (non-Copy)
//! type after it was moved.
pub mod types;
pub mod scope;
pub mod tc_spec;
pub mod tc;
pub mod borrow;




use crate::ast::{
    Block, EnumDecl, EnumVariant, ExternFn, FieldDecl, File, FnDecl, Item, Param, StructDecl, TraitDecl,
    Ty, TyM, VariantFields, lemma_resolve_self_seq, lemma_tys_view, resolve_self_m,
    resolve_self_seq, tys_view,
};
use crate::error::{Error, ErrM};
use crate::loc::Loc;
use self::borrow::{BcSt, BorrowChecker, b_check_file};
use self::tc::{TypeChecker, errs_view};
use self::tc_spec::{
    TcSt, ann_file, flat_fns, flat_item, flat_items, lemma_flat_fns, s_check_file, same_sig,
    same_sig_fns, same_sig_item, same_sig_items,
};
use crate::names::{NameMap, NameSet};
use crate::text::{cat, cat3, str_eq, to_owned};
use vstd::prelude::*;

pub use self::types::ty_display;

verus! {

/// The mathematical model of the global type environment.
#[verifier::ext_equal]
pub struct EnvM {
    pub structs: Map<Seq<char>, StructDecl>,
    pub enums: Map<Seq<char>, EnumDecl>,
    /// Mangled name -> (explicit parameter types, return type).
    pub fns: Map<Seq<char>, (Seq<TyM>, TyM)>,
    pub aliases: Map<Seq<char>, TyM>,
    pub traits: Map<Seq<char>, TraitDecl>,
    pub item_module: Map<Seq<char>, Seq<char>>,
    pub pub_items: Set<Seq<char>>,
    pub pub_fields: Map<Seq<char>, Set<Seq<char>>>,
    pub extern_fns: Set<Seq<char>>,
    pub variadic_fns: Set<Seq<char>>,
    pub consts: Map<Seq<char>, TyM>,
    pub tuple_structs: Set<Seq<char>>,
}

/// The global type environment: every declaration in the file, keyed by its
/// module-qualified (mangled) name, e.g. `math_Point` for `Point` in `mod math`.
pub struct TyEnv<'a> {
    pub structs: NameMap<&'a StructDecl>,
    pub enums: NameMap<&'a EnumDecl>,
    /// Mangled name -> (explicit parameter types, return type).
    /// A method's `self` receiver is not in the parameter list.
    pub fns: NameMap<(Vec<Ty>, Ty)>,
    pub type_aliases: NameMap<&'a Ty>,
    /// Trait declarations, for dyn method resolution and impl checking.
    pub traits: NameMap<&'a TraitDecl>,
    /// Qualified name -> module prefix it belongs to (only for items inside a mod).
    pub item_module: NameMap<String>,
    /// Qualified names inside a module that are marked `pub`.
    pub pub_items: NameSet,
    /// Struct qualified name -> its `pub` field names.
    pub pub_fields: NameMap<NameSet>,
    /// `extern "C"` functions; calls to these require an `unsafe` block.
    pub extern_fns: NameSet,
    /// Variadic extern functions, which accept more arguments than declared.
    pub variadic_fns: NameSet,
    /// Global const/static names -> their type.
    pub consts: NameMap<&'a Ty>,
    /// Names of tuple structs.
    pub tuple_structs: NameSet,
}

pub open spec fn empty_env() -> EnvM {
    EnvM {
        structs: Map::empty(),
        enums: Map::empty(),
        fns: Map::empty(),
        aliases: Map::empty(),
        traits: Map::empty(),
        item_module: Map::empty(),
        pub_items: Set::empty(),
        pub_fields: Map::empty(),
        extern_fns: Set::empty(),
        variadic_fns: Set::empty(),
        consts: Map::empty(),
        tuple_structs: Set::empty(),
    }
}

/// The types of a list of fields, in order.
pub open spec fn field_tys_m(fs: Seq<FieldDecl>) -> Seq<TyM>
    decreases fs.len(),
{
    if fs.len() == 0 {
        Seq::empty()
    } else {
        field_tys_m(fs.drop_last()).push(fs.last().ty@)
    }
}

/// The types of a list of parameters, in order.
pub open spec fn param_tys_m(ps: Seq<Param>) -> Seq<TyM>
    decreases ps.len(),
{
    if ps.len() == 0 {
        Seq::empty()
    } else {
        param_tys_m(ps.drop_last()).push(ps.last().ty@)
    }
}

/// The names of the `pub` fields among `fs`.
pub open spec fn pub_field_set(fs: Seq<FieldDecl>) -> Set<Seq<char>>
    decreases fs.len(),
{
    if fs.len() == 0 {
        Set::empty()
    } else if fs.last().is_pub {
        pub_field_set(fs.drop_last()).insert(fs.last().name@)
    } else {
        pub_field_set(fs.drop_last())
    }
}

/// The constructor parameter types of an enum variant.
pub open spec fn variant_params_m(f: VariantFields) -> Seq<TyM> {
    match f {
        VariantFields::Unit => Seq::empty(),
        VariantFields::Tuple(tys) => tys_view(tys@),
        VariantFields::Named(fs) => field_tys_m(fs@),
    }
}

/// Records that `full` is declared inside the module `prefix` (when `prefix` is not
/// the top level), and whether it is `pub`.
pub open spec fn mark_mod(e: EnvM, full: Seq<char>, prefix: Seq<char>, is_pub: bool) -> EnvM {
    if prefix.len() > 0 {
        EnvM {
            item_module: e.item_module.insert(full, prefix),
            pub_items: if is_pub {
                e.pub_items.insert(full)
            } else {
                e.pub_items
            },
            ..e
        }
    } else {
        e
    }
}

/// `e` with the function signature `sig` stored under `k`.
pub open spec fn with_fn(e: EnvM, k: Seq<char>, sig: (Seq<TyM>, TyM)) -> EnvM {
    EnvM { fns: e.fns.insert(k, sig), ..e }
}

/// Registers the constructor of each enum variant from index `i` on.
pub open spec fn s_variant_fns(e: EnvM, full: Seq<char>, vs: Seq<EnumVariant>, i: int) -> EnvM
    decreases vs.len() - i,
{
    if 0 <= i < vs.len() {
        let v = vs[i];
        let e1 = EnvM {
            fns: e.fns.insert(full + "_"@ + v.name@, (variant_params_m(v.fields), TyM::Named(full))),
            ..e
        };
        s_variant_fns(e1, full, vs, i + 1)
    } else {
        e
    }
}

/// Registers the methods of an impl block from index `i` on.
pub open spec fn s_impl_methods(
    e: EnvM,
    ty_name: Seq<char>,
    prefix: Seq<char>,
    has_trait: bool,
    ms: Seq<FnDecl>,
    i: int,
) -> EnvM
    decreases ms.len() - i,
{
    if 0 <= i < ms.len() {
        let m = ms[i];
        let ret = resolve_self_m(m.return_ty@, ty_name);
        let mangled = ty_name + "_"@ + m.name@;
        let e1 = mark_mod(e, mangled, prefix, m.is_pub);
        let sig = (resolve_self_seq(param_tys_m(m.params@), ty_name), ret);
        let e2 = if has_trait {
            if e1.fns.contains_key(mangled) {
                e1
            } else {
                EnvM { fns: e1.fns.insert(mangled, sig), ..e1 }
            }
        } else {
            EnvM { fns: e1.fns.insert(mangled, sig), ..e1 }
        };
        s_impl_methods(e2, ty_name, prefix, has_trait, ms, i + 1)
    } else {
        e
    }
}

/// Registers the functions of an extern block from index `i` on.
pub open spec fn s_extern_fns(e: EnvM, fs: Seq<ExternFn>, i: int) -> EnvM
    decreases fs.len() - i,
{
    if 0 <= i < fs.len() {
        let f = fs[i];
        let e1 = EnvM {
            fns: e.fns.insert(f.name@, (param_tys_m(f.params@), f.return_ty@)),
            extern_fns: e.extern_fns.insert(f.name@),
            variadic_fns: if f.is_variadic {
                e.variadic_fns.insert(f.name@)
            } else {
                e.variadic_fns
            },
            ..e
        };
        s_extern_fns(e1, fs, i + 1)
    } else {
        e
    }
}

/// The declarations of one item, added to `e`; `prefix` is the module path so far.
pub open spec fn s_collect_item(e: EnvM, item: Item, prefix: Seq<char>) -> EnvM
    decreases item, 0int,
{
    match item {
        Item::Struct(s) => {
            let full = prefix + s.name@;
            let e1 = mark_mod(e, full, prefix, s.is_pub);
            let e2 = EnvM { pub_fields: e1.pub_fields.insert(full, pub_field_set(s.fields@)), ..e1 };
            let e3 = if s.is_tuple {
                EnvM {
                    tuple_structs: e2.tuple_structs.insert(full),
                    fns: e2.fns.insert(full, (field_tys_m(s.fields@), TyM::Named(full))),
                    ..e2
                }
            } else {
                e2
            };
            EnvM { structs: e3.structs.insert(full, s), ..e3 }
        },
        Item::Enum(en) => {
            let full = prefix + en.name@;
            let e1 = mark_mod(e, full, prefix, en.is_pub);
            let e2 = EnvM { enums: e1.enums.insert(full, en), ..e1 };
            s_variant_fns(e2, full, en.variants@, 0)
        },
        Item::Fn(f) => {
            let name = prefix + f.name@;
            let e1 = mark_mod(e, name, prefix, f.is_pub);
            EnvM { fns: e1.fns.insert(name, (param_tys_m(f.params@), f.return_ty@)), ..e1 }
        },
        Item::Trait(t) => {
            let full = prefix + t.name@;
            let e1 = mark_mod(e, full, prefix, t.is_pub);
            EnvM { traits: e1.traits.insert(full, t), ..e1 }
        },
        Item::Impl(imp) => {
            let ty_name = prefix + imp.ty_name@;
            s_impl_methods(e, ty_name, prefix, imp.trait_name is Some, imp.methods@, 0)
        },
        Item::TypeAlias { name, ty, is_pub } => {
            let full = prefix + name@;
            let e1 = mark_mod(e, full, prefix, is_pub);
            EnvM { aliases: e1.aliases.insert(full, ty@), ..e1 }
        },
        Item::Mod { name, items, is_pub } => {
            let e1 = mark_mod(e, prefix + name@, prefix, is_pub);
            s_collect_items(e1, items@, prefix + name@ + "_"@, 0)
        },
        Item::ExternBlock(fs) => s_extern_fns(e, fs@, 0),
        Item::Const { name, ty, is_pub, .. } => {
            let full = prefix + name@;
            let e1 = mark_mod(e, full, prefix, is_pub);
            EnvM { consts: e1.consts.insert(full, ty@), ..e1 }
        },
        Item::Static { name, ty, is_pub, .. } => {
            let full = prefix + name@;
            let e1 = mark_mod(e, full, prefix, is_pub);
            EnvM { consts: e1.consts.insert(full, ty@), ..e1 }
        },
        Item::Skip => e,
    }
}

/// The declarations of `items[i..]`, added to `e` in order.
pub open spec fn s_collect_items(e: EnvM, items: Seq<Item>, prefix: Seq<char>, i: int) -> EnvM
    decreases items, items.len() - i,
{
    if 0 <= i < items.len() {
        s_collect_items(s_collect_item(e, items[i], prefix), items, prefix, i + 1)
    } else {
        e
    }
}

/// The environment of a whole file.
pub open spec fn spec_env_of(file: File) -> EnvM {
    s_collect_items(empty_env(), file.items@, Seq::empty(), 0)
}

/// Follows the alias chain from `t`, stopping at a non-alias or at a name already seen.
pub open spec fn resolve_m(al: Map<Seq<char>, TyM>, t: TyM, visited: Set<Seq<char>>) -> TyM
    decreases al.dom().difference(visited).len() when al.dom().finite()
{
    match t {
        TyM::Named(n) => {
            if visited.contains(n) {
                t
            } else if al.contains_key(n) {
                proof {
                    assert(al.dom().difference(visited.insert(n)) =~= al.dom().difference(
                        visited,
                    ).remove(n));
                }
                resolve_m(al, al[n], visited.insert(n))
            } else {
                t
            }
        },
        _ => t,
    }
}

fn param_tys(ps: &Vec<Param>) -> (r: Vec<Ty>)
    ensures
        tys_view(r@) == param_tys_m(ps@),
{
    let mut out: Vec<Ty> = Vec::new();
    let mut i: usize = 0;
    while i < ps.len()
        invariant
            i <= ps.len(),
            tys_view(out@) == param_tys_m(ps@.take(i as int)),
        decreases ps.len() - i,
    {
        let t = ps[i].ty.clone_ty();
        let ghost old_out = out@;
        out.push(t);
        proof {
            lemma_tys_view(old_out);
            lemma_tys_view(out@);
            assert(ps@.take(i + 1).drop_last() =~= ps@.take(i as int));
            assert(tys_view(out@) =~= tys_view(old_out).push(t@));
        }
        i += 1;
    }
    assert(ps@.take(ps.len() as int) =~= ps@);
    out
}

fn field_tys(fs: &Vec<FieldDecl>) -> (r: Vec<Ty>)
    ensures
        tys_view(r@) == field_tys_m(fs@),
{
    let mut out: Vec<Ty> = Vec::new();
    let mut i: usize = 0;
    while i < fs.len()
        invariant
            i <= fs.len(),
            tys_view(out@) == field_tys_m(fs@.take(i as int)),
        decreases fs.len() - i,
    {
        let t = fs[i].ty.clone_ty();
        let ghost old_out = out@;
        out.push(t);
        proof {
            lemma_tys_view(old_out);
            lemma_tys_view(out@);
            assert(fs@.take(i + 1).drop_last() =~= fs@.take(i as int));
            assert(tys_view(out@) =~= tys_view(old_out).push(t@));
        }
        i += 1;
    }
    assert(fs@.take(fs.len() as int) =~= fs@);
    out
}

pub(crate) fn clone_ty_vec(v: &Vec<Ty>) -> (r: Vec<Ty>)
    ensures
        tys_view(r@) == tys_view(v@),
{
    let mut out: Vec<Ty> = Vec::new();
    let mut i: usize = 0;
    while i < v.len()
        invariant
            i <= v.len(),
            out.len() == i,
            forall|j: int| 0 <= j < i ==> out@[j]@ == v@[j]@,
        decreases v.len() - i,
    {
        out.push(v[i].clone_ty());
        i += 1;
    }
    proof {
        crate::ast::lemma_tys_view_ext(out@, v@);
    }
    out
}

fn pub_field_names(fs: &Vec<FieldDecl>) -> (r: NameSet)
    ensures
        r@ == pub_field_set(fs@),
{
    let mut out = NameSet::new();
    let mut i: usize = 0;
    while i < fs.len()
        invariant
            i <= fs.len(),
            out@ == pub_field_set(fs@.take(i as int)),
        decreases fs.len() - i,
    {
        assert(fs@.take(i + 1).drop_last() =~= fs@.take(i as int));
        if fs[i].is_pub {
            out.insert(fs[i].name.clone());
        }
        i += 1;
    }
    assert(fs@.take(fs.len() as int) =~= fs@);
    out
}

fn variant_params(f: &VariantFields) -> (r: Vec<Ty>)
    ensures
        tys_view(r@) == variant_params_m(*f),
{
    match f {
        VariantFields::Unit => {
            let v: Vec<Ty> = Vec::new();
            assert(tys_view(v@) =~= Seq::<TyM>::empty());
            v
        },
        VariantFields::Tuple(tys) => clone_ty_vec(tys),
        VariantFields::Named(fs) => field_tys(fs),
    }
}

impl<'a> TyEnv<'a> {
    /// The model of this environment.
    pub open spec fn model(&self) -> EnvM {
        EnvM {
            structs: self.structs@.map_values(|r: &StructDecl| *r),
            enums: self.enums@.map_values(|r: &EnumDecl| *r),
            fns: self.fns@.map_values(|p: (Vec<Ty>, Ty)| (tys_view(p.0@), p.1@)),
            aliases: self.type_aliases@.map_values(|t: &Ty| t@),
            traits: self.traits@.map_values(|r: &TraitDecl| *r),
            item_module: self.item_module@.map_values(|s: String| s@),
            pub_items: self.pub_items@,
            pub_fields: self.pub_fields@.map_values(|s: NameSet| s@),
            extern_fns: self.extern_fns@,
            variadic_fns: self.variadic_fns@,
            consts: self.consts@.map_values(|t: &Ty| t@),
            tuple_structs: self.tuple_structs@,
        }
    }

    /// Build the global type environment by scanning all top-level items in the file.
    pub fn build(file: &'a File) -> (r: Self)
        ensures
            r.model() == spec_env_of(*file),
    {
        let mut env = TyEnv {
            structs: NameMap::new(),
            enums: NameMap::new(),
            fns: NameMap::new(),
            type_aliases: NameMap::new(),
            traits: NameMap::new(),
            item_module: NameMap::new(),
            pub_items: NameSet::new(),
            pub_fields: NameMap::new(),
            extern_fns: NameSet::new(),
            variadic_fns: NameSet::new(),
            consts: NameMap::new(),
            tuple_structs: NameSet::new(),
        };
        assert(env.model() =~= empty_env());
        let prefix = String::new();
        env.collect_items(&file.items, &prefix);
        env
    }

    fn mark_module(&mut self, full: &String, prefix: &String, is_pub: bool)
        ensures
            final(self).model() == mark_mod(old(self).model(), full@, prefix@, is_pub),
    {
        if !prefix.as_str().is_empty() {
            self.item_module.insert(full.clone(), prefix.clone());
            if is_pub {
                self.pub_items.insert(full.clone());
            }
            assert(self.model().item_module =~= old(self).model().item_module.insert(full@, prefix@));
        }
        assert(final(self).model() =~= mark_mod(old(self).model(), full@, prefix@, is_pub));
    }

    fn insert_fn(&mut self, name: String, params: Vec<Ty>, ret: Ty)
        ensures
            final(self).model() == with_fn(old(self).model(), name@, (tys_view(params@), ret@)),
    {
        let ghost k = name@;
        let ghost v = (tys_view(params@), ret@);
        self.fns.insert(name, (params, ret));
        assert(self.model().fns =~= old(self).model().fns.insert(k, v));
        assert(final(self).model() =~= with_fn(old(self).model(), k, v));
    }

    /// Recursively collect declarations from `items` into the environment.
    /// `prefix` is the module path so far (e.g. `"math_"` for items inside `mod math`).
    pub fn collect_items(&mut self, items: &'a Vec<Item>, prefix: &String)
        ensures
            final(self).model() == s_collect_items(old(self).model(), items@, prefix@, 0),
        decreases items, 1int,
    {
        let mut i: usize = 0;
        while i < items.len()
            invariant
                i <= items.len(),
                s_collect_items(self.model(), items@, prefix@, i as int) == s_collect_items(
                    old(self).model(),
                    items@,
                    prefix@,
                    0,
                ),
            decreases items.len() - i,
        {
            proof {
                vstd::std_specs::vec::axiom_vec_index_decreases(*items, i as int);
            }
            self.collect_item(&items[i], prefix);
            i += 1;
        }
    }

    fn collect_item(&mut self, item: &'a Item, prefix: &String)
        ensures
            final(self).model() == s_collect_item(old(self).model(), *item, prefix@),
        decreases item, 2int,
    {
        match item {
            Item::Struct(s) => {
                let full = cat(prefix.as_str(), s.name.as_str());
                self.mark_module(&full, prefix, s.is_pub);
                let ghost m1 = self.model();
                let pub_set = pub_field_names(&s.fields);
                self.pub_fields.insert(full.clone(), pub_set);
                assert(self.model() =~= EnvM {
                    pub_fields: m1.pub_fields.insert(full@, pub_field_set(s.fields@)),
                    ..m1
                });
                let ghost m2 = self.model();
                if s.is_tuple {
                    self.tuple_structs.insert(full.clone());
                    let params = field_tys(&s.fields);
                    self.insert_fn(full.clone(), params, Ty::Named(full.clone()));
                    assert(self.model() =~= EnvM {
                        tuple_structs: m2.tuple_structs.insert(full@),
                        fns: m2.fns.insert(full@, (field_tys_m(s.fields@), TyM::Named(full@))),
                        ..m2
                    });
                }
                let ghost m3 = self.model();
                self.structs.insert(full, s);
                assert(self.model() =~= EnvM { structs: m3.structs.insert(full@, *s), ..m3 });
            },
            Item::Enum(e) => {
                let full = cat(prefix.as_str(), e.name.as_str());
                self.mark_module(&full, prefix, e.is_pub);
                let ghost m1 = self.model();
                self.enums.insert(full.clone(), e);
                assert(self.model() =~= EnvM { enums: m1.enums.insert(full@, *e), ..m1 });
                let mut j: usize = 0;
                while j < e.variants.len()
                    invariant
                        j <= e.variants.len(),
                        s_variant_fns(self.model(), full@, e.variants@, j as int) == s_collect_item(
                            old(self).model(),
                            *item,
                            prefix@,
                        ),
                    decreases e.variants.len() - j,
                {
                    let v = &e.variants[j];
                    let mangled = cat3(full.as_str(), "_", v.name.as_str());
                    let params = variant_params(&v.fields);
                    self.insert_fn(mangled, params, Ty::Named(full.clone()));
                    j += 1;
                }
            },
            Item::Fn(f) => {
                let name = cat(prefix.as_str(), f.name.as_str());
                self.mark_module(&name, prefix, f.is_pub);
                let params = param_tys(&f.params);
                self.insert_fn(name, params, f.return_ty.clone_ty());
            },
            Item::Trait(t) => {
                let full = cat(prefix.as_str(), t.name.as_str());
                self.mark_module(&full, prefix, t.is_pub);
                let ghost m1 = self.model();
                self.traits.insert(full, t);
                assert(self.model() =~= EnvM { traits: m1.traits.insert(full@, *t), ..m1 });
            },
            Item::Impl(imp) => {
                let ty_name = cat(prefix.as_str(), imp.ty_name.as_str());
                let has_trait = imp.trait_name.is_some();
                let mut j: usize = 0;
                while j < imp.methods.len()
                    invariant
                        j <= imp.methods.len(),
                        has_trait == (imp.trait_name is Some),
                        s_impl_methods(self.model(), ty_name@, prefix@, has_trait, imp.methods@, j as int)
                            == s_collect_item(old(self).model(), *item, prefix@),
                    decreases imp.methods.len() - j,
                {
                    let m = &imp.methods[j];
                    let ret_ty = m.return_ty.resolve_self(&ty_name);
                    let mangled = cat3(ty_name.as_str(), "_", m.name.as_str());
                    self.mark_module(&mangled, prefix, m.is_pub);
                    let raw = param_tys(&m.params);
                    let params = resolve_tys(&raw, &ty_name);
                    if has_trait {
                        if !self.fns.contains_key(mangled.as_str()) {
                            self.insert_fn(mangled, params, ret_ty);
                        }
                    } else {
                        self.insert_fn(mangled, params, ret_ty);
                    }
                    j += 1;
                }
            },
            Item::TypeAlias { name, ty, is_pub } => {
                let full = cat(prefix.as_str(), name.as_str());
                self.mark_module(&full, prefix, *is_pub);
                let ghost m1 = self.model();
                self.type_aliases.insert(full, ty);
                assert(self.model() =~= EnvM { aliases: m1.aliases.insert(full@, ty@), ..m1 });
            },
            Item::Mod { name, items: mod_items, is_pub } => {
                let mod_prefix = cat3(prefix.as_str(), name.as_str(), "_");
                let full = cat(prefix.as_str(), name.as_str());
                self.mark_module(&full, prefix, *is_pub);
                self.collect_items(mod_items, &mod_prefix);
            },
            Item::ExternBlock(fns) => {
                let mut j: usize = 0;
                while j < fns.len()
                    invariant
                        j <= fns.len(),
                        s_extern_fns(self.model(), fns@, j as int) == s_collect_item(
                            old(self).model(),
                            *item,
                            prefix@,
                        ),
                    decreases fns.len() - j,
                {
                    let f = &fns[j];
                    let params = param_tys(&f.params);
                    self.insert_fn(f.name.clone(), params, f.return_ty.clone_ty());
                    let ghost m1 = self.model();
                    self.extern_fns.insert(f.name.clone());
                    if f.is_variadic {
                        self.variadic_fns.insert(f.name.clone());
                    }
                    assert(self.model() =~= EnvM {
                        extern_fns: m1.extern_fns.insert(f.name@),
                        variadic_fns: if f.is_variadic {
                            m1.variadic_fns.insert(f.name@)
                        } else {
                            m1.variadic_fns
                        },
                        ..m1
                    });
                    j += 1;
                }
            },
            Item::Const { name, ty, is_pub, .. } => {
                let full = cat(prefix.as_str(), name.as_str());
                self.mark_module(&full, prefix, *is_pub);
                let ghost m1 = self.model();
                self.consts.insert(full, ty);
                assert(self.model() =~= EnvM { consts: m1.consts.insert(full@, ty@), ..m1 });
            },
            Item::Static { name, ty, is_pub, .. } => {
                let full = cat(prefix.as_str(), name.as_str());
                self.mark_module(&full, prefix, *is_pub);
                let ghost m1 = self.model();
                self.consts.insert(full, ty);
                assert(self.model() =~= EnvM { consts: m1.consts.insert(full@, ty@), ..m1 });
            },
            Item::Skip => {},
        }
    }

    /// Resolve a type alias chain to its concrete type (cycle-safe).
    pub fn resolve(&self, ty: &Ty) -> (r: Ty)
        ensures
            r@ == resolve_m(self.model().aliases, ty@, Set::empty()),
    {
        let mut visited = NameSet::new();
        self.resolve_inner(ty, &mut visited)
    }

    fn resolve_inner(&self, ty: &Ty, visited: &mut NameSet) -> (r: Ty)
        ensures
            r@ == resolve_m(self.model().aliases, ty@, old(visited)@),
        decreases self.model().aliases.dom().difference(old(visited)@).len(),
    {
        proof {
            self.type_aliases.lemma_dom_finite();
            assert(self.model().aliases.dom() =~= self.type_aliases@.dom());
        }
        if let Ty::Named(n) = ty {
            if visited.contains(n.as_str()) {
                return ty.clone_ty();
            }
            if let Some(t) = self.type_aliases.get(n.as_str()) {
                let ghost al = self.model().aliases;
                let ghost v0 = visited@;
                visited.insert(n.clone());
                proof {
                    assert(al.dom().difference(v0.insert(n@)) =~= al.dom().difference(v0).remove(n@));
                }
                return self.resolve_inner(t, visited);
            }
        }
        ty.clone_ty()
    }
}

fn resolve_tys(v: &Vec<Ty>, n: &String) -> (r: Vec<Ty>)
    ensures
        tys_view(r@) == resolve_self_seq(tys_view(v@), n@),
{
    let mut out: Vec<Ty> = Vec::new();
    let mut i: usize = 0;
    while i < v.len()
        invariant
            i <= v.len(),
            out.len() == i,
            forall|j: int| 0 <= j < i ==> out@[j]@ == resolve_self_m(v@[j]@, n@),
        decreases v.len() - i,
    {
        out.push(v[i].resolve_self(n));
        i += 1;
    }
    proof {
        lemma_tys_view(out@);
        lemma_tys_view(v@);
        lemma_resolve_self_seq(tys_view(v@), n@);
        assert(tys_view(out@) =~= resolve_self_seq(tys_view(v@), n@));
    }
    out
}

// ---------------------------------------------------------------------------
// Files that differ only in their function bodies
// ---------------------------------------------------------------------------

proof fn lemma_impl_methods_same(
    e: EnvM,
    ty_name: Seq<char>,
    prefix: Seq<char>,
    has_trait: bool,
    a: Seq<FnDecl>,
    b: Seq<FnDecl>,
    j: int,
)
    requires
        same_sig_fns(a, b),
    ensures
        s_impl_methods(e, ty_name, prefix, has_trait, a, j) == s_impl_methods(e, ty_name, prefix, has_trait, b, j),
    decreases a.len() - j,
{
    if 0 <= j < a.len() {
        assert(same_sig(a[j], b[j]));
        let m = a[j];
        let ret = resolve_self_m(m.return_ty@, ty_name);
        let mangled = ty_name + "_"@ + m.name@;
        let e1 = mark_mod(e, mangled, prefix, m.is_pub);
        let sig = (resolve_self_seq(param_tys_m(m.params@), ty_name), ret);
        let e2 = if has_trait {
            if e1.fns.contains_key(mangled) {
                e1
            } else {
                EnvM { fns: e1.fns.insert(mangled, sig), ..e1 }
            }
        } else {
            EnvM { fns: e1.fns.insert(mangled, sig), ..e1 }
        };
        lemma_impl_methods_same(e2, ty_name, prefix, has_trait, a, b, j + 1);
    }
}

proof fn lemma_collect_item_same(e: EnvM, x: Item, y: Item, prefix: Seq<char>)
    requires
        same_sig_item(x, y),
    ensures
        s_collect_item(e, x, prefix) == s_collect_item(e, y, prefix),
    decreases x, 1int,
{
    match x {
        Item::Impl(imp) => {
            let imp2 = y->Impl_0;
            lemma_impl_methods_same(
                e,
                prefix + imp.ty_name@,
                prefix,
                imp.trait_name is Some,
                imp.methods@,
                imp2.methods@,
                0,
            );
        },
        Item::Mod { name, items, is_pub } => {
            let e1 = mark_mod(e, prefix + name@, prefix, is_pub);
            lemma_collect_items_same(e1, items@, y->Mod_items@, prefix + name@ + "_"@, 0);
        },
        _ => {},
    }
}

proof fn lemma_collect_items_same(e: EnvM, a: Seq<Item>, b: Seq<Item>, prefix: Seq<char>, i: int)
    requires
        a.len() == b.len(),
        same_sig_items(a, b, i),
    ensures
        s_collect_items(e, a, prefix, i) == s_collect_items(e, b, prefix, i),
    decreases a, a.len() - i,
{
    if 0 <= i < a.len() {
        lemma_collect_item_same(e, a[i], b[i], prefix);
        lemma_collect_items_same(s_collect_item(e, a[i], prefix), a, b, prefix, i + 1);
    }
}

/// The declarations of a file do not depend on its function bodies.
pub proof fn lemma_env_same_sig(f: File, g: File)
    requires
        f.items@.len() == g.items@.len(),
        same_sig_items(f.items@, g.items@, 0),
    ensures
        spec_env_of(f) == spec_env_of(g),
{
    lemma_collect_items_same(empty_env(), f.items@, g.items@, Seq::empty(), 0);
}

proof fn lemma_same_sig_item_trans(x: Item, y: Item, z: Item)
    requires
        same_sig_item(x, y),
        same_sig_item(y, z),
    ensures
        same_sig_item(x, z),
    decreases x, 1int,
{
    match x {
        Item::Impl(imp) => {
            let m1 = imp.methods@;
            let m2 = y->Impl_0.methods@;
            let m3 = z->Impl_0.methods@;
            assert forall|i: int| 0 <= i < m1.len() implies same_sig(#[trigger] m1[i], m3[i]) by {
                assert(same_sig(m1[i], m2[i]));
                assert(same_sig(m2[i], m3[i]));
            }
        },
        Item::Mod { items, .. } => {
            lemma_same_sig_items_trans(items@, y->Mod_items@, z->Mod_items@, 0);
        },
        _ => {},
    }
}

proof fn lemma_same_sig_items_trans(a: Seq<Item>, b: Seq<Item>, c: Seq<Item>, i: int)
    requires
        same_sig_items(a, b, i),
        same_sig_items(b, c, i),
        a.len() == b.len(),
        b.len() == c.len(),
    ensures
        same_sig_items(a, c, i),
    decreases a, a.len() - i,
{
    if 0 <= i < a.len() {
        lemma_same_sig_item_trans(a[i], b[i], c[i]);
        lemma_same_sig_items_trans(a, b, c, i + 1);
    }
}

proof fn lemma_same_sig_items_of(a: Seq<Item>, b: Seq<Item>, i: int)
    requires
        a.len() == b.len(),
        0 <= i,
        forall|j: int| i <= j < a.len() ==> same_sig_item(#[trigger] a[j], b[j]),
    ensures
        same_sig_items(a, b, i),
    decreases a.len() - i,
{
    if i < a.len() {
        lemma_same_sig_items_of(a, b, i + 1);
    }
}

proof fn lemma_flat_len_item(x: Item, y: Item)
    requires
        same_sig_item(x, y),
    ensures
        flat_item(x).len() == flat_item(y).len(),
    decreases x, 1int,
{
    match x {
        Item::Impl(imp) => {
            lemma_flat_fns(imp.methods@, 0);
            lemma_flat_fns(y->Impl_0.methods@, 0);
        },
        Item::Mod { items, .. } => {
            lemma_flat_len_items(items@, y->Mod_items@, 0);
        },
        _ => {},
    }
}

proof fn lemma_flat_len_items(a: Seq<Item>, b: Seq<Item>, i: int)
    requires
        a.len() == b.len(),
        same_sig_items(a, b, i),
    ensures
        flat_items(a, i).len() == flat_items(b, i).len(),
    decreases a, a.len() - i,
{
    if 0 <= i < a.len() {
        lemma_flat_len_item(a[i], b[i]);
        lemma_flat_len_items(a, b, i + 1);
    }
}

/// Moves the function bodies of the item `x` (in the order the checker visits them) to
/// the end of `out`, leaving empty bodies behind.
fn take_item(x: &mut Item, out: &mut Vec<Block>)
    ensures
        same_sig_item(*old(x), *final(x)),
        final(out)@ == old(out)@ + flat_item(*old(x)),
    decreases *old(x), 1int,
{
    match x {
        Item::Fn(f) => {
            let mut b = Block { stmts: Vec::new() };
            std::mem::swap(&mut f.body, &mut b);
            out.push(b);
        },
        Item::Impl(imp) => {
            let ghost om = imp.methods@;
            let ghost imp0 = *imp;
            let ghost out_s = out@;
            let m = imp.methods.len();
            let mut j: usize = 0;
            while j < m
                invariant
                    *imp == (crate::ast::ImplBlock { methods: imp.methods, ..imp0 }),
                    m == om.len(),
                    imp.methods@.len() == m,
                    j <= m,
                    forall|t: int| j <= t < m ==> imp.methods@[t] == om[t],
                    forall|t: int| 0 <= t < j ==> same_sig(#[trigger] om[t], imp.methods@[t]),
                    out@ + flat_fns(om, j as int) == out_s + flat_fns(om, 0),
                decreases m - j,
            {
                let ghost out_j = out@;
                proof {
                    assert(flat_fns(om, j as int) == seq![om[j as int].body] + flat_fns(om, j + 1));
                }
                let mut b = Block { stmts: Vec::new() };
                std::mem::swap(&mut imp.methods[j].body, &mut b);
                out.push(b);
                proof {
                    assert(out@ + flat_fns(om, j + 1) =~= out_j + flat_fns(om, j as int));
                }
                j += 1;
            }
            proof {
                assert(same_sig_fns(om, imp.methods@));
                assert(out@ =~= out_s + flat_fns(om, 0));
            }
        },
        Item::Mod { items: sub, .. } => {
            take_bodies(sub, out);
        },
        _ => {},
    }
    proof {
        match *old(x) {
            Item::Fn(f0) => {
                assert(*final(x) matches Item::Fn(g) && same_sig(f0, g));
            },
            Item::Impl(i0) => {
                assert(*final(x) matches Item::Impl(i2) && i2 == (crate::ast::ImplBlock { methods: i2.methods, ..i0 }));
            },
            Item::Mod { .. } => {
                assert(*final(x) is Mod);
            },
            _ => {},
        }
    }
}

/// Moves the function bodies of `items` (in the order the checker visits them) to the
/// end of `out`, leaving empty bodies behind.
fn take_bodies(items: &mut Vec<Item>, out: &mut Vec<Block>)
    ensures
        final(items)@.len() == old(items)@.len(),
        same_sig_items(old(items)@, final(items)@, 0),
        final(out)@ == old(out)@ + flat_items(old(items)@, 0),
    decreases *old(items), 0int,
{
    let ghost olds = items@;
    let ghost out0 = out@;
    proof {
        crate::type_checker::tc::lemma_vec_index_decreases(*items);
    }
    let len = items.len();
    let mut i: usize = 0;
    while i < len
        invariant
            len == olds.len(),
            items@.len() == len,
            i <= len,
            olds == old(items)@,
            forall|j: int| 0 <= j < len ==> decreases_to!(*old(items) => olds[j]),
            forall|j: int| i <= j < len ==> items@[j] == olds[j],
            forall|j: int| 0 <= j < i ==> same_sig_item(#[trigger] olds[j], items@[j]),
            out@ + flat_items(olds, i as int) == out0 + flat_items(olds, 0),
        decreases len - i,
    {
        let ghost out_i = out@;
        proof {
            assert(flat_items(olds, i as int) == flat_item(olds[i as int]) + flat_items(olds, i + 1));
        }
        let mut cur = Item::Skip;
        std::mem::swap(&mut cur, &mut items[i]);
        assert(cur == olds[i as int]);
        take_item(&mut cur, out);
        std::mem::swap(&mut cur, &mut items[i]);
        proof {
            assert(out@ + flat_items(olds, i + 1) =~= out_i + flat_items(olds, i as int));
        }
        i += 1;
    }
    proof {
        lemma_same_sig_items_of(olds, items@, 0);
    }
}

/// Moves `bodies[c..]`, in order, into the function bodies of the item `x`. Returns the
/// index past the last body used.
fn put_item(x: &mut Item, bodies: &mut Vec<Block>, c: usize) -> (r: usize)
    requires
        c + flat_item(*old(x)).len() <= old(bodies)@.len(),
    ensures
        r == c + flat_item(*old(x)).len(),
        same_sig_item(*old(x), *final(x)),
        flat_item(*final(x)) == old(bodies)@.subrange(c as int, r as int),
        final(bodies)@.len() == old(bodies)@.len(),
        forall|j: int| r <= j < old(bodies)@.len() ==> final(bodies)@[j] == old(bodies)@[j],
    decreases *old(x), 1int,
{
    let ghost b0 = bodies@;
    let bl = bodies.len();
    match x {
        Item::Fn(f) => {
            assert(flat_item(*old(x)).len() == 1);
            std::mem::swap(&mut f.body, &mut bodies[c]);
            proof {
                assert(seq![b0[c as int]] =~= b0.subrange(c as int, c + 1));
            }
            c + 1
        },
        Item::Impl(imp) => {
            let ghost om = imp.methods@;
            let ghost imp0 = *imp;
            let m = imp.methods.len();
            proof {
                lemma_flat_fns(om, 0);
                assert(flat_item(*old(x)) == flat_fns(om, 0));
            }
            let mut j: usize = 0;
            while j < m
                invariant
                    *imp == (crate::ast::ImplBlock { methods: imp.methods, ..imp0 }),
                    m == om.len(),
                    imp.methods@.len() == m,
                    j <= m,
                    c + m <= b0.len(),
                    b0.len() == bl,
                    bodies@.len() == b0.len(),
                    forall|t: int| c + j <= t < b0.len() ==> bodies@[t] == b0[t],
                    forall|t: int| j <= t < m ==> imp.methods@[t] == om[t],
                    forall|t: int| 0 <= t < j ==> same_sig(#[trigger] om[t], imp.methods@[t]),
                    forall|t: int| 0 <= t < j ==> (#[trigger] imp.methods@[t]).body == b0[c + t],
                decreases m - j,
            {
                std::mem::swap(&mut imp.methods[j].body, &mut bodies[c + j]);
                j += 1;
            }
            proof {
                lemma_flat_fns(imp.methods@, 0);
                assert(flat_fns(imp.methods@, 0) =~= b0.subrange(c as int, c + m));
                assert(same_sig_fns(om, imp.methods@));
            }
            c + m
        },
        Item::Mod { items: sub, .. } => {
            put_bodies(sub, bodies, c)
        },
        _ => {
            proof {
                assert(b0.subrange(c as int, c as int) =~= Seq::<Block>::empty());
            }
            c
        },
    }
}

/// Moves `bodies[k..]`, in order, into the function bodies of `items`. Returns the
/// index past the last body used.
fn put_bodies(items: &mut Vec<Item>, bodies: &mut Vec<Block>, k: usize) -> (r: usize)
    requires
        k + flat_items(old(items)@, 0).len() <= old(bodies)@.len(),
    ensures
        r == k + flat_items(old(items)@, 0).len(),
        final(items)@.len() == old(items)@.len(),
        same_sig_items(old(items)@, final(items)@, 0),
        flat_items(final(items)@, 0) == old(bodies)@.subrange(k as int, r as int),
        final(bodies)@.len() == old(bodies)@.len(),
        forall|j: int| r <= j < old(bodies)@.len() ==> final(bodies)@[j] == old(bodies)@[j],
    decreases *old(items), 0int,
{
    let ghost olds = items@;
    let ghost b0 = bodies@;
    let ghost n = flat_items(olds, 0).len();
    proof {
        crate::type_checker::tc::lemma_vec_index_decreases(*items);
    }
    let len = items.len();
    let mut c: usize = k;
    let mut i: usize = 0;
    while i < len
        invariant
            len == olds.len(),
            items@.len() == len,
            n == flat_items(olds, 0).len(),
            k + n <= b0.len(),
            i <= len,
            k <= c,
            c + flat_items(olds, i as int).len() == k + n,
            bodies@.len() == b0.len(),
            forall|j: int| c <= j < b0.len() ==> bodies@[j] == b0[j],
            olds == old(items)@,
            forall|j: int| 0 <= j < len ==> decreases_to!(*old(items) => olds[j]),
            forall|j: int| i <= j < len ==> items@[j] == olds[j],
            forall|j: int| 0 <= j < i ==> same_sig_item(#[trigger] olds[j], items@[j]),
            forall|y: Seq<Item>|
                #![trigger flat_items(y, i as int)]
                y.len() == len && (forall|j: int| 0 <= j < i ==> y[j] == items@[j]) ==> flat_items(y, 0)
                    == b0.subrange(k as int, c as int) + flat_items(y, i as int),
        decreases len - i,
    {
        let ghost items_i = items@;
        let ghost c_i = c as int;
        let ghost fl = flat_item(olds[i as int]);
        proof {
            assert(flat_items(olds, i as int) == fl + flat_items(olds, i + 1));
        }
        let mut cur = Item::Skip;
        std::mem::swap(&mut cur, &mut items[i]);
        assert(cur == olds[i as int]);
        let next = put_item(&mut cur, bodies, c);
        let ghost done = cur;
        std::mem::swap(&mut cur, &mut items[i]);
        proof {
            assert(items@[i as int] == done);
            assert forall|y: Seq<Item>|
                y.len() == len && (forall|j: int| 0 <= j < i + 1 ==> y[j] == items@[j]) implies flat_items(y, 0)
                    == b0.subrange(k as int, next as int) + flat_items(y, i + 1) by {
                assert(forall|j: int| 0 <= j < i ==> y[j] == items_i[j]);
                assert(flat_items(y, i as int) == flat_item(y[i as int]) + flat_items(y, i + 1));
                assert(b0.subrange(k as int, next as int) =~= b0.subrange(k as int, c_i) + b0.subrange(
                    c_i,
                    next as int,
                ));
            }
        }
        c = next;
        i += 1;
    }
    proof {
        lemma_same_sig_items_of(olds, items@, 0);
        assert(flat_items(items@, i as int) =~= Seq::<Block>::empty());
        assert(flat_items(items@, 0) == b0.subrange(k as int, c as int) + flat_items(items@, i as int));
    }
    c
}

/// The type checker's state before it starts on a file.
pub open spec fn spec_tc_start() -> TcSt {
    TcSt { errs: Seq::empty(), loc: Loc { line: 0, col: 0 }, cur_mod: Seq::empty(), in_unsafe: false }
}

/// The type errors of a file, in order.
pub open spec fn type_errors(f: File) -> Seq<ErrM> {
    s_check_file(spec_env_of(f), spec_tc_start(), f).errs
}

/// What the type checker reports for a file `f`, `f2` being the file as type checking
/// leaves it (annotated): the type errors, in order; or, when there are none, the borrow
/// errors of `f2`.
pub open spec fn spec_check(f: File, f2: File) -> Seq<ErrM> {
    if type_errors(f).len() == 0 {
        b_check_file(spec_env_of(f), BcSt { errs: Seq::empty(), loc: Loc { line: 0, col: 0 } }, f2).errs
    } else {
        type_errors(f)
    }
}

/// Type-checks and then borrow-checks a parsed file. Type checking fills in, in the
/// tree, the types that the source leaves to inference: that of a `let` or `let`
/// pattern without a type, a `for` loop's iterator and element, a `match` scrutinee, and
/// the matched value of `if let` and `while let`, in statements. The borrow checker then
/// runs on the annotated tree, and only when type checking found nothing, to avoid
/// cascading diagnostics.
pub fn check(file: &mut File) -> (r: Vec<Error>)
    ensures
        ann_file(spec_env_of(*old(file)), spec_tc_start(), *old(file), *final(file)),
        errs_view(r@) == spec_check(*old(file), *final(file)),
{
    let ghost f0 = *file;
    let root = String::new();
    proof {
        assert(root@ == Seq::<char>::empty());
    }
    // Declarations, with the environment of the file as written.
    let (errors, cur_loc, cur_mod, in_unsafe) = {
        let env = TyEnv::build(file);
        let mut tc = TypeChecker::new(&env);
        tc.validate_file(file);
        (tc.errors, tc.cur_loc, tc.cur_mod, tc.in_unsafe)
    };
    let ghost st_v = TcSt { errs: errs_view(errors@), loc: cur_loc, cur_mod: cur_mod@, in_unsafe };
    // Function bodies: they are set aside while the environment refers to the file, and
    // checked (and annotated) there.
    let mut bodies: Vec<Block> = Vec::new();
    take_bodies(&mut file.items, &mut bodies);
    proof {
        assert(bodies@ =~= flat_items(f0.items@, 0));
        lemma_env_same_sig(f0, *file);
        assert(bodies@.subrange(0, flat_items(f0.items@, 0).len() as int) =~= flat_items(f0.items@, 0));
    }
    let ghost stripped = *file;
    let errors = {
        let env = TyEnv::build(file);
        let mut tc = TypeChecker { env: &env, errors, cur_loc, cur_mod, in_unsafe };
        assert(tc.st() == st_v);
        tc.check_items(&file.items, &mut bodies, 0, &root, Ghost(f0.items@));
        tc.errors
    };
    let ghost checked = bodies@;
    let ghost n = flat_items(f0.items@, 0).len();
    proof {
        lemma_flat_len_items(f0.items@, stripped.items@, 0);
    }
    put_bodies(&mut file.items, &mut bodies, 0);
    proof {
        lemma_same_sig_items_trans(f0.items@, stripped.items@, file.items@, 0);
        lemma_env_same_sig(f0, *file);
        let nb = flat_items(file.items@, 0);
        assert(nb =~= checked.subrange(0, n as int));
        assert(forall|j: int| 0 <= j < n ==> nb[j] == checked[j]);
    }
    if errors.len() > 0 {
        return errors;
    }
    let env = TyEnv::build(file);
    let mut bc = BorrowChecker::new(&env);
    bc.check_file(file);
    bc.errors
}

} // verus!
