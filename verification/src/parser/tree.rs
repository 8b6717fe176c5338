//! The mathematical model of the syntax trees the parser builds.
//!
//! Each node of the tree maps to its model: text becomes character sequences and
//! vectors become sequences. Node forms that the parser never builds (and nodes
//! carrying annotations that it never fills in) map to an `Other` form, so that a
//! model built by the grammar pins the tree down completely.
use crate::ast::{
    BinOp, EnumDecl, EnumVariant, Expr, ExprKind, FieldDecl, File, FnDecl, ImplBlock, Item,
    MatchArm, Param, Pat, PatBindings, Receiver, Stmt, StmtKind, StructDecl, TyM, UnOp,
    VariantFields, tys_view,
};
use crate::loc::Loc;
use vstd::prelude::*;

verus! {

pub struct ExprM {
    pub kind: ExprKindM,
    pub loc: Loc,
}

pub enum ExprKindM {
    Int(i64),
    Bool(bool),
    Var(Seq<char>),
    Tuple(Seq<ExprM>),
    StructLit(Seq<char>, Seq<(Seq<char>, ExprM)>),
    EnumStructLit(Seq<char>, Seq<char>, Seq<(Seq<char>, ExprM)>),
    Field(Box<ExprM>, Seq<char>),
    Call(Seq<char>, Seq<ExprM>),
    AssocCall(Seq<char>, Seq<char>, Seq<ExprM>),
    MethodCall(Box<ExprM>, Seq<char>, Seq<ExprM>),
    UnOp(UnOp, Box<ExprM>),
    BinOp(BinOp, Box<ExprM>, Box<ExprM>),
    AddrOf(bool, Box<ExprM>),
    Deref(Box<ExprM>),
    Cast(Box<ExprM>, TyM),
    Unsafe(Seq<StmtM>),
    /// A form the parser does not build.
    Other,
}

pub struct StmtM {
    pub kind: StmtKindM,
    pub loc: Loc,
}

pub enum StmtKindM {
    Let(Seq<char>, bool, Option<TyM>, ExprM),
    Assign(Seq<char>, ExprM),
    Return(Option<ExprM>),
    If(ExprM, Seq<StmtM>, Option<Seq<StmtM>>),
    While(ExprM, Seq<StmtM>),
    Match(ExprM, Seq<ArmM>),
    Println(Seq<char>, Seq<ExprM>),
    Expr(ExprM),
    /// A form the parser does not build.
    Other,
}

pub struct ArmM {
    pub pat: PatM,
    pub guarded: bool,
    pub body: Seq<StmtM>,
}

pub enum PatM {
    Wildcard,
    Binding(Seq<char>),
    Bool(bool),
    Int(i64),
    Variant(Seq<char>, Seq<char>, BindsM),
    /// A form the parser does not build.
    Other,
}

pub enum BindsM {
    Empty,
    Tuple(Seq<PatM>),
    Named(Seq<(Seq<char>, Seq<char>)>, bool),
}

pub struct FieldM {
    pub name: Seq<char>,
    pub ty: TyM,
    pub is_pub: bool,
}

pub enum VarFieldsM {
    Unit,
    Tuple(Seq<TyM>),
    Named(Seq<FieldM>),
}

pub struct VariantM {
    pub name: Seq<char>,
    pub fields: VarFieldsM,
}

pub struct ParamM {
    pub name: Seq<char>,
    pub ty: TyM,
}

pub struct FnM {
    pub name: Seq<char>,
    pub receiver: Option<Receiver>,
    pub params: Seq<ParamM>,
    pub ret: TyM,
    pub body: Seq<StmtM>,
    pub is_pub: bool,
    pub loc: Loc,
}

pub struct StructM {
    pub name: Seq<char>,
    pub fields: Seq<FieldM>,
    pub is_pub: bool,
    pub is_tuple: bool,
    pub loc: Loc,
}

pub struct EnumM {
    pub name: Seq<char>,
    pub variants: Seq<VariantM>,
    pub is_pub: bool,
    pub loc: Loc,
}

pub struct ImplM {
    pub ty_name: Seq<char>,
    pub trait_name: Option<Seq<char>>,
    pub methods: Seq<FnM>,
}

pub enum ItemM {
    Fn(FnM),
    Struct(StructM),
    Enum(EnumM),
    Impl(ImplM),
    /// A form the parser does not build.
    Other,
}

// ---------------------------------------------------------------------------
// Expressions and statements
// ---------------------------------------------------------------------------

pub open spec fn expr_m(e: Expr) -> ExprM
    decreases e,
{
    ExprM { kind: ekind_m(e.kind), loc: e.loc }
}

#[verifier::opaque]
pub open spec fn exprs_m(s: Seq<Expr>) -> Seq<ExprM>
    decreases s,
{
    if s.len() == 0 {
        Seq::empty()
    } else {
        exprs_m(s.drop_last()).push(expr_m(s.last()))
    }
}

#[verifier::opaque]
pub open spec fn inits_m(s: Seq<(String, Expr)>) -> Seq<(Seq<char>, ExprM)>
    decreases s,
{
    if s.len() == 0 {
        Seq::empty()
    } else {
        inits_m(s.drop_last()).push((s.last().0@, expr_m(s.last().1)))
    }
}

#[verifier::opaque]
pub open spec fn ekind_m(k: ExprKind) -> ExprKindM
    decreases k,
{
    match k {
        ExprKind::Int(n, suffix) => if suffix is None {
            ExprKindM::Int(n)
        } else {
            ExprKindM::Other
        },
        ExprKind::Bool(b) => ExprKindM::Bool(b),
        ExprKind::Var(n) => ExprKindM::Var(n@),
        ExprKind::Tuple(v) => ExprKindM::Tuple(exprs_m(v@)),
        ExprKind::StructLit { name, fields, rest } => if rest is None {
            ExprKindM::StructLit(name@, inits_m(fields@))
        } else {
            ExprKindM::Other
        },
        ExprKind::EnumStructLit { ty_name, variant, fields } => ExprKindM::EnumStructLit(
            ty_name@,
            variant@,
            inits_m(fields@),
        ),
        ExprKind::Field { expr, field } => ExprKindM::Field(Box::new(expr_m(*expr)), field@),
        ExprKind::Call { name, args } => ExprKindM::Call(name@, exprs_m(args@)),
        ExprKind::AssocCall { ty_name, method, args } => ExprKindM::AssocCall(
            ty_name@,
            method@,
            exprs_m(args@),
        ),
        ExprKind::MethodCall { expr, method, args } => ExprKindM::MethodCall(
            Box::new(expr_m(*expr)),
            method@,
            exprs_m(args@),
        ),
        ExprKind::UnOp { op, operand } => ExprKindM::UnOp(op, Box::new(expr_m(*operand))),
        ExprKind::BinOp { op, lhs, rhs } => ExprKindM::BinOp(
            op,
            Box::new(expr_m(*lhs)),
            Box::new(expr_m(*rhs)),
        ),
        ExprKind::AddrOf { mutable, expr } => ExprKindM::AddrOf(mutable, Box::new(expr_m(*expr))),
        ExprKind::Deref(e) => ExprKindM::Deref(Box::new(expr_m(*e))),
        ExprKind::Cast { expr, ty } => ExprKindM::Cast(Box::new(expr_m(*expr)), ty@),
        ExprKind::Unsafe(b) => ExprKindM::Unsafe(stmts_m(b.stmts@)),
        _ => ExprKindM::Other,
    }
}

pub open spec fn stmt_m(s: Stmt) -> StmtM
    decreases s,
{
    StmtM { kind: skind_m(s.kind), loc: s.loc }
}

#[verifier::opaque]
pub open spec fn stmts_m(s: Seq<Stmt>) -> Seq<StmtM>
    decreases s,
{
    if s.len() == 0 {
        Seq::empty()
    } else {
        stmts_m(s.drop_last()).push(stmt_m(s.last()))
    }
}

pub open spec fn ty_opt_m(t: Option<crate::ast::Ty>) -> Option<TyM> {
    match t {
        Some(t) => Some(t@),
        None => None,
    }
}

#[verifier::opaque]
pub open spec fn skind_m(k: StmtKind) -> StmtKindM
    decreases k,
{
    match k {
        StmtKind::Let { name, mutable, ty, expr } => StmtKindM::Let(
            name@,
            mutable,
            ty_opt_m(ty),
            expr_m(expr),
        ),
        StmtKind::Assign { name, expr } => StmtKindM::Assign(name@, expr_m(expr)),
        StmtKind::Return(e) => StmtKindM::Return(
            match e {
                Some(e) => Some(expr_m(e)),
                None => None,
            },
        ),
        StmtKind::If { cond, then_block, else_block } => StmtKindM::If(
            expr_m(cond),
            stmts_m(then_block.stmts@),
            match else_block {
                Some(b) => Some(stmts_m(b.stmts@)),
                None => None,
            },
        ),
        StmtKind::While { cond, body } => StmtKindM::While(expr_m(cond), stmts_m(body.stmts@)),
        StmtKind::Match { expr, arms, scrutinee_ty } => if scrutinee_ty is None {
            StmtKindM::Match(expr_m(expr), arms_m(arms@))
        } else {
            StmtKindM::Other
        },
        StmtKind::Println { format, args } => StmtKindM::Println(format@, exprs_m(args@)),
        StmtKind::Expr(e) => StmtKindM::Expr(expr_m(e)),
        _ => StmtKindM::Other,
    }
}

pub open spec fn arm_m(a: MatchArm) -> ArmM
    decreases a,
{
    ArmM { pat: pat_m(a.pat), guarded: a.guard is Some, body: stmts_m(a.body.stmts@) }
}

#[verifier::opaque]
pub open spec fn arms_m(s: Seq<MatchArm>) -> Seq<ArmM>
    decreases s,
{
    if s.len() == 0 {
        Seq::empty()
    } else {
        arms_m(s.drop_last()).push(arm_m(s.last()))
    }
}

// ---------------------------------------------------------------------------
// Patterns
// ---------------------------------------------------------------------------

pub open spec fn pat_m(p: Pat) -> PatM
    decreases p,
{
    match p {
        Pat::Wildcard => PatM::Wildcard,
        Pat::Binding(n) => PatM::Binding(n@),
        Pat::Bool(b) => PatM::Bool(b),
        Pat::Int(n) => PatM::Int(n),
        Pat::EnumVariant { ty_name, variant, bindings } => PatM::Variant(
            ty_name@,
            variant@,
            match bindings {
                PatBindings::Empty => BindsM::Empty,
                PatBindings::Tuple(v) => BindsM::Tuple(pats_m(v@)),
                PatBindings::Named(v, rest) => BindsM::Named(names_m(v@), rest),
            },
        ),
        _ => PatM::Other,
    }
}

#[verifier::opaque]
pub open spec fn pats_m(s: Seq<Pat>) -> Seq<PatM>
    decreases s,
{
    if s.len() == 0 {
        Seq::empty()
    } else {
        pats_m(s.drop_last()).push(pat_m(s.last()))
    }
}

pub open spec fn names_m(s: Seq<(String, String)>) -> Seq<(Seq<char>, Seq<char>)> {
    s.map_values(|p: (String, String)| (p.0@, p.1@))
}

// ---------------------------------------------------------------------------
// Items
// ---------------------------------------------------------------------------

pub open spec fn field_m(f: FieldDecl) -> FieldM {
    FieldM { name: f.name@, ty: f.ty@, is_pub: f.is_pub }
}

pub open spec fn fields_m(s: Seq<FieldDecl>) -> Seq<FieldM> {
    s.map_values(|f: FieldDecl| field_m(f))
}

pub open spec fn vfields_m(f: VariantFields) -> VarFieldsM {
    match f {
        VariantFields::Unit => VarFieldsM::Unit,
        VariantFields::Tuple(ts) => VarFieldsM::Tuple(tys_view(ts@)),
        VariantFields::Named(fs) => VarFieldsM::Named(fields_m(fs@)),
    }
}

pub open spec fn variant_m(v: EnumVariant) -> VariantM {
    VariantM { name: v.name@, fields: vfields_m(v.fields) }
}

pub open spec fn variants_m(s: Seq<EnumVariant>) -> Seq<VariantM> {
    s.map_values(|v: EnumVariant| variant_m(v))
}

pub open spec fn param_m(p: Param) -> ParamM {
    ParamM { name: p.name@, ty: p.ty@ }
}

pub open spec fn params_m(s: Seq<Param>) -> Seq<ParamM> {
    s.map_values(|p: Param| param_m(p))
}

pub open spec fn fn_m(f: FnDecl) -> FnM {
    FnM {
        name: f.name@,
        receiver: f.receiver,
        params: params_m(f.params@),
        ret: f.return_ty@,
        body: stmts_m(f.body.stmts@),
        is_pub: f.is_pub,
        loc: f.loc,
    }
}

pub open spec fn fns_m(s: Seq<FnDecl>) -> Seq<FnM> {
    s.map_values(|f: FnDecl| fn_m(f))
}

pub open spec fn struct_m(s: StructDecl) -> StructM {
    StructM {
        name: s.name@,
        fields: fields_m(s.fields@),
        is_pub: s.is_pub,
        is_tuple: s.is_tuple,
        loc: s.loc,
    }
}

pub open spec fn enum_m(e: EnumDecl) -> EnumM {
    EnumM {
        name: e.name@,
        variants: variants_m(e.variants@),
        is_pub: e.is_pub,
        loc: e.loc,
    }
}

pub open spec fn impl_m(i: ImplBlock) -> ImplM {
    ImplM {
        ty_name: i.ty_name@,
        trait_name: match i.trait_name {
            Some(n) => Some(n@),
            None => None,
        },
        methods: fns_m(i.methods@),
    }
}

pub open spec fn item_m(it: Item) -> ItemM {
    match it {
        Item::Fn(f) => ItemM::Fn(fn_m(f)),
        Item::Struct(s) => ItemM::Struct(struct_m(s)),
        Item::Enum(e) => ItemM::Enum(enum_m(e)),
        Item::Impl(i) => ItemM::Impl(impl_m(i)),
        _ => ItemM::Other,
    }
}

pub open spec fn items_m(s: Seq<Item>) -> Seq<ItemM> {
    s.map_values(|it: Item| item_m(it))
}

/// The model of a file: the models of its items.
pub open spec fn file_m(f: File) -> Seq<ItemM> {
    items_m(f.items@)
}

/// An expression is a variable exactly when its model is one, of the same name.
pub proof fn lemma_var_m(k: ExprKind)
    ensures
        (k is Var) <==> (ekind_m(k) is Var),
        k matches ExprKind::Var(n) ==> ekind_m(k) == ExprKindM::Var(n@),
{
    reveal(ekind_m);
}

// ---------------------------------------------------------------------------
// Appending to a sequence appends its model
// ---------------------------------------------------------------------------

/// The models of empty sequences are empty.
pub proof fn lemma_empty_m()
    ensures
        exprs_m(Seq::empty()) == Seq::<ExprM>::empty(),
        inits_m(Seq::empty()) == Seq::<(Seq<char>, ExprM)>::empty(),
        stmts_m(Seq::empty()) == Seq::<StmtM>::empty(),
        arms_m(Seq::empty()) == Seq::<ArmM>::empty(),
        pats_m(Seq::empty()) == Seq::<PatM>::empty(),
{
    reveal(exprs_m);
    reveal(inits_m);
    reveal(stmts_m);
    reveal(arms_m);
    reveal(pats_m);
}

pub proof fn lemma_exprs_push(s: Seq<Expr>, e: Expr)
    ensures
        exprs_m(s.push(e)) == exprs_m(s).push(expr_m(e)),
{
    reveal(exprs_m);
    assert(s.push(e).drop_last() =~= s);
}

pub proof fn lemma_inits_push(s: Seq<(String, Expr)>, f: (String, Expr))
    ensures
        inits_m(s.push(f)) == inits_m(s).push((f.0@, expr_m(f.1))),
{
    reveal(inits_m);
    assert(s.push(f).drop_last() =~= s);
}

pub proof fn lemma_stmts_push(s: Seq<Stmt>, x: Stmt)
    ensures
        stmts_m(s.push(x)) == stmts_m(s).push(stmt_m(x)),
{
    reveal(stmts_m);
    assert(s.push(x).drop_last() =~= s);
}

pub proof fn lemma_arms_push(s: Seq<MatchArm>, a: MatchArm)
    ensures
        arms_m(s.push(a)) == arms_m(s).push(arm_m(a)),
{
    reveal(arms_m);
    assert(s.push(a).drop_last() =~= s);
}

pub proof fn lemma_tys_push(s: Seq<crate::ast::Ty>, x: crate::ast::Ty)
    ensures
        tys_view(s.push(x)) == tys_view(s).push(x@),
{
    crate::ast::lemma_tys_view(s.push(x));
    crate::ast::lemma_tys_view(s);
    assert(tys_view(s.push(x)) =~= tys_view(s).push(x@));
}

pub proof fn lemma_pats_push(s: Seq<Pat>, p: Pat)
    ensures
        pats_m(s.push(p)) == pats_m(s).push(pat_m(p)),
{
    reveal(pats_m);
    assert(s.push(p).drop_last() =~= s);
}

} // verus!
