//! Abstract syntax of the source language, and the mathematical model of its types.
use crate::loc::Loc;
use crate::text::str_eq;
use vstd::prelude::*;

verus! {

/// A complete source file / compilation unit.
pub struct File {
    pub items: Vec<Item>,
}

/// A top-level (or module-level) item.
pub enum Item {
    Fn(FnDecl),
    Struct(StructDecl),
    Enum(EnumDecl),
    Impl(ImplBlock),
    Trait(TraitDecl),
    TypeAlias { name: String, ty: Ty, is_pub: bool },
    Mod { name: String, items: Vec<Item>, is_pub: bool },
    ExternBlock(Vec<ExternFn>),
    Const { name: String, ty: Ty, value: Expr, is_pub: bool },
    Static { name: String, ty: Ty, value: Expr, mutable: bool, is_pub: bool },
    /// An item the front end accepts and ignores (e.g. `use`).
    Skip,
}

pub struct FnDecl {
    pub name: String,
    pub receiver: Option<Receiver>,
    pub params: Vec<Param>,
    pub return_ty: Ty,
    pub body: Block,
    pub is_pub: bool,
    pub loc: Loc,
}

/// A function declared in an `extern "C" { ... }` block.
pub struct ExternFn {
    pub name: String,
    pub params: Vec<Param>,
    pub return_ty: Ty,
    pub is_variadic: bool,
    pub loc: Loc,
}

pub struct Param {
    pub name: String,
    pub ty: Ty,
}

pub enum Receiver {
    Value,
    Ref,
    RefMut,
}

pub struct FieldDecl {
    pub name: String,
    pub ty: Ty,
    pub is_pub: bool,
}

pub struct StructDecl {
    pub name: String,
    pub fields: Vec<FieldDecl>,
    pub is_pub: bool,
    /// Tuple structs name their fields `_0`, `_1`, ...
    pub is_tuple: bool,
    pub loc: Loc,
}

pub enum VariantFields {
    Unit,
    Tuple(Vec<Ty>),
    Named(Vec<FieldDecl>),
}

pub struct EnumVariant {
    pub name: String,
    pub fields: VariantFields,
}

pub struct EnumDecl {
    pub name: String,
    pub variants: Vec<EnumVariant>,
    pub is_pub: bool,
    pub loc: Loc,
}

pub struct ImplBlock {
    pub ty_name: String,
    pub trait_name: Option<String>,
    pub methods: Vec<FnDecl>,
}

/// A method signature in a trait, with an optional default body.
pub struct TraitMethod {
    pub name: String,
    pub receiver: Option<Receiver>,
    pub params: Vec<Param>,
    pub return_ty: Ty,
    pub body: Option<Block>,
}

pub struct TraitDecl {
    pub name: String,
    pub methods: Vec<TraitMethod>,
    pub is_pub: bool,
}

/// Types.
pub enum Ty {
    I8,
    I16,
    I32,
    I64,
    Isize,
    U8,
    U16,
    U32,
    U64,
    Usize,
    F32,
    F64,
    Bool,
    Char,
    Unit,
    Str,
    Never,
    Array(Box<Ty>, usize),
    Slice(Box<Ty>),
    Tuple(Vec<Ty>),
    FnPtr { params: Vec<Ty>, ret: Box<Ty> },
    Named(String),
    DynTrait(String),
    SelfTy,
    Ref(Box<Ty>),
    RefMut(Box<Ty>),
    RawConst(Box<Ty>),
    RawMut(Box<Ty>),
}

pub struct Block {
    pub stmts: Vec<Stmt>,
}

pub struct Stmt {
    pub kind: StmtKind,
    pub loc: Loc,
}

pub enum StmtKind {
    /// `let [mut] name[: ty] = expr;`
    Let { name: String, mutable: bool, ty: Option<Ty>, expr: Expr },
    /// `name = expr;`
    Assign { name: String, expr: Expr },
    /// `return [expr];` (also an implicit tail expression)
    Return(Option<Expr>),
    If { cond: Expr, then_block: Block, else_block: Option<Block> },
    While { cond: Expr, body: Block },
    Loop(Block),
    For { var: String, iter: Expr, body: Block, elem_ty: Option<Ty>, iter_ty: Option<Ty> },
    Break(Option<Expr>),
    Continue,
    Match { expr: Expr, arms: Vec<MatchArm>, scrutinee_ty: Option<Ty> },
    /// `println!("format", args...);`
    Println { format: String, args: Vec<Expr> },
    /// `lhs op= rhs;`
    CompoundAssign { op: BinOp, lhs: Expr, rhs: Expr },
    IfLet {
        pat: Pat,
        expr: Expr,
        expr_ty: Option<Ty>,
        and_cond: Option<Expr>,
        then_block: Block,
        else_block: Option<Block>,
    },
    WhileLet { pat: Pat, expr: Expr, expr_ty: Option<Ty>, body: Block },
    /// Expression used as a statement, e.g. a function call.
    Expr(Expr),
    /// `let pat[: ty] = expr [else { ... }];`
    LetPat { pat: Pat, ty: Option<Ty>, expr: Expr, else_block: Option<Block> },
}

pub struct Expr {
    pub kind: ExprKind,
    pub loc: Loc,
}

#[allow(inconsistent_fields)]
pub enum ExprKind {
    /// Integer literal with an optional type suffix.
    Int(i64, Option<Ty>),
    /// Float literal (its source digits) with an optional type suffix.
    Float(String, Option<Ty>),
    Bool(bool),
    Char(u32),
    Str(String),
    Var(String),
    Tuple(Vec<Expr>),
    ArrayLit(Vec<Expr>),
    Index { expr: Box<Expr>, index: Box<Expr> },
    Range { start: Option<Box<Expr>>, end: Option<Box<Expr>> },
    StructLit { name: String, fields: Vec<(String, Expr)>, rest: Option<Box<Expr>> },
    EnumStructLit { ty_name: String, variant: String, fields: Vec<(String, Expr)> },
    Field { expr: Box<Expr>, field: String },
    Call { name: String, args: Vec<Expr> },
    AssocCall { ty_name: String, method: String, args: Vec<Expr> },
    MethodCall { expr: Box<Expr>, method: String, args: Vec<Expr> },
    UnOp { op: UnOp, operand: Box<Expr> },
    BinOp { op: BinOp, lhs: Box<Expr>, rhs: Box<Expr> },
    AddrOf { mutable: bool, expr: Box<Expr> },
    Deref(Box<Expr>),
    Cast { expr: Box<Expr>, ty: Ty },
    Unsafe(Block),
    Block(Block),
    If { cond: Box<Expr>, then_block: Block, else_block: Option<Block> },
    Match { expr: Box<Expr>, arms: Vec<MatchArm>, scrutinee_ty: Option<Ty> },
    Loop { body: Block, result_ty: Option<Ty> },
    IfLet {
        pat: Pat,
        expr: Box<Expr>,
        expr_ty: Option<Ty>,
        then_block: Block,
        else_block: Option<Block>,
    },
    /// `panic!(..)`-like diverging expression.
    Abort { message: Option<Box<Expr>> },
}

pub struct MatchArm {
    pub pat: Pat,
    pub guard: Option<Expr>,
    pub body: Block,
}

pub enum Pat {
    Wildcard,
    Binding(String),
    Bool(bool),
    Int(i64),
    Char(u32),
    CharRange { first: u32, last: u32 },
    At { name: String, pat: Box<Pat> },
    Range { lo: i64, hi: i64, inclusive: bool },
    Tuple(Vec<Pat>),
    TupleStruct { ty_name: String, fields: Vec<Pat> },
    Or(Vec<Pat>),
    EnumVariant { ty_name: String, variant: String, bindings: PatBindings },
}

pub enum PatBindings {
    Empty,
    Tuple(Vec<Pat>),
    /// `(field, binding)` pairs, and whether `..` was present.
    Named(Vec<(String, String)>, bool),
}

#[derive(Clone, Copy, PartialEq, Eq, Structural)]
pub enum BinOp {
    // Arithmetic
    Add,
    Sub,
    Mul,
    Div,
    Rem,
    // Comparison
    Eq,
    Ne,
    Lt,
    Gt,
    Le,
    Ge,
    // Logical
    And,
    Or,
    // Bitwise
    BitAnd,
    BitOr,
    BitXor,
    Shl,
    Shr,
}

#[derive(Clone, Copy, PartialEq, Eq, Structural)]
pub enum UnOp {
    Neg,
    Not,
    BitNot,
}

/// The mathematical model of a type: names are character sequences.
pub enum TyM {
    I8,
    I16,
    I32,
    I64,
    Isize,
    U8,
    U16,
    U32,
    U64,
    Usize,
    F32,
    F64,
    Bool,
    Char,
    Unit,
    Str,
    Never,
    Array(Box<TyM>, usize),
    Slice(Box<TyM>),
    Tuple(Seq<TyM>),
    FnPtr(Seq<TyM>, Box<TyM>),
    Named(Seq<char>),
    DynTrait(Seq<char>),
    SelfTy,
    Ref(Box<TyM>),
    RefMut(Box<TyM>),
    RawConst(Box<TyM>),
    RawMut(Box<TyM>),
}

impl View for Ty {
    type V = TyM;

    open spec fn view(&self) -> TyM
        decreases self,
    {
        match self {
            Ty::I8 => TyM::I8,
            Ty::I16 => TyM::I16,
            Ty::I32 => TyM::I32,
            Ty::I64 => TyM::I64,
            Ty::Isize => TyM::Isize,
            Ty::U8 => TyM::U8,
            Ty::U16 => TyM::U16,
            Ty::U32 => TyM::U32,
            Ty::U64 => TyM::U64,
            Ty::Usize => TyM::Usize,
            Ty::F32 => TyM::F32,
            Ty::F64 => TyM::F64,
            Ty::Bool => TyM::Bool,
            Ty::Char => TyM::Char,
            Ty::Unit => TyM::Unit,
            Ty::Str => TyM::Str,
            Ty::Never => TyM::Never,
            Ty::Array(t, n) => TyM::Array(Box::new((**t).view()), *n),
            Ty::Slice(t) => TyM::Slice(Box::new((**t).view())),
            Ty::Tuple(v) => TyM::Tuple(tys_view(v@)),
            Ty::FnPtr { params, ret } => TyM::FnPtr(tys_view(params@), Box::new((**ret).view())),
            Ty::Named(n) => TyM::Named(n@),
            Ty::DynTrait(n) => TyM::DynTrait(n@),
            Ty::SelfTy => TyM::SelfTy,
            Ty::Ref(t) => TyM::Ref(Box::new((**t).view())),
            Ty::RefMut(t) => TyM::RefMut(Box::new((**t).view())),
            Ty::RawConst(t) => TyM::RawConst(Box::new((**t).view())),
            Ty::RawMut(t) => TyM::RawMut(Box::new((**t).view())),
        }
    }
}

/// The models of a sequence of types.
pub open spec fn tys_view(s: Seq<Ty>) -> Seq<TyM>
    decreases s,
{
    if s.len() == 0 {
        Seq::empty()
    } else {
        seq![s[0].view()] + tys_view(s.drop_first())
    }
}

pub proof fn lemma_tys_view(s: Seq<Ty>)
    ensures
        tys_view(s).len() == s.len(),
        forall|i: int| 0 <= i < s.len() ==> #[trigger] tys_view(s)[i] == s[i]@,
    decreases s.len(),
{
    if s.len() > 0 {
        lemma_tys_view(s.drop_first());
        let r = tys_view(s.drop_first());
        assert(tys_view(s) == seq![s[0].view()] + r);
        assert forall|i: int| 0 <= i < s.len() implies #[trigger] tys_view(s)[i] == s[i]@ by {
            if i > 0 {
                assert(s.drop_first()[i - 1] == s[i]);
                assert((seq![s[0].view()] + r)[i] == r[i - 1]);
            }
        }
    }
}

/// Two sequences of types with pointwise equal models have equal models.
pub proof fn lemma_tys_view_ext(a: Seq<Ty>, b: Seq<Ty>)
    requires
        a.len() == b.len(),
        forall|i: int| 0 <= i < a.len() ==> a[i]@ == b[i]@,
    ensures
        tys_view(a) == tys_view(b),
{
    lemma_tys_view(a);
    lemma_tys_view(b);
    assert(tys_view(a) =~= tys_view(b));
}

/// The model of a type with every `Self` replaced by the named type `n`.
pub open spec fn resolve_self_m(t: TyM, n: Seq<char>) -> TyM
    decreases t,
{
    match t {
        TyM::SelfTy => TyM::Named(n),
        TyM::Array(e, k) => TyM::Array(Box::new(resolve_self_m(*e, n)), k),
        TyM::Slice(e) => TyM::Slice(Box::new(resolve_self_m(*e, n))),
        TyM::Tuple(ts) => TyM::Tuple(resolve_self_seq(ts, n)),
        TyM::FnPtr(ps, r) => TyM::FnPtr(resolve_self_seq(ps, n), Box::new(resolve_self_m(*r, n))),
        TyM::Ref(e) => TyM::Ref(Box::new(resolve_self_m(*e, n))),
        TyM::RefMut(e) => TyM::RefMut(Box::new(resolve_self_m(*e, n))),
        TyM::RawConst(e) => TyM::RawConst(Box::new(resolve_self_m(*e, n))),
        TyM::RawMut(e) => TyM::RawMut(Box::new(resolve_self_m(*e, n))),
        _ => t,
    }
}

pub open spec fn resolve_self_seq(ts: Seq<TyM>, n: Seq<char>) -> Seq<TyM>
    decreases ts,
{
    if ts.len() == 0 {
        Seq::empty()
    } else {
        seq![resolve_self_m(ts[0], n)] + resolve_self_seq(ts.drop_first(), n)
    }
}

pub proof fn lemma_resolve_self_seq(ts: Seq<TyM>, n: Seq<char>)
    ensures
        resolve_self_seq(ts, n).len() == ts.len(),
        forall|i: int|
            0 <= i < ts.len() ==> #[trigger] resolve_self_seq(ts, n)[i] == resolve_self_m(ts[i], n),
    decreases ts.len(),
{
    if ts.len() > 0 {
        lemma_resolve_self_seq(ts.drop_first(), n);
        let r = resolve_self_seq(ts.drop_first(), n);
        assert forall|i: int| 0 <= i < ts.len() implies #[trigger] resolve_self_seq(ts, n)[i]
            == resolve_self_m(ts[i], n) by {
            if i > 0 {
                assert(ts.drop_first()[i - 1] == ts[i]);
                assert((seq![resolve_self_m(ts[0], n)] + r)[i] == r[i - 1]);
            }
        }
    }
}

fn clone_tys(v: &Vec<Ty>, Ghost(outer): Ghost<Ty>) -> (r: Vec<Ty>)
    requires
        forall|i: int| 0 <= i < v.len() ==> decreases_to!(outer => v@[i]),
    ensures
        tys_view(r@) == tys_view(v@),
    decreases outer, 0nat,
{
    let mut out: Vec<Ty> = Vec::new();
    let mut i: usize = 0;
    while i < v.len()
        invariant
            i <= v.len(),
            out.len() == i,
            forall|j: int| 0 <= j < v.len() ==> decreases_to!(outer => v@[j]),
            forall|j: int| 0 <= j < i ==> out@[j]@ == v@[j]@,
        decreases v.len() - i,
    {
        let c = v[i].clone_ty();
        out.push(c);
        i += 1;
    }
    proof {
        lemma_tys_view_ext(out@, v@);
    }
    out
}

fn tys_eq(a: &Vec<Ty>, b: &Vec<Ty>, Ghost(outer): Ghost<Ty>) -> (r: bool)
    requires
        forall|i: int| 0 <= i < a.len() ==> decreases_to!(outer => a@[i]),
    ensures
        r == (tys_view(a@) == tys_view(b@)),
    decreases outer, 0nat,
{
    proof {
        lemma_tys_view(a@);
        lemma_tys_view(b@);
    }
    if a.len() != b.len() {
        return false;
    }
    let mut i: usize = 0;
    while i < a.len()
        invariant
            i <= a.len(),
            a.len() == b.len(),
            tys_view(a@).len() == a.len(),
            tys_view(b@).len() == b.len(),
            forall|j: int| 0 <= j < a.len() ==> decreases_to!(outer => a@[j]),
            forall|j: int| 0 <= j < i ==> a@[j]@ == b@[j]@,
            forall|j: int| 0 <= j < a.len() ==> #[trigger] tys_view(a@)[j] == a@[j]@,
            forall|j: int| 0 <= j < b.len() ==> #[trigger] tys_view(b@)[j] == b@[j]@,
        decreases a.len() - i,
    {
        if !a[i].eq_ty(&b[i]) {
            assert(tys_view(a@)[i as int] != tys_view(b@)[i as int]);
            return false;
        }
        i += 1;
    }
    proof {
        lemma_tys_view_ext(a@, b@);
    }
    true
}

fn resolve_self_tys(v: &Vec<Ty>, n: &String, Ghost(outer): Ghost<Ty>) -> (r: Vec<Ty>)
    requires
        forall|i: int| 0 <= i < v.len() ==> decreases_to!(outer => v@[i]),
    ensures
        tys_view(r@) == resolve_self_seq(tys_view(v@), n@),
    decreases outer, 0nat,
{
    let mut out: Vec<Ty> = Vec::new();
    let mut i: usize = 0;
    while i < v.len()
        invariant
            i <= v.len(),
            out.len() == i,
            forall|j: int| 0 <= j < v.len() ==> decreases_to!(outer => v@[j]),
            forall|j: int| 0 <= j < i ==> out@[j]@ == resolve_self_m(v@[j]@, n@),
        decreases v.len() - i,
    {
        let c = v[i].resolve_self(n);
        out.push(c);
        i += 1;
    }
    proof {
        lemma_tys_view(out@);
        lemma_tys_view(v@);
        lemma_resolve_self_seq(tys_view(v@), n@);
        assert(tys_view(out@) =~= resolve_self_seq(tys_view(v@), n@));
    }
    out
}

pub proof fn lemma_vec_elems_decrease(outer: Ty, v: Vec<Ty>)
    requires
        decreases_to!(outer => v),
    ensures
        forall|i: int| 0 <= i < v.len() ==> decreases_to!(outer => v@[i]),
{
    assert forall|i: int| 0 <= i < v.len() implies decreases_to!(outer => v@[i]) by {
        vstd::std_specs::vec::axiom_vec_index_decreases(v, i);
    }
}

impl Ty {
    /// A deep copy of the type.
    pub fn clone_ty(&self) -> (r: Ty)
        ensures
            r@ == self@,
        decreases self, 1nat,
    {
        match self {
            Ty::I8 => Ty::I8,
            Ty::I16 => Ty::I16,
            Ty::I32 => Ty::I32,
            Ty::I64 => Ty::I64,
            Ty::Isize => Ty::Isize,
            Ty::U8 => Ty::U8,
            Ty::U16 => Ty::U16,
            Ty::U32 => Ty::U32,
            Ty::U64 => Ty::U64,
            Ty::Usize => Ty::Usize,
            Ty::F32 => Ty::F32,
            Ty::F64 => Ty::F64,
            Ty::Bool => Ty::Bool,
            Ty::Char => Ty::Char,
            Ty::Unit => Ty::Unit,
            Ty::Str => Ty::Str,
            Ty::Never => Ty::Never,
            Ty::Array(t, n) => Ty::Array(Box::new(t.clone_ty()), *n),
            Ty::Slice(t) => Ty::Slice(Box::new(t.clone_ty())),
            Ty::Tuple(v) => {
                proof {
                    lemma_vec_elems_decrease(*self, *v);
                }
                Ty::Tuple(clone_tys(v, Ghost(*self)))
            },
            Ty::FnPtr { params, ret } => {
                proof {
                    lemma_vec_elems_decrease(*self, *params);
                }
                let ps = clone_tys(params, Ghost(*self));
                Ty::FnPtr { params: ps, ret: Box::new(ret.clone_ty()) }
            },
            Ty::Named(n) => Ty::Named(n.clone()),
            Ty::DynTrait(n) => Ty::DynTrait(n.clone()),
            Ty::SelfTy => Ty::SelfTy,
            Ty::Ref(t) => Ty::Ref(Box::new(t.clone_ty())),
            Ty::RefMut(t) => Ty::RefMut(Box::new(t.clone_ty())),
            Ty::RawConst(t) => Ty::RawConst(Box::new(t.clone_ty())),
            Ty::RawMut(t) => Ty::RawMut(Box::new(t.clone_ty())),
        }
    }

    /// Structural equality of types.
    pub fn eq_ty(&self, other: &Ty) -> (r: bool)
        ensures
            r == (self@ == other@),
        decreases self, 1nat,
    {
        match (self, other) {
            (Ty::I8, Ty::I8) => true,
            (Ty::I16, Ty::I16) => true,
            (Ty::I32, Ty::I32) => true,
            (Ty::I64, Ty::I64) => true,
            (Ty::Isize, Ty::Isize) => true,
            (Ty::U8, Ty::U8) => true,
            (Ty::U16, Ty::U16) => true,
            (Ty::U32, Ty::U32) => true,
            (Ty::U64, Ty::U64) => true,
            (Ty::Usize, Ty::Usize) => true,
            (Ty::F32, Ty::F32) => true,
            (Ty::F64, Ty::F64) => true,
            (Ty::Bool, Ty::Bool) => true,
            (Ty::Char, Ty::Char) => true,
            (Ty::Unit, Ty::Unit) => true,
            (Ty::Str, Ty::Str) => true,
            (Ty::Never, Ty::Never) => true,
            (Ty::SelfTy, Ty::SelfTy) => true,
            (Ty::Array(a, n), Ty::Array(b, m)) => *n == *m && a.eq_ty(b),
            (Ty::Slice(a), Ty::Slice(b)) => a.eq_ty(b),
            (Ty::Tuple(a), Ty::Tuple(b)) => {
                proof {
                    lemma_vec_elems_decrease(*self, *a);
                }
                tys_eq(a, b, Ghost(*self))
            },
            (Ty::FnPtr { params: pa, ret: ra }, Ty::FnPtr { params: pb, ret: rb }) => {
                proof {
                    lemma_vec_elems_decrease(*self, *pa);
                }
                tys_eq(pa, pb, Ghost(*self)) && ra.eq_ty(rb)
            },
            (Ty::Named(a), Ty::Named(b)) => str_eq(a.as_str(), b.as_str()),
            (Ty::DynTrait(a), Ty::DynTrait(b)) => str_eq(a.as_str(), b.as_str()),
            (Ty::Ref(a), Ty::Ref(b)) => a.eq_ty(b),
            (Ty::RefMut(a), Ty::RefMut(b)) => a.eq_ty(b),
            (Ty::RawConst(a), Ty::RawConst(b)) => a.eq_ty(b),
            (Ty::RawMut(a), Ty::RawMut(b)) => a.eq_ty(b),
            _ => false,
        }
    }

    /// The type with every `Self` replaced by the named type `ty_name`.
    pub fn resolve_self(&self, ty_name: &String) -> (r: Ty)
        ensures
            r@ == resolve_self_m(self@, ty_name@),
        decreases self, 1nat,
    {
        match self {
            Ty::SelfTy => Ty::Named(ty_name.clone()),
            Ty::Array(t, n) => Ty::Array(Box::new(t.resolve_self(ty_name)), *n),
            Ty::Slice(t) => Ty::Slice(Box::new(t.resolve_self(ty_name))),
            Ty::Tuple(v) => {
                proof {
                    lemma_vec_elems_decrease(*self, *v);
                }
                Ty::Tuple(resolve_self_tys(v, ty_name, Ghost(*self)))
            },
            Ty::FnPtr { params, ret } => {
                proof {
                    lemma_vec_elems_decrease(*self, *params);
                }
                let ps = resolve_self_tys(params, ty_name, Ghost(*self));
                Ty::FnPtr { params: ps, ret: Box::new(ret.resolve_self(ty_name)) }
            },
            Ty::Ref(t) => Ty::Ref(Box::new(t.resolve_self(ty_name))),
            Ty::RefMut(t) => Ty::RefMut(Box::new(t.resolve_self(ty_name))),
            Ty::RawConst(t) => Ty::RawConst(Box::new(t.resolve_self(ty_name))),
            Ty::RawMut(t) => Ty::RawMut(Box::new(t.resolve_self(ty_name))),
            _ => self.clone_ty(),
        }
    }
}

} // verus!
