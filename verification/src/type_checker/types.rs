//! Predicates on types, type compatibility, and type display.
use crate::ast::{Ty, TyM, tys_view, lemma_tys_view, lemma_vec_elems_decrease};
use crate::text::{cat, nat_to_dec, u64_to_string};
use vstd::prelude::*;

verus! {

/// Integer types (signed or unsigned, any width).
pub open spec fn is_integer_m(t: TyM) -> bool {
    match t {
        TyM::I8 | TyM::I16 | TyM::I32 | TyM::I64 | TyM::Isize | TyM::U8 | TyM::U16 | TyM::U32
        | TyM::U64 | TyM::Usize => true,
        _ => false,
    }
}

/// Floating-point types.
pub open spec fn is_float_m(t: TyM) -> bool {
    match t {
        TyM::F32 | TyM::F64 => true,
        _ => false,
    }
}

pub open spec fn is_numeric_m(t: TyM) -> bool {
    is_integer_m(t) || is_float_m(t)
}

/// References and raw pointers.
pub open spec fn is_ref_m(t: TyM) -> bool {
    match t {
        TyM::Ref(_) | TyM::RefMut(_) | TyM::RawConst(_) | TyM::RawMut(_) => true,
        _ => false,
    }
}

/// True if `ty` is an integer type (signed or unsigned, any width).
pub fn is_integer(ty: &Ty) -> (r: bool)
    ensures
        r == is_integer_m(ty@),
{
    match ty {
        Ty::I8 | Ty::I16 | Ty::I32 | Ty::I64 | Ty::Isize | Ty::U8 | Ty::U16 | Ty::U32 | Ty::U64
        | Ty::Usize => true,
        _ => false,
    }
}

/// True if `ty` is a floating-point type.
pub fn is_float(ty: &Ty) -> (r: bool)
    ensures
        r == is_float_m(ty@),
{
    match ty {
        Ty::F32 | Ty::F64 => true,
        _ => false,
    }
}

/// True if `ty` is any numeric type (integer or float).
pub fn is_numeric(ty: &Ty) -> (r: bool)
    ensures
        r == is_numeric_m(ty@),
{
    is_integer(ty) || is_float(ty)
}

/// True if `ty` is a reference or raw pointer (used to decide pass-by-ref in borrow check).
pub fn is_ref_ty(ty: &Ty) -> (r: bool)
    ensures
        r == is_ref_m(ty@),
{
    match ty {
        Ty::Ref(_) | Ty::RefMut(_) | Ty::RawConst(_) | Ty::RawMut(_) => true,
        _ => false,
    }
}

/// Named types (structs and enums) are not `Copy`: using one by value moves it.
/// Primitive types, references, raw pointers, arrays and tuples are `Copy`.
pub open spec fn is_non_copy_m(t: TyM) -> bool {
    t is Named
}

pub fn is_non_copy(ty: &Ty) -> (r: bool)
    ensures
        r == is_non_copy_m(ty@),
{
    matches!(ty, Ty::Named(_))
}

/// Type compatibility: a value of type `got` is acceptable where `expected` is required.
pub open spec fn compat_m(got: TyM, expected: TyM) -> bool
    decreases got,
{
    if got == expected {
        true
    } else if expected is SelfTy || got is SelfTy {
        true
    } else if got == TyM::I64 && is_integer_m(expected) {
        true
    } else if got == TyM::F64 && is_float_m(expected) {
        true
    } else if got == TyM::Never {
        true
    } else {
        match (got, expected) {
            (TyM::RefMut(a), TyM::Ref(b)) => compat_m(*a, *b),
            (TyM::RefMut(a), TyM::RawMut(b)) => compat_m(*a, *b),
            (TyM::Ref(a), TyM::RawConst(b)) => compat_m(*a, *b),
            (TyM::Array(ga, gn), TyM::Array(ea, en)) => gn == en && compat_m(*ga, *ea),
            (TyM::Tuple(gs), TyM::Tuple(es)) => compat_seq(gs, es),
            (TyM::FnPtr(gp, gr), TyM::FnPtr(ep, er)) => compat_seq(gp, ep) && compat_m(*gr, *er),
            _ => false,
        }
    }
}

/// Pointwise compatibility of two type lists of equal length.
pub open spec fn compat_seq(gs: Seq<TyM>, es: Seq<TyM>) -> bool
    decreases gs,
{
    if gs.len() != es.len() {
        false
    } else if gs.len() == 0 {
        true
    } else {
        compat_m(gs[0], es[0]) && compat_seq(gs.drop_first(), es.drop_first())
    }
}

proof fn lemma_compat_seq(gs: Seq<TyM>, es: Seq<TyM>)
    ensures
        compat_seq(gs, es) <==> (gs.len() == es.len() && forall|i: int|
            0 <= i < gs.len() ==> compat_m(#[trigger] gs[i], es[i])),
    decreases gs.len(),
{
    if gs.len() == es.len() && gs.len() > 0 {
        lemma_compat_seq(gs.drop_first(), es.drop_first());
        if compat_seq(gs, es) {
            assert forall|i: int| 0 <= i < gs.len() implies compat_m(#[trigger] gs[i], es[i]) by {
                if i > 0 {
                    assert(gs.drop_first()[i - 1] == gs[i]);
                    assert(es.drop_first()[i - 1] == es[i]);
                }
            }
        }
        if forall|i: int| 0 <= i < gs.len() ==> compat_m(#[trigger] gs[i], es[i]) {
            assert forall|i: int| 0 <= i < gs.len() - 1 implies compat_m(
                #[trigger] gs.drop_first()[i],
                es.drop_first()[i],
            ) by {
                assert(gs.drop_first()[i] == gs[i + 1]);
                assert(compat_m(gs[i + 1], es[i + 1]));
            }
            assert(compat_m(gs[0], es[0]));
        }
    }
}

fn tys_compat(gs: &Vec<Ty>, es: &Vec<Ty>, Ghost(outer): Ghost<Ty>) -> (r: bool)
    requires
        forall|i: int| 0 <= i < gs.len() ==> decreases_to!(outer => gs@[i]),
    ensures
        r == compat_seq(tys_view(gs@), tys_view(es@)),
    decreases outer, 0nat,
{
    proof {
        lemma_tys_view(gs@);
        lemma_tys_view(es@);
        lemma_compat_seq(tys_view(gs@), tys_view(es@));
    }
    if gs.len() != es.len() {
        return false;
    }
    let mut i: usize = 0;
    while i < gs.len()
        invariant
            i <= gs.len(),
            gs.len() == es.len(),
            tys_view(gs@).len() == gs.len(),
            tys_view(es@).len() == es.len(),
            forall|j: int| 0 <= j < gs.len() ==> decreases_to!(outer => gs@[j]),
            forall|j: int| 0 <= j < gs.len() ==> #[trigger] tys_view(gs@)[j] == gs@[j]@,
            forall|j: int| 0 <= j < es.len() ==> #[trigger] tys_view(es@)[j] == es@[j]@,
            forall|j: int| 0 <= j < i ==> compat_m(#[trigger] tys_view(gs@)[j], tys_view(es@)[j]),
        decreases gs.len() - i,
    {
        if !ty_compat(&gs[i], &es[i]) {
            proof {
                lemma_compat_seq(tys_view(gs@), tys_view(es@));
                assert(!compat_m(tys_view(gs@)[i as int], tys_view(es@)[i as int]));
            }
            return false;
        }
        i += 1;
    }
    true
}

/// Type compatibility: `got` is acceptable where `expected` is required.
/// Handles widening coercions (integer/float literals, Never, &mut -> &, etc.)
/// and structural compatibility for arrays, tuples, and function pointers.
pub fn ty_compat(got: &Ty, expected: &Ty) -> (r: bool)
    ensures
        r == compat_m(got@, expected@),
    decreases got, 2nat,
{
    if got.eq_ty(expected) {
        return true;
    }
    if matches!(expected, Ty::SelfTy) || matches!(got, Ty::SelfTy) {
        return true;
    }
    if matches!(got, Ty::I64) && is_integer(expected) {
        return true;
    }
    if matches!(got, Ty::F64) && is_float(expected) {
        return true;
    }
    if matches!(got, Ty::Never) {
        return true;
    }
    match (got, expected) {
        (Ty::RefMut(a), Ty::Ref(b)) => ty_compat(a, b),
        (Ty::RefMut(a), Ty::RawMut(b)) => ty_compat(a, b),
        (Ty::Ref(a), Ty::RawConst(b)) => ty_compat(a, b),
        (Ty::Array(ga, gn), Ty::Array(ea, en)) => *gn == *en && ty_compat(ga, ea),
        (Ty::Tuple(gs), Ty::Tuple(es)) => {
            proof {
                lemma_vec_elems_decrease(*got, *gs);
            }
            tys_compat(gs, es, Ghost(*got))
        },
        (Ty::FnPtr { params: gp, ret: gr }, Ty::FnPtr { params: ep, ret: er }) => {
            proof {
                lemma_vec_elems_decrease(*got, *gp);
            }
            tys_compat(gp, ep, Ghost(*got)) && ty_compat(gr, er)
        },
        _ => false,
    }
}

/// The struct/enum name a type refers to, looking through references.
pub open spec fn base_name_m(t: TyM) -> Option<Seq<char>>
    decreases t,
{
    match t {
        TyM::Named(n) => Some(n),
        TyM::Ref(inner) => base_name_m(*inner),
        TyM::RefMut(inner) => base_name_m(*inner),
        _ => None,
    }
}

/// Extract the base struct/enum name from a type, peeling through references.
/// Used for field and method resolution (e.g. `&Point` -> `"Point"`).
pub fn base_type_name(ty: &Ty) -> (r: Option<String>)
    ensures
        match r {
            Some(s) => base_name_m(ty@) == Some(s@),
            None => base_name_m(ty@) is None,
        },
    decreases ty,
{
    match ty {
        Ty::Named(n) => Some(n.clone()),
        Ty::Ref(inner) => base_type_name(inner),
        Ty::RefMut(inner) => base_type_name(inner),
        _ => None,
    }
}

/// Human-readable type representation for error messages.
pub open spec fn display_m(t: TyM) -> Seq<char>
    decreases t,
{
    match t {
        TyM::I8 => "i8"@,
        TyM::I16 => "i16"@,
        TyM::I32 => "i32"@,
        TyM::I64 => "i64"@,
        TyM::Isize => "isize"@,
        TyM::U8 => "u8"@,
        TyM::U16 => "u16"@,
        TyM::U32 => "u32"@,
        TyM::U64 => "u64"@,
        TyM::Usize => "usize"@,
        TyM::F32 => "f32"@,
        TyM::F64 => "f64"@,
        TyM::Bool => "bool"@,
        TyM::Char => "char"@,
        TyM::Unit => "()"@,
        TyM::Str => "&str"@,
        TyM::Never => "!"@,
        TyM::Array(inner, n) => "["@ + display_m(*inner) + "; "@ + nat_to_dec(n as nat) + "]"@,
        TyM::Slice(inner) => "&["@ + display_m(*inner) + "]"@,
        TyM::Tuple(ts) => "("@ + display_list(ts) + ")"@,
        TyM::FnPtr(ps, ret) => "fn("@ + display_list(ps) + ") -> "@ + display_m(*ret),
        TyM::Named(n) => n,
        TyM::DynTrait(n) => "dyn "@ + n,
        TyM::SelfTy => "Self"@,
        TyM::Ref(inner) => "&"@ + display_m(*inner),
        TyM::RefMut(inner) => "&mut "@ + display_m(*inner),
        TyM::RawConst(inner) => "*const "@ + display_m(*inner),
        TyM::RawMut(inner) => "*mut "@ + display_m(*inner),
    }
}

/// The displays of `ts`, separated by `", "`.
pub open spec fn display_list(ts: Seq<TyM>) -> Seq<char>
    decreases ts,
{
    if ts.len() == 0 {
        Seq::empty()
    } else if ts.len() == 1 {
        display_m(ts[0])
    } else {
        display_list(ts.drop_last()) + ", "@ + display_m(ts.last())
    }
}

fn display_tys(v: &Vec<Ty>, Ghost(outer): Ghost<Ty>) -> (r: String)
    requires
        forall|i: int| 0 <= i < v.len() ==> decreases_to!(outer => v@[i]),
    ensures
        r@ == display_list(tys_view(v@)),
    decreases outer, 0nat,
{
    proof {
        lemma_tys_view(v@);
    }
    let mut out = String::new();
    let mut i: usize = 0;
    while i < v.len()
        invariant
            i <= v.len(),
            tys_view(v@).len() == v.len(),
            forall|j: int| 0 <= j < v.len() ==> decreases_to!(outer => v@[j]),
            forall|j: int| 0 <= j < v.len() ==> #[trigger] tys_view(v@)[j] == v@[j]@,
            out@ == display_list(tys_view(v@).take(i as int)),
        decreases v.len() - i,
    {
        let d = ty_display(&v[i]);
        let ghost pre = tys_view(v@).take(i as int);
        let ghost next = tys_view(v@).take(i + 1);
        assert(next.drop_last() =~= pre);
        assert(next.last() == v@[i as int]@);
        if i > 0 {
            out.append(", ");
        }
        out.append(d.as_str());
        proof {
            if i == 0 {
                assert(out@ =~= display_list(next));
            } else {
                assert(out@ =~= display_list(next));
            }
        }
        i += 1;
    }
    assert(tys_view(v@).take(v.len() as int) =~= tys_view(v@));
    out
}

/// Human-readable type representation for error messages.
pub fn ty_display(ty: &Ty) -> (r: String)
    ensures
        r@ == display_m(ty@),
    decreases ty, 2nat,
{
    match ty {
        Ty::I8 => String::from_str("i8"),
        Ty::I16 => String::from_str("i16"),
        Ty::I32 => String::from_str("i32"),
        Ty::I64 => String::from_str("i64"),
        Ty::Isize => String::from_str("isize"),
        Ty::U8 => String::from_str("u8"),
        Ty::U16 => String::from_str("u16"),
        Ty::U32 => String::from_str("u32"),
        Ty::U64 => String::from_str("u64"),
        Ty::Usize => String::from_str("usize"),
        Ty::F32 => String::from_str("f32"),
        Ty::F64 => String::from_str("f64"),
        Ty::Bool => String::from_str("bool"),
        Ty::Char => String::from_str("char"),
        Ty::Unit => String::from_str("()"),
        Ty::Str => String::from_str("&str"),
        Ty::Never => String::from_str("!"),
        Ty::Array(inner, n) => {
            let mut s = String::from_str("[");
            let d = ty_display(inner);
            s.append(d.as_str());
            s.append("; ");
            let k = u64_to_string(*n as u64);
            s.append(k.as_str());
            s.append("]");
            s
        },
        Ty::Slice(inner) => {
            let d = ty_display(inner);
            let mut s = cat("&[", d.as_str());
            s.append("]");
            s
        },
        Ty::Tuple(ts) => {
            proof {
                lemma_vec_elems_decrease(*ty, *ts);
            }
            let d = display_tys(ts, Ghost(*ty));
            let mut s = cat("(", d.as_str());
            s.append(")");
            s
        },
        Ty::FnPtr { params, ret } => {
            proof {
                lemma_vec_elems_decrease(*ty, *params);
            }
            let ps = display_tys(params, Ghost(*ty));
            let mut s = cat("fn(", ps.as_str());
            s.append(") -> ");
            let d = ty_display(ret);
            s.append(d.as_str());
            s
        },
        Ty::Named(n) => n.clone(),
        Ty::DynTrait(t) => cat("dyn ", t.as_str()),
        Ty::SelfTy => String::from_str("Self"),
        Ty::Ref(inner) => {
            let d = ty_display(inner);
            cat("&", d.as_str())
        },
        Ty::RefMut(inner) => {
            let d = ty_display(inner);
            cat("&mut ", d.as_str())
        },
        Ty::RawConst(inner) => {
            let d = ty_display(inner);
            cat("*const ", d.as_str())
        },
        Ty::RawMut(inner) => {
            let d = ty_display(inner);
            cat("*mut ", d.as_str())
        },
    }
}

} // verus!
