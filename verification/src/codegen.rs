//! Code generation: a checked program of `println!` statements to C source.
//!
//! Each function becomes a C function of no arguments; `main` returns 0. Each
//! `println!` becomes a `printf` call in which every `{}` of the format string is
//! `%lld`; its arguments are integer expressions, written fully parenthesised.
use crate::ast::{BinOp, Expr, ExprKind, File, FnDecl, Item, Stmt, StmtKind};
use crate::text::{i64_to_string, push_char, str_eq};
use crate::type_checker::tc::lemma_vec_index_decreases;
use vstd::prelude::*;

verus! {

// ---------------------------------------------------------------------------
// What the generator accepts
// ---------------------------------------------------------------------------

/// The operators that have a C counterpart here.
pub open spec fn arith_op(op: BinOp) -> bool {
    op is Add || op is Sub || op is Mul || op is Div || op is Rem
}

/// An expression made of integer literals and arithmetic operators.
pub open spec fn expr_ok(e: Expr) -> bool
    decreases e,
{
    match e.kind {
        ExprKind::Int(..) => true,
        ExprKind::BinOp { op, lhs, rhs } => arith_op(op) && expr_ok(*lhs) && expr_ok(*rhs),
        _ => false,
    }
}

/// A `println!` statement whose arguments are integer expressions.
pub open spec fn stmt_ok(s: Stmt) -> bool {
    match s.kind {
        StmtKind::Println { args, .. } => forall|i: int| 0 <= i < args.len() ==> expr_ok(#[trigger] args@[i]),
        _ => false,
    }
}

/// A function whose body holds only such statements.
pub open spec fn fn_ok(f: FnDecl) -> bool {
    forall|j: int| 0 <= j < f.body.stmts.len() ==> stmt_ok(#[trigger] f.body.stmts@[j])
}

/// A file the generator can translate: functions only, each made of `println!`s of
/// integer expressions.
pub open spec fn file_ok(f: File) -> bool {
    forall|i: int| 0 <= i < f.items.len() ==> (#[trigger] f.items@[i] matches Item::Fn(fd) && fn_ok(fd))
}

// ---------------------------------------------------------------------------
// The C text
// ---------------------------------------------------------------------------

/// A character of a format string, escaped for a C string literal.
pub open spec fn c_escape(c: char) -> Seq<char> {
    if c == '"' {
        "\\\""@
    } else if c == '\\' {
        "\\\\"@
    } else if c == '\n' {
        "\\n"@
    } else if c == '\t' {
        "\\t"@
    } else {
        seq![c]
    }
}

/// The C format string for `f[i..]`: each `{}` becomes `%lld`, the rest is escaped.
pub open spec fn c_format(f: Seq<char>, i: int) -> Seq<char>
    decreases f.len() - i,
{
    if 0 <= i < f.len() {
        if f[i] == '{' && i + 1 < f.len() && f[i + 1] == '}' {
            "%lld"@ + c_format(f, i + 2)
        } else {
            c_escape(f[i]) + c_format(f, i + 1)
        }
    } else {
        Seq::empty()
    }
}

pub open spec fn c_op(op: BinOp) -> Seq<char> {
    match op {
        BinOp::Add => "+"@,
        BinOp::Sub => "-"@,
        BinOp::Mul => "*"@,
        BinOp::Div => "/"@,
        _ => "%"@,
    }
}

/// The C text of an integer expression.
pub open spec fn c_expr(e: Expr) -> Seq<char>
    decreases e,
{
    match e.kind {
        ExprKind::Int(n, _) => crate::text::int_to_dec(n as int) + "LL"@,
        ExprKind::BinOp { op, lhs, rhs } => "("@ + c_expr(*lhs) + " "@ + c_op(op) + " "@ + c_expr(*rhs)
            + ")"@,
        _ => Seq::empty(),
    }
}

/// The C texts of the arguments, separated by `, `.
pub open spec fn c_args(args: Seq<Expr>) -> Seq<char>
    decreases args.len(),
{
    if args.len() == 0 {
        Seq::empty()
    } else if args.len() == 1 {
        c_expr(args[0])
    } else {
        c_args(args.drop_last()) + ", "@ + c_expr(args.last())
    }
}

pub open spec fn c_println(format: Seq<char>, args: Seq<Expr>) -> Seq<char> {
    if args.len() == 0 {
        "    printf(\""@ + c_format(format, 0) + "\\n\");\n"@
    } else {
        "    printf(\""@ + c_format(format, 0) + "\\n\", "@ + c_args(args) + ");\n"@
    }
}

/// The statements' C text, in order.
pub open spec fn c_stmts(ss: Seq<Stmt>) -> Seq<char>
    decreases ss.len(),
{
    if ss.len() == 0 {
        Seq::empty()
    } else {
        c_stmts(ss.drop_last()) + match ss.last().kind {
            StmtKind::Println { format, args } => c_println(format@, args@),
            _ => Seq::empty(),
        }
    }
}

pub open spec fn c_fn(f: FnDecl) -> Seq<char> {
    let is_main = f.name@ == "main"@;
    let head = if is_main {
        "int main(void) {\n"@
    } else {
        "void "@ + f.name@ + "(void) {\n"@
    };
    let tail = if is_main {
        "    return 0;\n"@
    } else {
        Seq::empty()
    };
    head + c_stmts(f.body.stmts@) + tail + "}\n"@
}

pub open spec fn c_items(items: Seq<Item>) -> Seq<char>
    decreases items.len(),
{
    if items.len() == 0 {
        Seq::empty()
    } else {
        c_items(items.drop_last()) + match items.last() {
            Item::Fn(f) => c_fn(f),
            _ => Seq::empty(),
        }
    }
}

/// The C program for a file.
pub open spec fn c_program(file: File) -> Seq<char> {
    "#include <stdio.h>\n\n"@ + c_items(file.items@)
}

// ---------------------------------------------------------------------------
// The generator
// ---------------------------------------------------------------------------

fn expr_supported(e: &Expr) -> (r: bool)
    ensures
        r == expr_ok(*e),
    decreases e,
{
    match &e.kind {
        ExprKind::Int(..) => true,
        ExprKind::BinOp { op, lhs, rhs } => {
            let arith = match op {
                BinOp::Add | BinOp::Sub | BinOp::Mul | BinOp::Div | BinOp::Rem => true,
                _ => false,
            };
            arith && expr_supported(lhs) && expr_supported(rhs)
        },
        _ => false,
    }
}

fn args_supported(args: &Vec<Expr>) -> (r: bool)
    ensures
        r == (forall|i: int| 0 <= i < args.len() ==> expr_ok(#[trigger] args@[i])),
{
    let mut k: usize = 0;
    while k < args.len()
        invariant
            k <= args.len(),
            forall|c: int| 0 <= c < k ==> expr_ok(#[trigger] args@[c]),
        decreases args.len() - k,
    {
        if !expr_supported(&args[k]) {
            assert(!expr_ok(args@[k as int]));
            return false;
        }
        k += 1;
    }
    true
}

fn stmt_supported(s: &Stmt) -> (r: bool)
    ensures
        r == stmt_ok(*s),
{
    match &s.kind {
        StmtKind::Println { args, .. } => args_supported(args),
        _ => false,
    }
}

fn fn_supported(f: &FnDecl) -> (r: bool)
    ensures
        r == fn_ok(*f),
{
    let mut j: usize = 0;
    while j < f.body.stmts.len()
        invariant
            j <= f.body.stmts.len(),
            forall|b: int| 0 <= b < j ==> stmt_ok(#[trigger] f.body.stmts@[b]),
        decreases f.body.stmts.len() - j,
    {
        if !stmt_supported(&f.body.stmts[j]) {
            return false;
        }
        j += 1;
    }
    true
}

/// Whether [`generate`] can translate `file`: it holds only functions, whose bodies
/// are `println!` statements with integer arguments.
pub fn supported(file: &File) -> (r: bool)
    ensures
        r == file_ok(*file),
{
    let mut i: usize = 0;
    while i < file.items.len()
        invariant
            i <= file.items.len(),
            forall|a: int| 0 <= a < i ==> (#[trigger] file.items@[a] matches Item::Fn(fd) && fn_ok(fd)),
        decreases file.items.len() - i,
    {
        match &file.items[i] {
            Item::Fn(f) => {
                if !fn_supported(f) {
                    return false;
                }
            },
            _ => {
                return false;
            },
        }
        i += 1;
    }
    true
}

/// Translates a checked program to C source.
pub fn generate(file: &File) -> (r: String)
    requires
        file_ok(*file),
    ensures
        r@ == c_program(*file),
{
    let mut out = String::new();
    out.append("#include <stdio.h>\n\n");
    let mut i: usize = 0;
    while i < file.items.len()
        invariant
            i <= file.items.len(),
            file_ok(*file),
            out@ == "#include <stdio.h>\n\n"@ + c_items(file.items@.take(i as int)),
        decreases file.items.len() - i,
    {
        assert(file.items@.take(i + 1).drop_last() =~= file.items@.take(i as int));
        let ghost before = out@;
        match &file.items[i] {
            Item::Fn(f) => {
                let is_main = str_eq(f.name.as_str(), "main");
                if is_main {
                    out.append("int main(void) {\n");
                } else {
                    out.append("void ");
                    out.append(f.name.as_str());
                    out.append("(void) {\n");
                }
                let mut j: usize = 0;
                while j < f.body.stmts.len()
                    invariant
                        j <= f.body.stmts.len(),
                        fn_ok(*f),
                        out@ == before + (if is_main {
                            "int main(void) {\n"@
                        } else {
                            "void "@ + f.name@ + "(void) {\n"@
                        }) + c_stmts(f.body.stmts@.take(j as int)),
                    decreases f.body.stmts.len() - j,
                {
                    assert(f.body.stmts@.take(j + 1).drop_last() =~= f.body.stmts@.take(j as int));
                    assert(stmt_ok(f.body.stmts@[j as int]));
                    match &f.body.stmts[j].kind {
                        StmtKind::Println { format, args } => {
                            emit_println(&mut out, format.as_str(), args);
                        },
                        _ => {},
                    }
                    j += 1;
                }
                assert(f.body.stmts@.take(f.body.stmts.len() as int) =~= f.body.stmts@);
                if is_main {
                    out.append("    return 0;\n");
                }
                out.append("}\n");
                assert(out@ =~= before + c_fn(*f));
            },
            _ => {},
        }
        i += 1;
    }
    assert(file.items@.take(file.items.len() as int) =~= file.items@);
    out
}

/// Appends the `printf` call for `println!(format, args..)`.
fn emit_println(out: &mut String, format: &str, args: &Vec<Expr>)
    requires
        forall|i: int| 0 <= i < args.len() ==> expr_ok(#[trigger] args@[i]),
    ensures
        final(out)@ == old(out)@ + c_println(format@, args@),
{
    // Each `{}` becomes `%lld`; every other character is escaped for C.
    let mut fmt_c = String::new();
    let n = format.unicode_len();
    let mut i: usize = 0;
    while i < n
        invariant
            n == format@.len(),
            i <= n + 1,
            fmt_c@ + c_format(format@, i as int) == c_format(format@, 0),
        decreases n + 1 - i,
    {
        let ch = format.get_char(i);
        let ghost before = fmt_c@;
        if ch == '{' && i + 1 < n && format.get_char(i + 1) == '}' {
            fmt_c.append("%lld");
            assert(fmt_c@ + c_format(format@, i + 2) =~= before + c_format(format@, i as int));
            i += 2;
        } else {
            if ch == '"' {
                fmt_c.append("\\\"");
            } else if ch == '\\' {
                fmt_c.append("\\\\");
            } else if ch == '\n' {
                fmt_c.append("\\n");
            } else if ch == '\t' {
                fmt_c.append("\\t");
            } else {
                push_char(&mut fmt_c, ch);
            }
            assert(fmt_c@ + c_format(format@, i + 1) =~= before + c_format(format@, i as int));
            i += 1;
        }
    }
    assert(fmt_c@ =~= c_format(format@, 0));
    out.append("    printf(\"");
    out.append(fmt_c.as_str());
    if args.len() == 0 {
        out.append("\\n\");\n");
    } else {
        out.append("\\n\", ");
        let mut joined = String::new();
        let mut k: usize = 0;
        while k < args.len()
            invariant
                k <= args.len(),
                forall|a: int| 0 <= a < args.len() ==> expr_ok(#[trigger] args@[a]),
                joined@ == c_args(args@.take(k as int)),
            decreases args.len() - k,
        {
            assert(args@.take(k + 1).drop_last() =~= args@.take(k as int));
            if k > 0 {
                joined.append(", ");
            }
            let e = emit_expr(&args[k]);
            joined.append(e.as_str());
            k += 1;
        }
        assert(args@.take(args.len() as int) =~= args@);
        out.append(joined.as_str());
        out.append(");\n");
    }
}

/// The C text of an integer expression, fully parenthesised.
fn emit_expr(e: &Expr) -> (r: String)
    requires
        expr_ok(*e),
    ensures
        r@ == c_expr(*e),
    decreases e,
{
    match &e.kind {
        ExprKind::BinOp { op, lhs, rhs } => {
            let op_str = match op {
                BinOp::Add => "+",
                BinOp::Sub => "-",
                BinOp::Mul => "*",
                BinOp::Div => "/",
                _ => "%",
            };
            let l = emit_expr(lhs);
            let r = emit_expr(rhs);
            let mut s = String::from_str("(");
            s.append(l.as_str());
            s.append(" ");
            s.append(op_str);
            s.append(" ");
            s.append(r.as_str());
            s.append(")");
            s
        },
        ExprKind::Int(n, _) => {
            let mut s = i64_to_string(*n);
            s.append("LL");
            s
        },
        _ => String::new(),
    }
}

} // verus!
