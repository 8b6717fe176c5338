use lib::ast::{BinOp, Block, Expr, ExprKind, File, FnDecl, Item, Stmt, StmtKind, Ty};
use lib::codegen::{generate, supported};
use lib::error::Error;
use lib::loc::Loc;

fn e(kind: ExprKind) -> Expr {
    Expr { kind, loc: Loc::default() }
}

fn lit(n: i64) -> Expr {
    e(ExprKind::Int(n, None))
}

fn bin(op: BinOp, l: Expr, r: Expr) -> Expr {
    e(ExprKind::BinOp { op, lhs: Box::new(l), rhs: Box::new(r) })
}

fn println(format: &str, args: Vec<Expr>) -> Stmt {
    Stmt { kind: StmtKind::Println { format: format.to_string(), args }, loc: Loc::default() }
}

fn func(name: &str, stmts: Vec<Stmt>) -> Item {
    Item::Fn(FnDecl {
        name: name.to_string(),
        receiver: None,
        params: vec![],
        return_ty: Ty::Unit,
        body: Block { stmts },
        is_pub: false,
        loc: Loc::default(),
    })
}

#[test]
fn main_with_arithmetic() {
    let f = File {
        items: vec![func(
            "main",
            vec![println("x = {}", vec![bin(BinOp::Add, lit(1), bin(BinOp::Mul, lit(2), lit(-3)))])],
        )],
    };
    assert!(supported(&f));
    assert_eq!(
        generate(&f),
        "#include <stdio.h>\n\nint main(void) {\n    printf(\"x = %lld\\n\", (1LL + (2LL * -3LL)));\n    return 0;\n}\n"
    );
}

#[test]
fn other_functions_and_escapes() {
    let f = File {
        items: vec![
            func("hello", vec![println("say \"hi\"\t\\ {", vec![])]),
            func("main", vec![println("{} and {}", vec![lit(7), bin(BinOp::Rem, lit(9), lit(4))])]),
        ],
    };
    assert_eq!(
        generate(&f),
        "#include <stdio.h>\n\nvoid hello(void) {\n    printf(\"say \\\"hi\\\"\\t\\\\ {\\n\");\n}\nint main(void) {\n    printf(\"%lld and %lld\\n\", 7LL, (9LL % 4LL));\n    return 0;\n}\n"
    );
}

#[test]
fn empty_file() {
    let f = File { items: vec![] };
    assert_eq!(generate(&f), "#include <stdio.h>\n\n");
}

#[test]
fn only_println_programs_are_supported() {
    let let_stmt = Stmt {
        kind: StmtKind::Let { name: "x".into(), mutable: false, ty: None, expr: lit(1) },
        loc: Loc::default(),
    };
    assert!(!supported(&File { items: vec![func("main", vec![let_stmt])] }));
    let cmp = bin(BinOp::Lt, lit(1), lit(2));
    assert!(!supported(&File { items: vec![func("main", vec![println("{}", vec![cmp])])] }));
    assert!(!supported(&File { items: vec![Item::Skip] }));
}

#[test]
fn error_display() {
    let e = Error::new(Loc::new(3, 14), "unknown type `Foo`".to_string());
    assert_eq!(e.display(), "3:14: error: unknown type `Foo`");
    assert_eq!(Loc::default(), Loc::new(0, 0));
}
