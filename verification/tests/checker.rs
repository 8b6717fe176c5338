use lib::ast::{
    BinOp, Block, EnumDecl, EnumVariant, Expr, ExprKind, FieldDecl, File, FnDecl, Item, MatchArm,
    Param, Pat, PatBindings, Stmt, StmtKind, StructDecl, Ty, VariantFields,
};
use lib::loc::Loc;
use lib::type_checker::{check, ty_display, TyEnv};

fn at(line: u32, col: u32) -> Loc {
    Loc::new(line, col)
}

fn e(kind: ExprKind) -> Expr {
    Expr { kind, loc: at(1, 1) }
}

fn lit(n: i64) -> Expr {
    e(ExprKind::Int(n, None))
}

fn var(name: &str) -> Expr {
    e(ExprKind::Var(name.to_string()))
}

fn s(line: u32, kind: StmtKind) -> Stmt {
    Stmt { kind, loc: at(line, 5) }
}

fn let_(line: u32, name: &str, mutable: bool, ty: Option<Ty>, expr: Expr) -> Stmt {
    s(line, StmtKind::Let { name: name.to_string(), mutable, ty, expr })
}

fn func(name: &str, params: Vec<Param>, ret: Ty, stmts: Vec<Stmt>) -> FnDecl {
    FnDecl {
        name: name.to_string(),
        receiver: None,
        params,
        return_ty: ret,
        body: Block { stmts },
        is_pub: false,
        loc: at(1, 1),
    }
}

fn file(items: Vec<Item>) -> File {
    File { items }
}

fn messages(f: &mut File) -> Vec<String> {
    check(f).into_iter().map(|e| e.message).collect()
}

#[test]
fn well_typed_program_has_no_errors() {
    let mut f = file(vec![
        Item::Fn(func(
            "add",
            vec![Param { name: "a".into(), ty: Ty::I32 }, Param { name: "b".into(), ty: Ty::I32 }],
            Ty::I32,
            vec![s(2, StmtKind::Expr(e(ExprKind::BinOp {
                op: BinOp::Add,
                lhs: Box::new(var("a")),
                rhs: Box::new(var("b")),
            })))],
        )),
        Item::Fn(func(
            "main",
            vec![],
            Ty::Unit,
            vec![
                let_(5, "x", false, Some(Ty::I32), e(ExprKind::Call {
                    name: "add".into(),
                    args: vec![lit(1), lit(2)],
                })),
                s(6, StmtKind::Println { format: "{}".into(), args: vec![var("x")] }),
            ],
        )),
    ]);
    assert!(check(&mut f).is_empty());
}

#[test]
fn let_annotation_mismatch() {
    let mut f = file(vec![Item::Fn(func(
        "main",
        vec![],
        Ty::Unit,
        vec![let_(3, "x", false, Some(Ty::I32), e(ExprKind::Bool(true)))],
    ))]);
    let errs = check(&mut f);
    assert_eq!(errs.len(), 1);
    assert_eq!(errs[0].message, "let `x`: expected `i32`, found `bool`");
    // The diagnostic is reported at the expression being checked.
    assert_eq!(errs[0].loc, at(1, 1));
}

#[test]
fn missing_return_value() {
    let mut f = file(vec![Item::Fn(FnDecl { loc: at(7, 1), ..func("f", vec![], Ty::I32, vec![]) })]);
    let errs = check(&mut f);
    assert_eq!(errs.len(), 1);
    assert_eq!(errs[0].message, "function `f` may not return a value (expected `i32`)");
    assert_eq!(errs[0].loc, at(7, 1));
}

#[test]
fn implicit_return_is_checked() {
    let mut f = file(vec![Item::Fn(func(
        "f",
        vec![],
        Ty::Bool,
        vec![s(2, StmtKind::Expr(lit(1)))],
    ))]);
    assert_eq!(messages(&mut f), vec!["implicit return: expected `bool`, found `i64`".to_string()]);
}

#[test]
fn undefined_names() {
    let mut f = file(vec![Item::Fn(func(
        "main",
        vec![],
        Ty::Unit,
        vec![
            let_(2, "x", false, None, var("y")),
            s(3, StmtKind::Expr(e(ExprKind::Call { name: "nothing".into(), args: vec![] }))),
        ],
    ))]);
    assert_eq!(
        messages(&mut f),
        vec!["undefined variable `y`".to_string(), "undefined function `nothing`".to_string()]
    );
}

#[test]
fn assignment_to_immutable_is_a_type_error() {
    let mut f = file(vec![Item::Fn(func(
        "main",
        vec![],
        Ty::Unit,
        vec![
            let_(2, "x", false, None, lit(1)),
            s(3, StmtKind::Assign { name: "x".into(), expr: lit(2) }),
        ],
    ))]);
    let errs = check(&mut f);
    assert_eq!(errs.len(), 1);
    assert_eq!(errs[0].message, "cannot assign to immutable variable `x`");
    // Reported after the right-hand side was inferred, at its location.
    assert_eq!(errs[0].loc, at(1, 1));
}

#[test]
fn conflicting_borrows_in_one_statement() {
    let pair = e(ExprKind::Tuple(vec![
        e(ExprKind::AddrOf { mutable: false, expr: Box::new(var("x")) }),
        e(ExprKind::AddrOf { mutable: true, expr: Box::new(var("x")) }),
    ]));
    let mut f = file(vec![Item::Fn(func(
        "main",
        vec![],
        Ty::Unit,
        vec![let_(2, "x", true, None, lit(1)), let_(3, "t", false, None, pair)],
    ))]);
    // Found once for the statement and once for the tuple itself.
    assert_eq!(
        messages(&mut f),
        vec![
            "cannot borrow `x` as mutable: also borrowed as immutable".to_string(),
            "cannot borrow `x` as mutable: also borrowed as immutable".to_string(),
        ]
    );
}

#[test]
fn two_mutable_borrows() {
    let call = e(ExprKind::Call {
        name: "g".into(),
        args: vec![
            e(ExprKind::AddrOf { mutable: true, expr: Box::new(var("x")) }),
            e(ExprKind::AddrOf { mutable: true, expr: Box::new(var("x")) }),
        ],
    });
    let g = func(
        "g",
        vec![
            Param { name: "a".into(), ty: Ty::RefMut(Box::new(Ty::I64)) },
            Param { name: "b".into(), ty: Ty::RefMut(Box::new(Ty::I64)) },
        ],
        Ty::Unit,
        vec![],
    );
    let mut f = file(vec![
        Item::Fn(g),
        Item::Fn(func(
            "main",
            vec![],
            Ty::Unit,
            vec![let_(2, "x", true, None, lit(1)), s(3, StmtKind::Expr(call))],
        )),
    ]);
    assert_eq!(messages(&mut f), vec!["cannot borrow `x` as mutable more than once".to_string()]);
}

#[test]
fn borrow_check_is_skipped_after_type_errors() {
    let pair = e(ExprKind::Tuple(vec![
        e(ExprKind::AddrOf { mutable: false, expr: Box::new(var("x")) }),
        e(ExprKind::AddrOf { mutable: true, expr: Box::new(var("x")) }),
    ]));
    let mut f = file(vec![Item::Fn(func(
        "main",
        vec![],
        Ty::Unit,
        vec![
            let_(2, "x", true, None, lit(1)),
            let_(3, "t", false, None, pair),
            let_(4, "y", false, Some(Ty::Bool), lit(3)),
        ],
    ))]);
    assert_eq!(messages(&mut f), vec!["let `y`: expected `bool`, found `i64`".to_string()]);
}

#[test]
fn private_module_items() {
    let inner = func("f", vec![], Ty::Unit, vec![]);
    let mut f = file(vec![
        Item::Mod { name: "m".into(), items: vec![Item::Fn(inner)], is_pub: false },
        Item::Fn(func(
            "main",
            vec![],
            Ty::Unit,
            vec![s(2, StmtKind::Expr(e(ExprKind::AssocCall {
                ty_name: "m".into(),
                method: "f".into(),
                args: vec![],
            })))],
        )),
    ]);
    assert_eq!(messages(&mut f), vec!["`m_f` is private".to_string()]);

    let public = FnDecl { is_pub: true, ..func("f", vec![], Ty::Unit, vec![]) };
    let mut g = file(vec![
        Item::Mod { name: "m".into(), items: vec![Item::Fn(public)], is_pub: false },
        Item::Fn(func(
            "main",
            vec![],
            Ty::Unit,
            vec![s(2, StmtKind::Expr(e(ExprKind::AssocCall {
                ty_name: "m".into(),
                method: "f".into(),
                args: vec![],
            })))],
        )),
    ]);
    assert!(check(&mut g).is_empty());
}

#[test]
fn struct_literals_and_fields() {
    let point = StructDecl {
        name: "Point".into(),
        fields: vec![
            FieldDecl { name: "x".into(), ty: Ty::I32, is_pub: false },
            FieldDecl { name: "y".into(), ty: Ty::I32, is_pub: false },
        ],
        is_pub: false,
        is_tuple: false,
        loc: at(1, 1),
    };
    let lit = e(ExprKind::StructLit {
        name: "Point".into(),
        fields: vec![("x".into(), lit(1)), ("z".into(), lit(2))],
        rest: None,
    });
    let mut f = file(vec![
        Item::Struct(point),
        Item::Fn(func("main", vec![], Ty::Unit, vec![let_(2, "p", false, None, lit)])),
    ]);
    assert_eq!(
        messages(&mut f),
        vec![
            "no field `z` in struct `Point`".to_string(),
            "missing field `y` in `Point`".to_string(),
        ]
    );
}

#[test]
fn match_on_enum_binds_fields() {
    let shape = EnumDecl {
        name: "Shape".into(),
        variants: vec![
            EnumVariant { name: "Circle".into(), fields: VariantFields::Tuple(vec![Ty::I32]) },
            EnumVariant { name: "Empty".into(), fields: VariantFields::Unit },
        ],
        is_pub: false,
        loc: at(1, 1),
    };
    let arm = |variant: &str, bindings: PatBindings, body: Expr| MatchArm {
        pat: Pat::EnumVariant { ty_name: "Shape".into(), variant: variant.into(), bindings },
        guard: None,
        body: Block { stmts: vec![s(4, StmtKind::Expr(body))] },
    };
    let m = e(ExprKind::Match {
        expr: Box::new(var("sh")),
        arms: vec![
            arm("Circle", PatBindings::Tuple(vec![Pat::Binding("r".into())]), var("r")),
            arm("Empty", PatBindings::Empty, lit(0)),
        ],
        scrutinee_ty: None,
    });
    let mut f = file(vec![
        Item::Enum(shape),
        Item::Fn(func(
            "area",
            vec![Param { name: "sh".into(), ty: Ty::Named("Shape".into()) }],
            Ty::I32,
            vec![s(3, StmtKind::Expr(m))],
        )),
    ]);
    assert!(check(&mut f).is_empty());
}

#[test]
fn type_display() {
    assert_eq!(ty_display(&Ty::RefMut(Box::new(Ty::Array(Box::new(Ty::I32), 3)))), "&mut [i32; 3]");
    assert_eq!(
        ty_display(&Ty::FnPtr { params: vec![Ty::I64, Ty::Bool], ret: Box::new(Ty::Unit) }),
        "fn(i64, bool) -> ()"
    );
    assert_eq!(ty_display(&Ty::Tuple(vec![])), "()");
    assert_eq!(ty_display(&Ty::RawConst(Box::new(Ty::Named("Node".into())))), "*const Node");
}

#[test]
fn aliases_resolve_through_chains() {
    let f = file(vec![
        Item::TypeAlias { name: "A".into(), ty: Ty::Named("B".into()), is_pub: false },
        Item::TypeAlias { name: "B".into(), ty: Ty::I64, is_pub: false },
        Item::TypeAlias { name: "C".into(), ty: Ty::Named("C".into()), is_pub: false },
    ]);
    let env = TyEnv::build(&f);
    assert_eq!(ty_display(&env.resolve(&Ty::Named("A".into()))), "i64");
    // A cycle stops at the name that repeats.
    assert_eq!(ty_display(&env.resolve(&Ty::Named("C".into()))), "C");
    // Only a name at the top is resolved.
    assert_eq!(ty_display(&env.resolve(&Ty::Ref(Box::new(Ty::Named("A".into()))))), "&A");
}

#[test]
fn resolving_twice_gives_what_resolving_once_gives() {
    let f = file(vec![
        Item::TypeAlias { name: "X".into(), ty: Ty::Named("Y".into()), is_pub: false },
        Item::TypeAlias { name: "Y".into(), ty: Ty::Named("Z".into()), is_pub: false },
        Item::TypeAlias { name: "Z".into(), ty: Ty::Named("Y".into()), is_pub: false },
        Item::TypeAlias { name: "W".into(), ty: Ty::Named("X".into()), is_pub: false },
    ]);
    let env = TyEnv::build(&f);
    for name in ["W", "X", "Y", "Z", "Q"] {
        let once = env.resolve(&Ty::Named(name.into()));
        let twice = env.resolve(&once);
        assert_eq!(ty_display(&twice), ty_display(&once));
    }
    // `X` runs into the cycle `Y -> Z -> Y` and stops at the name that repeats.
    assert_eq!(ty_display(&env.resolve(&Ty::Named("X".into()))), "Y");
    assert_eq!(ty_display(&env.resolve(&Ty::Named("Z".into()))), "Z");
}

fn check_src(src: &str) -> Vec<String> {
    let tokens = lib::lexer::Lexer::new(src).tokenize().expect("the source lexes");
    let mut f = lib::parser::Parser::new(tokens).parse().expect("the source parses");
    messages(&mut f)
}

#[test]
fn passing_a_struct_by_value_moves_it() {
    let errs = check_src(
        "struct S { x: i32 } fn take(s: S) {} fn main() { let a: S = S { x: 1 }; take(a); take(a); }",
    );
    assert_eq!(errs, vec!["use of moved value `a`".to_string()]);
}

#[test]
fn binding_a_struct_moves_it() {
    let errs = check_src(
        "struct S { x: i32 } fn take(s: S) {} fn main() { let a: S = S { x: 1 }; let b = a; take(a); }",
    );
    assert_eq!(errs, vec!["use of moved value `a`".to_string()]);
}

#[test]
fn copy_values_and_borrows_do_not_move() {
    assert!(check_src("fn take(n: i32) {} fn main() { let a: i32 = 1; take(a); take(a); }").is_empty());
    assert!(check_src(
        "struct S { x: i32 } fn look(s: &S) {} fn main() { let a: S = S { x: 1 }; look(&a); look(&a); }",
    )
    .is_empty());
}

#[test]
fn a_struct_bound_without_a_type_moves_too() {
    let errs = check_src(
        "struct S { x: i32 } fn take(s: S) {} fn main() { let a = S { x: 1 }; take(a); take(a); }",
    );
    assert_eq!(errs, vec!["use of moved value `a`".to_string()]);
    // The type comes from the initializer, so an integer is still copied.
    assert!(check_src("fn take(n: i32) {} fn main() { let a = 1; take(a); take(a); }").is_empty());
    // A call's result type is looked up like any other.
    let errs = check_src(
        "struct S { x: i32 } fn make() -> S { S { x: 1 } } fn take(s: S) {} \
         fn main() { let a = make(); take(a); take(a); }",
    );
    assert_eq!(errs, vec!["use of moved value `a`".to_string()]);
}

fn body_of(f: &File, i: usize) -> &Vec<Stmt> {
    match &f.items[i] {
        Item::Fn(fd) => &fd.body.stmts,
        _ => panic!("expected a function"),
    }
}

fn shown(t: &Option<Ty>) -> String {
    match t {
        Some(t) => ty_display(t),
        None => "none".to_string(),
    }
}

#[test]
fn checking_fills_in_let_types() {
    let tokens = lib::lexer::Lexer::new("fn main() { let x = true; let y = x; let z: i64 = 1; let w = 7; }")
        .tokenize()
        .unwrap();
    let mut f = lib::parser::Parser::new(tokens).parse().unwrap();
    assert!(check(&mut f).is_empty());
    let tys: Vec<String> = body_of(&f, 0)
        .iter()
        .map(|st| match &st.kind {
            StmtKind::Let { ty, .. } => shown(ty),
            _ => panic!("expected a let"),
        })
        .collect();
    assert_eq!(tys, vec!["bool", "bool", "i64", "i64"]);
}

#[test]
fn checking_fills_in_loop_and_match_types() {
    let arr = e(ExprKind::ArrayLit(vec![lit(1), lit(2)]));
    let for_ = s(
        2,
        StmtKind::For {
            var: "v".into(),
            iter: arr,
            body: Block { stmts: vec![let_(3, "w", false, None, var("v"))] },
            elem_ty: None,
            iter_ty: None,
        },
    );
    let arm = MatchArm { pat: Pat::Wildcard, guard: None, body: Block { stmts: vec![let_(5, "u", false, None, lit(0))] } };
    let match_ = s(4, StmtKind::Match { expr: e(ExprKind::Bool(true)), arms: vec![arm], scrutinee_ty: None });
    let if_let = s(
        6,
        StmtKind::IfLet {
            pat: Pat::Binding("p".into()),
            expr: lit(3),
            expr_ty: None,
            and_cond: None,
            then_block: Block { stmts: vec![] },
            else_block: None,
        },
    );
    let mut f = file(vec![Item::Fn(func("main", vec![], Ty::Unit, vec![for_, match_, if_let]))]);
    assert!(check(&mut f).is_empty());
    let stmts = body_of(&f, 0);
    match &stmts[0].kind {
        StmtKind::For { elem_ty, iter_ty, body, .. } => {
            assert_eq!(shown(elem_ty), "i64");
            assert_eq!(shown(iter_ty), "[i64; 2]");
            match &body.stmts[0].kind {
                StmtKind::Let { ty, .. } => assert_eq!(shown(ty), "i64"),
                _ => panic!("expected a let"),
            }
        },
        _ => panic!("expected a for loop"),
    }
    match &stmts[1].kind {
        StmtKind::Match { scrutinee_ty, arms, .. } => {
            assert_eq!(shown(scrutinee_ty), "bool");
            match &arms[0].body.stmts[0].kind {
                StmtKind::Let { ty, .. } => assert_eq!(shown(ty), "i64"),
                _ => panic!("expected a let"),
            }
        },
        _ => panic!("expected a match"),
    }
    match &stmts[2].kind {
        StmtKind::IfLet { expr_ty, .. } => assert_eq!(shown(expr_ty), "i64"),
        _ => panic!("expected an if let"),
    }
}

#[test]
fn a_value_moved_out_of_a_loop_variable_moves() {
    // `for p in [S { x: 1 }] { let q = p; take(q); take(q); }`
    let s_lit = e(ExprKind::StructLit { name: "S".into(), fields: vec![("x".into(), lit(1))], rest: None });
    let call = |arg: &str| s(4, StmtKind::Expr(e(ExprKind::Call { name: "take".into(), args: vec![var(arg)] })));
    let for_ = s(
        2,
        StmtKind::For {
            var: "p".into(),
            iter: e(ExprKind::ArrayLit(vec![s_lit])),
            body: Block { stmts: vec![let_(3, "q", false, None, var("p")), call("q"), call("q")] },
            elem_ty: None,
            iter_ty: None,
        },
    );
    let sdecl = StructDecl {
        name: "S".into(),
        fields: vec![FieldDecl { name: "x".into(), ty: Ty::I64, is_pub: false }],
        is_pub: false,
        is_tuple: false,
        loc: at(1, 1),
    };
    let take = func("take", vec![Param { name: "s".into(), ty: Ty::Named("S".into()) }], Ty::Unit, vec![]);
    let mut f = file(vec![
        Item::Struct(sdecl),
        Item::Fn(take),
        Item::Fn(func("main", vec![], Ty::Unit, vec![for_])),
    ]);
    let errs: Vec<String> = check(&mut f).into_iter().map(|e| e.message).collect();
    assert_eq!(errs, vec!["use of moved value `q`".to_string()]);
}

fn impl_block(trait_name: Option<&str>, ret: Ty) -> Item {
    Item::Impl(lib::ast::ImplBlock {
        ty_name: "T".into(),
        trait_name: trait_name.map(|t| t.to_string()),
        methods: vec![func("f", vec![], ret, vec![])],
    })
}

#[test]
fn an_inherent_method_wins_over_a_trait_method_in_either_order() {
    let decl = || {
        Item::Struct(StructDecl { name: "T".into(), fields: vec![], is_pub: false, is_tuple: false, loc: at(1, 1) })
    };
    let tr = || {
        Item::Trait(lib::ast::TraitDecl {
            name: "Tr".into(),
            methods: vec![lib::ast::TraitMethod {
                name: "f".into(),
                receiver: None,
                params: vec![],
                return_ty: Ty::I64,
                body: None,
            }],
            is_pub: false,
        })
    };
    let first = file(vec![decl(), tr(), impl_block(None, Ty::Bool), impl_block(Some("Tr"), Ty::I64)]);
    let second = file(vec![decl(), tr(), impl_block(Some("Tr"), Ty::I64), impl_block(None, Ty::Bool)]);
    for f in [&first, &second] {
        let env = TyEnv::build(f);
        let sig = env.fns.get("T_f").expect("the method is registered");
        assert_eq!(ty_display(&sig.1), "bool");
    }
}
