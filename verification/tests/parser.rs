use lib::ast::{
    BinOp, ExprKind, File, Item, Pat, PatBindings, Receiver, StmtKind, Ty, UnOp, VariantFields,
};
use lib::error::Error;
use lib::lexer::{Lexer, Token, TokenKind};
use lib::loc::Loc;
use lib::parser::Parser;

fn parse(src: &str) -> Result<File, Error> {
    let tokens = Lexer::new(src).tokenize().expect("the source lexes");
    Parser::new(tokens).parse()
}

fn parse_ok(src: &str) -> File {
    match parse(src) {
        Ok(f) => f,
        Err(e) => panic!("unexpected parse error: {}", e.display()),
    }
}

fn parse_err(src: &str) -> Error {
    match parse(src) {
        Ok(_) => panic!("expected a parse error"),
        Err(e) => e,
    }
}

/// The statements of the body of the first item, a function.
fn body(f: &File) -> &Vec<lib::ast::Stmt> {
    match &f.items[0] {
        Item::Fn(func) => &func.body.stmts,
        _ => panic!("expected a function"),
    }
}

/// The expression of `let name = <expr>;`, the first statement of the first function.
fn first_let_value(f: &File) -> &ExprKind {
    match &body(f)[0].kind {
        StmtKind::Let { expr, .. } => &expr.kind,
        _ => panic!("expected a let statement"),
    }
}

#[test]
fn empty_source_is_an_empty_file() {
    assert!(parse_ok("").items.is_empty());
    assert!(parse_ok("  // nothing here\n").items.is_empty());
}

#[test]
fn function_with_params_and_tail_value() {
    let f = parse_ok("fn add(a: i32, b: i32) -> i32 { a + b }");
    assert_eq!(f.items.len(), 1);
    let func = match &f.items[0] {
        Item::Fn(func) => func,
        _ => panic!("expected a function"),
    };
    assert_eq!(func.name, "add");
    assert!(func.receiver.is_none());
    assert_eq!(func.params.len(), 2);
    assert_eq!(func.params[1].name, "b");
    assert!(matches!(func.params[1].ty, Ty::I32));
    assert!(matches!(func.return_ty, Ty::I32));
    assert!(!func.is_pub);
    assert_eq!(func.loc, Loc::new(1, 1));
    // Implicit tail return: the last expression of a block without `;`.
    assert_eq!(func.body.stmts.len(), 1);
    match &func.body.stmts[0].kind {
        StmtKind::Return(Some(e)) => {
            assert!(matches!(e.kind, ExprKind::BinOp { op: BinOp::Add, .. }));
            assert_eq!(e.loc, Loc::new(1, 33));
        },
        _ => panic!("expected a tail value"),
    }
}

#[test]
fn missing_return_type_is_unit() {
    let f = parse_ok("fn main() {}");
    match &f.items[0] {
        Item::Fn(func) => {
            assert!(matches!(func.return_ty, Ty::Unit));
            assert!(func.body.stmts.is_empty());
        },
        _ => panic!("expected a function"),
    }
}

#[test]
fn multiplication_binds_tighter_than_addition() {
    let f = parse_ok("fn main() { let x = 1 + 2 * 3; }");
    match first_let_value(&f) {
        ExprKind::BinOp { op: BinOp::Add, lhs, rhs } => {
            assert!(matches!(lhs.kind, ExprKind::Int(1, None)));
            assert!(matches!(rhs.kind, ExprKind::BinOp { op: BinOp::Mul, .. }));
        },
        _ => panic!("expected an addition"),
    }
}

#[test]
fn subtraction_is_left_associative() {
    let f = parse_ok("fn main() { let x = a - b - c; }");
    match first_let_value(&f) {
        ExprKind::BinOp { op: BinOp::Sub, lhs, rhs } => {
            assert!(matches!(lhs.kind, ExprKind::BinOp { op: BinOp::Sub, .. }));
            assert!(matches!(&rhs.kind, ExprKind::Var(n) if n == "c"));
        },
        _ => panic!("expected a subtraction"),
    }
}

#[test]
fn comparison_binds_looser_than_shift_and_or_loosest() {
    let f = parse_ok("fn main() { let x = a << 1 < b || c && d; }");
    match first_let_value(&f) {
        ExprKind::BinOp { op: BinOp::Or, lhs, rhs } => {
            match &lhs.kind {
                ExprKind::BinOp { op: BinOp::Lt, lhs: l2, .. } => {
                    assert!(matches!(l2.kind, ExprKind::BinOp { op: BinOp::Shl, .. }));
                },
                _ => panic!("expected a comparison"),
            }
            assert!(matches!(rhs.kind, ExprKind::BinOp { op: BinOp::And, .. }));
        },
        _ => panic!("expected a disjunction"),
    }
}

#[test]
fn cast_binds_tighter_than_arithmetic_and_looser_than_unary() {
    let f = parse_ok("fn main() { let x = -a as u8 as i64 * 2; }");
    match first_let_value(&f) {
        ExprKind::BinOp { op: BinOp::Mul, lhs, .. } => match &lhs.kind {
            ExprKind::Cast { expr, ty: Ty::I64 } => match &expr.kind {
                ExprKind::Cast { expr: inner, ty: Ty::U8 } => {
                    assert!(matches!(inner.kind, ExprKind::UnOp { op: UnOp::Neg, .. }));
                },
                _ => panic!("expected the inner cast"),
            },
            _ => panic!("expected the outer cast"),
        },
        _ => panic!("expected a multiplication"),
    }
}

#[test]
fn postfix_fields_and_method_calls() {
    let f = parse_ok("fn main() { let x = p.0; let y = p.pos.len(1, 2); }");
    match first_let_value(&f) {
        ExprKind::Field { field, .. } => assert_eq!(field, "0"),
        _ => panic!("expected a tuple field"),
    }
    match &body(&f)[1].kind {
        StmtKind::Let { expr, .. } => match &expr.kind {
            ExprKind::MethodCall { expr: base, method, args } => {
                assert_eq!(method, "len");
                assert_eq!(args.len(), 2);
                assert!(matches!(&base.kind, ExprKind::Field { field, .. } if field == "pos"));
            },
            _ => panic!("expected a method call"),
        },
        _ => panic!("expected a let statement"),
    }
}

#[test]
fn tuples_and_parentheses() {
    let f = parse_ok("fn main() { let a = (); let b = (1, 2,); let c = (7); }");
    let s = body(&f);
    match &s[0].kind {
        StmtKind::Let { expr, .. } => assert!(matches!(&expr.kind, ExprKind::Tuple(v) if v.is_empty())),
        _ => panic!(),
    }
    match &s[1].kind {
        StmtKind::Let { expr, .. } => assert!(matches!(&expr.kind, ExprKind::Tuple(v) if v.len() == 2)),
        _ => panic!(),
    }
    match &s[2].kind {
        StmtKind::Let { expr, .. } => assert!(matches!(expr.kind, ExprKind::Int(7, None))),
        _ => panic!(),
    }
}

#[test]
fn paths_calls_and_literals() {
    let f = parse_ok(
        "fn main() { let a = Point { x: 1, y: 2, }; let b = Shape::Rect { w: 1 }; \
         let c = Vec2::new(1); let d = Color::Red; let e = f(x, y); }",
    );
    let s = body(&f);
    let kinds: Vec<&ExprKind> = s
        .iter()
        .map(|st| match &st.kind {
            StmtKind::Let { expr, .. } => &expr.kind,
            _ => panic!("expected let statements"),
        })
        .collect();
    assert!(matches!(kinds[0], ExprKind::StructLit { name, fields, rest: None } if name == "Point" && fields.len() == 2));
    assert!(matches!(kinds[1], ExprKind::EnumStructLit { ty_name, variant, fields } if ty_name == "Shape" && variant == "Rect" && fields.len() == 1));
    assert!(matches!(kinds[2], ExprKind::AssocCall { ty_name, method, args } if ty_name == "Vec2" && method == "new" && args.len() == 1));
    assert!(matches!(kinds[3], ExprKind::AssocCall { method, args, .. } if method == "Red" && args.is_empty()));
    assert!(matches!(kinds[4], ExprKind::Call { name, args } if name == "f" && args.len() == 2));
    assert_eq!(s.len(), 5);
}

#[test]
fn lowercase_name_before_brace_is_not_a_struct_literal() {
    let e = parse_err("fn main() { let g = point { x: 1 }; }");
    assert_eq!(e.message, "expected Semicolon, got LBrace");
    assert_eq!(e.loc, Loc::new(1, 27));
}

#[test]
fn assignments() {
    let f = parse_ok("fn main() { x = 1; *p = 2; s.f = 3; }");
    let s = body(&f);
    assert!(matches!(&s[0].kind, StmtKind::Assign { name, .. } if name == "x"));
    match &s[1].kind {
        StmtKind::Expr(e) => match &e.kind {
            ExprKind::BinOp { op: BinOp::Eq, lhs, .. } => assert!(matches!(lhs.kind, ExprKind::Deref(_))),
            _ => panic!("expected an assignment through a pointer"),
        },
        _ => panic!(),
    }
    match &s[2].kind {
        StmtKind::Expr(e) => match &e.kind {
            ExprKind::BinOp { op: BinOp::Eq, lhs, .. } => assert!(matches!(lhs.kind, ExprKind::Field { .. })),
            _ => panic!("expected an assignment to a field"),
        },
        _ => panic!(),
    }
}

#[test]
fn let_with_type_and_mut() {
    let f = parse_ok("fn main() { let mut x: &mut *const u8 = y; }");
    match &body(&f)[0].kind {
        StmtKind::Let { name, mutable, ty: Some(Ty::RefMut(inner)), .. } => {
            assert_eq!(name, "x");
            assert!(*mutable);
            assert!(matches!(&**inner, Ty::RawConst(t) if matches!(**t, Ty::U8)));
        },
        _ => panic!("expected a typed let"),
    }
}

#[test]
fn tuple_and_named_types() {
    let f = parse_ok("fn f(a: (i64, bool,), b: Point, c: (u16)) {}");
    match &f.items[0] {
        Item::Fn(func) => {
            assert!(matches!(&func.params[0].ty, Ty::Tuple(v) if v.len() == 2));
            assert!(matches!(&func.params[1].ty, Ty::Named(n) if n == "Point"));
            assert!(matches!(func.params[2].ty, Ty::U16));
        },
        _ => panic!(),
    }
}

#[test]
fn control_flow_statements() {
    let f = parse_ok(
        "fn main() { if a { x(); } else if b { y(); } else { z(); } while c { return; } return 1; }",
    );
    let s = body(&f);
    match &s[0].kind {
        StmtKind::If { else_block: Some(b), .. } => {
            assert_eq!(b.stmts.len(), 1);
            assert!(matches!(&b.stmts[0].kind, StmtKind::If { else_block: Some(_), .. }));
        },
        _ => panic!("expected an if statement"),
    }
    match &s[1].kind {
        StmtKind::While { body, .. } => assert!(matches!(body.stmts[0].kind, StmtKind::Return(None))),
        _ => panic!("expected a while loop"),
    }
    assert!(matches!(&s[2].kind, StmtKind::Return(Some(_))));
}

#[test]
fn unsafe_block_statement() {
    let f = parse_ok("fn main() { unsafe { x(); } unsafe { 1 } }");
    let s = body(&f);
    assert!(matches!(&s[0].kind, StmtKind::Expr(e) if matches!(e.kind, ExprKind::Unsafe(_))));
    // As the last statement of a block, it is the block's value.
    assert!(matches!(&s[1].kind, StmtKind::Return(Some(e)) if matches!(e.kind, ExprKind::Unsafe(_))));
}

#[test]
fn println_statement() {
    let f = parse_ok("fn main() { println!(\"{} {}\", a, 1 + 2); }");
    match &body(&f)[0].kind {
        StmtKind::Println { format, args } => {
            assert_eq!(format, "{} {}");
            assert_eq!(args.len(), 2);
        },
        _ => panic!("expected println"),
    }
}

#[test]
fn items_struct_enum_impl() {
    let f = parse_ok(
        "struct P { x: i32, y: i32, }\n\
         enum E { A, B(i32, bool), C { w: u8 }, }\n\
         impl P { fn get(&self) -> i32 { self.x } fn set(&mut self, v: i32) { self.x = v; } fn new(x: i32) -> P { P { x: x, y: 0 } } fn take(self) {} }",
    );
    assert_eq!(f.items.len(), 3);
    match &f.items[0] {
        Item::Struct(s) => {
            assert_eq!(s.name, "P");
            assert_eq!(s.fields.len(), 2);
            assert!(!s.is_tuple);
            assert_eq!(s.loc, Loc::new(1, 1));
        },
        _ => panic!("expected a struct"),
    }
    match &f.items[1] {
        Item::Enum(e) => {
            assert_eq!(e.variants.len(), 3);
            assert!(matches!(e.variants[0].fields, VariantFields::Unit));
            assert!(matches!(&e.variants[1].fields, VariantFields::Tuple(v) if v.len() == 2));
            assert!(matches!(&e.variants[2].fields, VariantFields::Named(v) if v.len() == 1));
            assert_eq!(e.loc, Loc::new(2, 1));
        },
        _ => panic!("expected an enum"),
    }
    match &f.items[2] {
        Item::Impl(i) => {
            assert_eq!(i.ty_name, "P");
            assert!(i.trait_name.is_none());
            assert_eq!(i.methods.len(), 4);
            assert!(matches!(i.methods[0].receiver, Some(Receiver::Ref)));
            assert!(matches!(i.methods[1].receiver, Some(Receiver::RefMut)));
            assert_eq!(i.methods[1].params.len(), 1);
            assert!(i.methods[2].receiver.is_none());
            assert!(matches!(i.methods[3].receiver, Some(Receiver::Value)));
        },
        _ => panic!("expected an impl block"),
    }
}

#[test]
fn match_arms_and_patterns() {
    let f = parse_ok(
        "fn main() { match s { Shape::Circle(r) => r, Shape::Rect { w, h: height } => { w } \
         Shape::Dot => println!(\"dot\"), -5 => 1, true => 2, _ => 0, } }",
    );
    match &body(&f)[0].kind {
        StmtKind::Match { arms, scrutinee_ty: None, .. } => {
            assert_eq!(arms.len(), 6);
            match &arms[0].pat {
                Pat::EnumVariant { ty_name, variant, bindings: PatBindings::Tuple(b) } => {
                    assert_eq!(ty_name, "Shape");
                    assert_eq!(variant, "Circle");
                    assert!(matches!(&b[0], Pat::Binding(n) if n == "r"));
                },
                _ => panic!("expected a tuple variant pattern"),
            }
            // A single-expression arm is the arm's value.
            assert!(matches!(arms[0].body.stmts[0].kind, StmtKind::Return(Some(_))));
            match &arms[1].pat {
                Pat::EnumVariant { bindings: PatBindings::Named(b, false), .. } => {
                    assert_eq!(b[0], ("w".to_string(), "w".to_string()));
                    assert_eq!(b[1], ("h".to_string(), "height".to_string()));
                },
                _ => panic!("expected a named variant pattern"),
            }
            assert!(matches!(&arms[2].pat, Pat::EnumVariant { bindings: PatBindings::Empty, .. }));
            assert!(matches!(arms[2].body.stmts[0].kind, StmtKind::Println { .. }));
            assert!(matches!(arms[3].pat, Pat::Int(-5)));
            assert!(matches!(arms[4].pat, Pat::Bool(true)));
            assert!(matches!(arms[5].pat, Pat::Wildcard));
            assert!(arms.iter().all(|a| a.guard.is_none()));
        },
        _ => panic!("expected a match"),
    }
}

#[test]
fn error_expected_identifier() {
    let e = parse_err("fn main() { let = 1; }");
    assert_eq!(e.message, "expected identifier, got Eq");
    assert_eq!(e.loc, Loc::new(1, 17));
    assert_eq!(e.display(), "1:17: error: expected identifier, got Eq");
}

#[test]
fn error_expected_item() {
    let e = parse_err("let x = 1;");
    assert_eq!(e.message, "expected item, got Let");
    assert_eq!(e.loc, Loc::new(1, 1));
}

#[test]
fn error_messages_print_token_payloads() {
    assert_eq!(parse_err("struct 5").message, "expected identifier, got IntLit(5)");
    assert_eq!(parse_err("struct S { x y }").message, "expected Colon, got Ident(\"y\")");
    assert_eq!(parse_err("fn f() { \"s\" }").message, "expected expression, got StringLit(\"s\")");
    assert_eq!(parse_err("fn f() -> { }").message, "expected type, got LBrace");
    assert_eq!(parse_err("fn f(").message, "expected RParen, got Eof");
    assert_eq!(parse_err("impl A { let }").message, "expected Fn, got Let");
    assert_eq!(parse_err("fn f() { 'a' }").message, "expected expression, got CharLit(97)");
}

#[test]
fn error_star_type_needs_const_or_mut() {
    let e = parse_err("fn f(p: *u8) {}");
    assert_eq!(e.message, "expected `const` or `mut` after `*` in type");
    assert_eq!(e.loc, Loc::new(1, 10));
}

#[test]
fn error_println_needs_a_string() {
    let e = parse_err("fn f() { println!(x); }");
    assert_eq!(e.message, "println! expects a string literal");
    assert_eq!(e.loc, Loc::new(1, 19));
}

#[test]
fn error_minus_pattern_needs_an_integer() {
    let e = parse_err("fn f() { match x { - y => 1 } }");
    assert_eq!(e.message, "expected integer after `-` in pattern");
    assert_eq!(e.loc, Loc::new(1, 20));
    assert_eq!(parse_err("fn f() { match x { y => 1 } }").message, "expected pattern, got Ident(\"y\")");
}

#[test]
fn lexer_output_is_accepted_by_the_parser() {
    let src = "fn f() { match x { -9223372036854775807 => 1, 0x7fff_ffff_ffff_ffff => 2, _ => 0 } }";
    let tokens = Lexer::new(src).tokenize().expect("the source lexes");
    assert!(matches!(tokens.last().map(|t| &t.kind), Some(TokenKind::Eof)));
    assert!(tokens.iter().all(|t| !matches!(t.kind, TokenKind::IntLit(n) if n < 0)));
    let f = Parser::new(tokens).parse().expect("the tokens parse");
    match &body(&f)[0].kind {
        StmtKind::Match { arms, .. } => {
            assert!(matches!(arms[0].pat, Pat::Int(-9223372036854775807)));
            assert!(matches!(arms[1].pat, Pat::Int(9223372036854775807)));
        },
        _ => panic!("expected a match"),
    }
}

#[test]
fn negating_the_smallest_integer_in_a_pattern_wraps() {
    let t = |kind: TokenKind, col: usize| Token { kind, line: 1, col };
    let mut tokens = Lexer::new("fn f() { match x { 0 => 1 } }").tokenize().unwrap();
    // Replace the pattern `0` with `- <i64::MIN>`.
    let at = tokens.iter().position(|k| matches!(k.kind, TokenKind::IntLit(0))).unwrap();
    tokens[at] = t(TokenKind::IntLit(i64::MIN), 21);
    tokens.insert(at, t(TokenKind::Minus, 20));
    let f = Parser::new(tokens).parse().expect("the tokens parse");
    match &body(&f)[0].kind {
        StmtKind::Match { arms, .. } => assert!(matches!(arms[0].pat, Pat::Int(i64::MIN))),
        _ => panic!("expected a match"),
    }
}
