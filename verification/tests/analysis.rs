use script_core::ast::{
    Expr, Literal, Location, NumericType, Operator, Param, Statement, Stmt, Type,
};
use script_core::sema::{analyze, Scope, SemanticError, Symbol, SymbolKind, SymbolTable};

fn at(line: usize, stmt: Stmt) -> Statement {
    Statement { stmt, location: Location { line, column: 1 } }
}

fn num(text: &str) -> Expr {
    Expr::Literal(Literal::Numeric(text.to_string(), NumericType::I32))
}

fn wide(text: &str) -> Expr {
    Expr::Literal(Literal::Numeric(text.to_string(), NumericType::I64))
}

fn text(s: &str) -> Expr {
    Expr::Literal(Literal::String(s.to_string()))
}

fn truth(word: &str) -> Expr {
    Expr::Literal(Literal::Boolean(word.to_string()))
}

fn var(name: &str) -> Expr {
    Expr::Variable(name.to_string())
}

fn bin(left: Expr, operator: Operator, right: Expr) -> Expr {
    Expr::Binary { left: Box::new(left), operator, right: Box::new(right) }
}

fn un(operator: Operator, operand: Expr) -> Expr {
    Expr::Unary { operator, operand: Box::new(operand) }
}

fn call(name: &str, arguments: Vec<Expr>) -> Expr {
    Expr::FunctionCall { name: name.to_string(), arguments }
}

fn when(condition: Expr, then_branch: Vec<Statement>, else_branch: Option<Vec<Statement>>) -> Expr {
    Expr::If { condition: Box::new(condition), then_branch, else_branch }
}

fn let_(line: usize, name: &str, value: Expr) -> Statement {
    at(line, Stmt::Let { name: name.to_string(), ty: None, value })
}

fn typed_let(line: usize, name: &str, ty: Type, value: Expr) -> Statement {
    at(line, Stmt::Let { name: name.to_string(), ty: Some(ty), value })
}

fn run_(line: usize, expr: Expr) -> Statement {
    at(line, Stmt::Expr(expr))
}

fn block(line: usize, statements: Vec<Statement>) -> Statement {
    at(line, Stmt::Scope { statements })
}

fn i32_type() -> Type {
    Type::Numeric(NumericType::I32)
}

fn symbol(name: &str, kind: SymbolKind, ty: Type) -> Symbol {
    Symbol { name: name.to_string(), kind, ty, location: Location { line: 9, column: 9 } }
}

#[test]
fn well_typed_program_passes() {
    let program = vec![
        let_(1, "x", num("1")),
        typed_let(2, "y", i32_type(), bin(var("x"), Operator::Plus, num("2"))),
        run_(3, call("print", vec![text("{}"), var("y")])),
        run_(4, call("exit", vec![])),
    ];
    assert!(analyze(&program).is_ok());
}

#[test]
fn use_before_declaration_is_rejected() {
    let program = vec![run_(1, call("print", vec![var("x")])), let_(2, "x", num("1"))];
    match analyze(&program) {
        Err(SemanticError::UndeclaredVariable { name, location }) => {
            assert_eq!(name, "x");
            assert_eq!(location, Location { line: 1, column: 1 });
        }
        other => panic!("unexpected result {:?}", other),
    }
}

#[test]
fn undeclared_function_is_rejected() {
    let program = vec![run_(4, call("missing", vec![num("1")]))];
    assert!(matches!(
        analyze(&program),
        Err(SemanticError::UndeclaredFunction { ref name, .. }) if name == "missing"
    ));
}

#[test]
fn redeclaration_in_the_same_scope_is_rejected() {
    let program = vec![let_(1, "x", num("1")), let_(2, "x", num("2"))];
    match analyze(&program) {
        Err(SemanticError::Redeclaration { kind, name, location }) => {
            assert_eq!(kind, SymbolKind::Variable);
            assert_eq!(name, "x");
            assert_eq!(location, Location { line: 2, column: 1 });
        }
        other => panic!("unexpected result {:?}", other),
    }
    let program = vec![let_(1, "print", num("1"))];
    assert!(matches!(analyze(&program), Err(SemanticError::Redeclaration { .. })));
}

#[test]
fn shadowing_in_a_nested_scope_passes() {
    let program = vec![
        let_(1, "x", num("1")),
        block(2, vec![let_(2, "x", truth("true")), run_(3, un(Operator::LogicalNot, var("x")))]),
        run_(4, bin(var("x"), Operator::Plus, num("1"))),
    ];
    assert!(analyze(&program).is_ok());
}

#[test]
fn names_of_a_scope_end_with_it() {
    let program = vec![block(1, vec![let_(1, "x", num("1"))]), run_(2, var("x"))];
    assert!(matches!(analyze(&program), Err(SemanticError::UndeclaredVariable { .. })));
}

#[test]
fn locals_of_a_nested_scope_are_typed_inside_it() {
    let program = vec![at(
        1,
        Stmt::While {
            condition: truth("true"),
            body: Box::new(block(
                1,
                vec![
                    let_(2, "j", num("1")),
                    run_(3, Expr::Assignment {
                        target: Box::new(var("j")),
                        value: Box::new(bin(var("j"), Operator::Plus, num("1"))),
                    }),
                ],
            )),
        },
    )];
    assert!(analyze(&program).is_ok());
}

#[test]
fn binary_operands_of_different_types_are_rejected() {
    let program = vec![run_(1, bin(num("1"), Operator::Plus, wide("2")))];
    match analyze(&program) {
        Err(SemanticError::BinaryTypeMismatch { left, right, .. }) => {
            assert!(left.same(&Type::Numeric(NumericType::I32)));
            assert!(right.same(&Type::Numeric(NumericType::I64)));
        }
        other => panic!("unexpected result {:?}", other),
    }
}

#[test]
fn assignment_of_another_type_is_rejected() {
    let program = vec![
        let_(1, "x", num("1")),
        run_(2, Expr::Assignment { target: Box::new(var("x")), value: Box::new(text("s")) }),
    ];
    assert!(matches!(analyze(&program), Err(SemanticError::AssignmentTypeMismatch { .. })));
}

#[test]
fn let_with_another_declared_type_is_rejected() {
    let program = vec![typed_let(1, "x", Type::Boolean, num("1"))];
    assert!(matches!(analyze(&program), Err(SemanticError::LetTypeMismatch { .. })));
}

#[test]
fn conditions_must_be_boolean() {
    let program = vec![run_(1, when(num("1"), vec![], None))];
    assert!(matches!(analyze(&program), Err(SemanticError::NonBooleanCondition { .. })));
    let program =
        vec![at(1, Stmt::While { condition: num("1"), body: Box::new(block(1, vec![])) })];
    assert!(matches!(analyze(&program), Err(SemanticError::NonBooleanCondition { .. })));
}

#[test]
fn logical_operators_need_booleans() {
    let program = vec![run_(1, bin(num("1"), Operator::LogicalAnd, num("2")))];
    assert!(matches!(analyze(&program), Err(SemanticError::NonBooleanOperand { .. })));
    let program = vec![run_(1, un(Operator::LogicalNot, num("1")))];
    assert!(matches!(analyze(&program), Err(SemanticError::NonBooleanOperand { .. })));
    let program = vec![run_(1, bin(truth("true"), Operator::LogicalOr, truth("false")))];
    assert!(analyze(&program).is_ok());
}

#[test]
fn only_pointers_can_be_dereferenced() {
    let program = vec![run_(1, un(Operator::Dereference, num("1")))];
    assert!(matches!(analyze(&program), Err(SemanticError::InvalidDereference { .. })));
    let program = vec![
        let_(1, "x", num("1")),
        let_(2, "p", un(Operator::AddressOf, var("x"))),
        typed_let(3, "y", i32_type(), un(Operator::Dereference, var("p"))),
    ];
    assert!(analyze(&program).is_ok());
}

#[test]
fn branches_of_an_if_must_agree_in_type() {
    let program = vec![run_(
        1,
        when(truth("true"), vec![run_(1, num("1"))], Some(vec![run_(1, text("s"))])),
    )];
    assert!(matches!(analyze(&program), Err(SemanticError::BranchTypeMismatch { .. })));
    let program = vec![run_(
        1,
        when(truth("true"), vec![run_(1, num("1"))], Some(vec![run_(1, num("2"))])),
    )];
    assert!(analyze(&program).is_ok());
}

#[test]
fn parameters_are_visible_in_the_body_only() {
    let body = block(1, vec![at(1, Stmt::Return { value: Some(var("n")) })]);
    let define = at(
        1,
        Stmt::Func {
            name: "id".to_string(),
            params: vec![Param { name: "n".to_string(), ty: i32_type() }],
            ty: i32_type(),
            body: Box::new(body),
        },
    );
    let program = vec![define, typed_let(2, "x", i32_type(), call("id", vec![num("1")]))];
    assert!(analyze(&program).is_ok());

    let body = block(1, vec![]);
    let define = at(
        1,
        Stmt::Func {
            name: "f".to_string(),
            params: vec![Param { name: "n".to_string(), ty: i32_type() }],
            ty: Type::Void,
            body: Box::new(body),
        },
    );
    let program = vec![define, run_(2, var("n"))];
    assert!(matches!(analyze(&program), Err(SemanticError::UndeclaredVariable { .. })));
}

#[test]
fn two_parameters_of_one_name_are_rejected() {
    let define = at(
        1,
        Stmt::Func {
            name: "f".to_string(),
            params: vec![
                Param { name: "n".to_string(), ty: i32_type() },
                Param { name: "n".to_string(), ty: i32_type() },
            ],
            ty: Type::Void,
            body: Box::new(block(1, vec![])),
        },
    );
    assert!(matches!(
        analyze(&[define]),
        Err(SemanticError::Redeclaration { kind: SymbolKind::Parameter, .. })
    ));
}

#[test]
fn comparison_yields_a_boolean() {
    let program = vec![typed_let(1, "b", Type::Boolean, bin(num("1"), Operator::Less, num("2")))];
    assert!(analyze(&program).is_ok());
}

#[test]
fn string_literals_have_the_string_type() {
    let program = vec![typed_let(1, "s", Type::Named("String".to_string()), text("hi"))];
    assert!(analyze(&program).is_ok());
}

#[test]
fn table_looks_names_up_from_the_innermost_scope() {
    let mut table = SymbolTable::new();
    assert!(table.lookup("x").is_none());
    table.declare(symbol("x", SymbolKind::Variable, i32_type())).unwrap();
    table.push_scope();
    assert!(table.lookup("x").unwrap().ty.same(&i32_type()));
    table.declare(symbol("x", SymbolKind::Variable, Type::Boolean)).unwrap();
    assert!(table.lookup("x").unwrap().ty.same(&Type::Boolean));
    assert!(matches!(
        table.declare(symbol("x", SymbolKind::Parameter, Type::Void)),
        Err(SemanticError::Redeclaration { kind: SymbolKind::Parameter, .. })
    ));
    table.pop_scope();
    assert!(table.lookup("x").unwrap().ty.same(&i32_type()));
    table.pop_scope();
    assert!(table.lookup("x").is_none());
    assert!(matches!(
        table.declare(symbol("x", SymbolKind::Variable, Type::Void)),
        Err(SemanticError::NoScope)
    ));
}

#[test]
fn scope_holds_each_name_once() {
    let mut scope = Scope::new();
    assert!(scope.get("f").is_none());
    scope.insert(symbol("f", SymbolKind::Function, Type::Void)).unwrap();
    assert_eq!(scope.get("f").unwrap().kind, SymbolKind::Function);
    assert!(scope.insert(symbol("f", SymbolKind::Variable, Type::Void)).is_err());
    assert_eq!(scope.get("f").unwrap().kind, SymbolKind::Function);
}

#[test]
fn build_declares_the_intrinsics_first() {
    let mut table = SymbolTable::new();
    table.build(&[]).unwrap();
    assert_eq!(table.lookup("print").unwrap().kind, SymbolKind::Function);
    assert!(table.lookup("exit").unwrap().ty.same(&Type::Void));
    assert!(table.build(&[]).is_err());
}

#[test]
fn expression_types_leave_the_table_as_it_was() {
    let mut table = SymbolTable::new();
    let e = when(truth("true"), vec![let_(1, "inner", num("1")), run_(1, var("inner"))], None);
    let t = table.expr_type(&e, Location::default()).unwrap();
    assert!(t.same(&i32_type()));
    assert!(table.lookup("inner").is_none());
    let t = table.block_type(&vec![let_(1, "a", num("1")), run_(2, truth("true"))]).unwrap();
    assert!(t.same(&Type::Boolean));
    assert!(table.lookup("a").is_some());
    let t = table.build_stmt(&let_(3, "b", text("s"))).unwrap();
    assert!(t.same(&Type::Void));
    assert!(table.lookup("b").unwrap().ty.same(&Type::Named("String".to_string())));
}

fn assign(name: &str, value: Expr) -> Expr {
    Expr::Assignment { target: Box::new(var(name)), value: Box::new(value) }
}

fn table_with_x() -> SymbolTable {
    let mut table = SymbolTable::new();
    table.build(&[let_(1, "x", num("1"))]).unwrap();
    table
}

fn still_holds_only_x(table: &mut SymbolTable) -> bool {
    let x_is_i32 = table.lookup("x").map(|s| s.ty.same(&i32_type())).unwrap_or(false);
    let redeclared = table.declare(symbol("x", SymbolKind::Variable, Type::Void));
    x_is_i32
        && matches!(redeclared, Err(SemanticError::Redeclaration { .. }))
        && table.lookup("x").map(|s| s.ty.same(&i32_type())).unwrap_or(false)
        && table.lookup("y").is_none()
        && table.lookup("inner").is_none()
}

#[test]
fn rejected_assignment_leaves_the_table_as_it_was() {
    let mut table = table_with_x();
    let at = Location::default();
    assert!(matches!(
        table.expr_type(&assign("x", truth("true")), at),
        Err(SemanticError::AssignmentTypeMismatch { .. })
    ));
    assert!(still_holds_only_x(&mut table));
    let t = table.expr_type(&assign("x", num("2")), at).unwrap();
    assert!(t.same(&i32_type()));
    assert!(still_holds_only_x(&mut table));
    assert!(matches!(
        table.expr_type(&assign("y", num("2")), at),
        Err(SemanticError::UndeclaredVariable { ref name, .. }) if name == "y"
    ));
    assert!(still_holds_only_x(&mut table));
}

#[test]
fn fault_inside_a_branch_leaves_no_scope_open() {
    let mut table = table_with_x();
    let at = Location::default();
    let e = when(
        truth("true"),
        vec![let_(1, "inner", num("1")), let_(2, "x", truth("true")), run_(3, var("nowhere"))],
        None,
    );
    assert!(matches!(table.expr_type(&e, at), Err(SemanticError::UndeclaredVariable { .. })));
    assert!(still_holds_only_x(&mut table));
    let e = when(num("1"), vec![], None);
    assert!(matches!(table.expr_type(&e, at), Err(SemanticError::NonBooleanCondition { .. })));
    assert!(still_holds_only_x(&mut table));
    let e = when(truth("true"), vec![run_(1, num("1"))], Some(vec![run_(1, text("s"))]));
    assert!(matches!(table.expr_type(&e, at), Err(SemanticError::BranchTypeMismatch { .. })));
    assert!(still_holds_only_x(&mut table));
    let e = call("print", vec![var("x"), var("nowhere")]);
    assert!(matches!(table.expr_type(&e, at), Err(SemanticError::UndeclaredVariable { .. })));
    assert!(still_holds_only_x(&mut table));
}

#[test]
fn fault_inside_a_function_leaves_no_scope_open() {
    let mut table = table_with_x();
    let body = block(1, vec![let_(1, "inner", num("1")), run_(2, var("nowhere"))]);
    let define = at(
        1,
        Stmt::Func {
            name: "f".to_string(),
            params: vec![Param { name: "y".to_string(), ty: i32_type() }],
            ty: Type::Void,
            body: Box::new(body),
        },
    );
    assert!(matches!(table.build_stmt(&define), Err(SemanticError::UndeclaredVariable { .. })));
    assert!(still_holds_only_x(&mut table));
    assert!(table.lookup("f").is_some());

    let twice = at(
        2,
        Stmt::Func {
            name: "g".to_string(),
            params: vec![
                Param { name: "y".to_string(), ty: i32_type() },
                Param { name: "y".to_string(), ty: i32_type() },
            ],
            ty: Type::Void,
            body: Box::new(block(2, vec![])),
        },
    );
    assert!(matches!(table.build_stmt(&twice), Err(SemanticError::Redeclaration { .. })));
    assert!(still_holds_only_x(&mut table));

    let nested = block(3, vec![let_(3, "inner", num("1")), run_(3, var("nowhere"))]);
    assert!(matches!(table.build_stmt(&nested), Err(SemanticError::UndeclaredVariable { .. })));
    assert!(still_holds_only_x(&mut table));
    let t = table.block_type(&vec![let_(4, "y", num("1")), run_(4, var("nowhere"))]);
    assert!(matches!(t, Err(SemanticError::UndeclaredVariable { .. })));
    assert!(table.lookup("y").is_some());
    assert!(matches!(
        table.declare(symbol("x", SymbolKind::Variable, Type::Void)),
        Err(SemanticError::Redeclaration { .. })
    ));
}
