use script_core::ast::{
    Expr, Literal, Location, NumericType, Operator, Param, Statement, Stmt, Type,
};
use script_core::environment::{NativeEffect, NativeFunction};
use script_core::error::{Abort, RuntimeError};
use script_core::native_functions::Intrinsic;
use script_core::interpreter::{ControlFlow, Interpreter};
use script_core::program::{run_program, ProgramError};
use script_core::sema::SemanticError;
use script_core::value::InterpretValue;

fn at(line: usize, stmt: Stmt) -> Statement {
    Statement { stmt, location: Location { line, column: 1 } }
}

fn num(text: &str) -> Expr {
    Expr::Literal(Literal::Numeric(text.to_string(), NumericType::I32))
}

fn text(s: &str) -> Expr {
    Expr::Literal(Literal::String(s.to_string()))
}

fn truth(word: &str) -> Expr {
    Expr::Literal(Literal::Boolean(word.to_string()))
}

fn var(name: &str) -> Expr {
    Expr::Variable(name.to_string())
}

fn bin(left: Expr, operator: Operator, right: Expr) -> Expr {
    Expr::Binary { left: Box::new(left), operator, right: Box::new(right) }
}

fn assign(name: &str, value: Expr) -> Expr {
    Expr::Assignment { target: Box::new(var(name)), value: Box::new(value) }
}

fn call(name: &str, arguments: Vec<Expr>) -> Expr {
    Expr::FunctionCall { name: name.to_string(), arguments }
}

fn when(condition: Expr, then_branch: Vec<Statement>, else_branch: Option<Vec<Statement>>) -> Expr {
    Expr::If { condition: Box::new(condition), then_branch, else_branch }
}

fn let_(line: usize, name: &str, value: Expr) -> Statement {
    at(line, Stmt::Let { name: name.to_string(), ty: None, value })
}

fn run_(line: usize, expr: Expr) -> Statement {
    at(line, Stmt::Expr(expr))
}

fn block(line: usize, statements: Vec<Statement>) -> Statement {
    at(line, Stmt::Scope { statements })
}

fn while_(line: usize, condition: Expr, body: Vec<Statement>) -> Statement {
    at(line, Stmt::While { condition, body: Box::new(block(line, body)) })
}

fn func(line: usize, name: &str, params: Vec<&str>, body: Vec<Statement>) -> Statement {
    at(
        line,
        Stmt::Func {
            name: name.to_string(),
            params: params
                .into_iter()
                .map(|p| Param { name: p.to_string(), ty: Type::Numeric(NumericType::I32) })
                .collect(),
            ty: Type::Numeric(NumericType::I32),
            body: Box::new(block(line, body)),
        },
    )
}

fn ret(line: usize, value: Option<Expr>) -> Statement {
    at(line, Stmt::Return { value })
}

fn lines(output: &[String]) -> Vec<&str> {
    output.iter().map(|s| s.as_str()).collect()
}

#[test]
fn shadowing_ends_with_the_scope() {
    let program = vec![
        let_(1, "x", num("1")),
        block(2, vec![let_(2, "x", num("2")), run_(2, call("print", vec![var("x")]))]),
        run_(3, call("print", vec![var("x")])),
    ];
    let report = run_program(&program, 1000);
    assert!(report.result.is_ok());
    assert_eq!(lines(&report.output), vec!["2", "1"]);
    assert_eq!(report.exit_code, None);
}

#[test]
fn assignment_reaches_the_scope_that_holds_the_name() {
    let program = vec![
        let_(1, "x", num("1")),
        block(2, vec![run_(2, assign("x", num("5")))]),
        run_(3, call("print", vec![var("x")])),
    ];
    let report = run_program(&program, 1000);
    assert!(report.result.is_ok());
    assert_eq!(lines(&report.output), vec!["5"]);
}

#[test]
fn call_with_too_few_arguments_fails_before_the_body_runs() {
    let program = vec![
        func(1, "f", vec!["a", "b"], vec![run_(1, call("print", vec![text("body")]))]),
        run_(2, call("f", vec![num("1")])),
    ];
    let report = run_program(&program, 1000);
    match report.result {
        Err(ProgramError::Runtime(e)) => {
            assert_eq!(e.location, Location { line: 2, column: 1 });
            match e.error {
                RuntimeError::ArityMismatch { name, expected, found } => {
                    assert_eq!(name, "f");
                    assert_eq!(expected, 2);
                    assert_eq!(found, 1);
                }
                other => panic!("unexpected error {:?}", other),
            }
        }
        other => panic!("unexpected result {:?}", other),
    }
    assert!(report.output.is_empty());
}

#[test]
fn call_with_too_many_arguments_fails_before_the_body_runs() {
    let program = vec![
        func(1, "f", vec!["a", "b"], vec![run_(1, call("print", vec![text("body")]))]),
        run_(2, call("f", vec![num("1"), num("2"), call("print", vec![text("argument")])])),
    ];
    let report = run_program(&program, 1000);
    assert!(matches!(
        report.result,
        Err(ProgramError::Runtime(script_core::error::LocatedError {
            error: RuntimeError::ArityMismatch { expected: 2, found: 3, .. },
            ..
        }))
    ));
    assert!(report.output.is_empty());
}

#[test]
fn break_in_a_leading_if_skips_the_rest_of_the_body() {
    let program = vec![
        while_(
            1,
            truth("true"),
            vec![
                run_(2, when(truth("true"), vec![at(2, Stmt::Break)], None)),
                run_(3, call("print", vec![text("after")])),
            ],
        ),
        run_(4, call("print", vec![text("done")])),
    ];
    let report = run_program(&program, 1000);
    assert!(report.result.is_ok());
    assert_eq!(lines(&report.output), vec!["done"]);
}

#[test]
fn loop_counts_and_continue_skips() {
    let program = vec![
        let_(1, "i", num("0")),
        while_(
            2,
            bin(var("i"), Operator::Less, num("5")),
            vec![
                run_(3, assign("i", bin(var("i"), Operator::Plus, num("1")))),
                run_(
                    4,
                    when(
                        bin(var("i"), Operator::Equals, num("3")),
                        vec![at(4, Stmt::Continue)],
                        None,
                    ),
                ),
                run_(5, call("print", vec![var("i")])),
            ],
        ),
    ];
    let report = run_program(&program, 1000);
    assert!(report.result.is_ok());
    assert_eq!(lines(&report.output), vec!["1", "2", "4", "5"]);
}

#[test]
fn print_fills_placeholders_from_left_to_right() {
    let program = vec![
        run_(1, call("print", vec![text("{} and {}"), num("1"), text("two")])),
        run_(2, call("print", vec![text("{}")])),
        run_(3, call("print", vec![])),
        run_(4, call("print", vec![text("{} {} {}"), num("7"), num("8")])),
        run_(5, call("print", vec![text("{}"), num("7"), num("8")])),
        run_(6, call("print", vec![num("1"), num("2")])),
        run_(7, call("print", vec![text("{{}}"), num("3")])),
    ];
    let report = run_program(&program, 1000);
    assert!(report.result.is_ok());
    assert_eq!(
        lines(&report.output),
        vec!["1 and two", "{}", "", "7 8 {}", "7", "1 2 ", "{3}"]
    );
}

#[test]
fn rejected_program_writes_nothing() {
    let program = vec![
        run_(1, call("print", vec![text("hello")])),
        run_(2, bin(num("1"), Operator::Plus, truth("true"))),
    ];
    let report = run_program(&program, 1000);
    assert!(matches!(
        report.result,
        Err(ProgramError::Semantic(SemanticError::BinaryTypeMismatch { .. }))
    ));
    assert!(report.output.is_empty());
    assert_eq!(report.exit_code, None);

    let mut interpreter = Interpreter::with_fuel(1000);
    let ran = interpreter.interpret(&program);
    assert!(ran.is_err());
    assert_eq!(lines(interpreter.output()), vec!["hello"]);
}

#[test]
fn second_definition_of_a_function_fails_in_any_scope() {
    let program = vec![
        func(1, "f", vec![], vec![run_(1, call("print", vec![text("first")]))]),
        block(2, vec![func(2, "f", vec![], vec![run_(2, call("print", vec![text("second")]))])]),
        run_(3, call("f", vec![])),
    ];
    let report = run_program(&program, 1000);
    match report.result {
        Err(ProgramError::Runtime(e)) => {
            assert_eq!(e.location, Location { line: 2, column: 1 });
            assert!(matches!(e.error, RuntimeError::FunctionRedefined { ref name } if name == "f"));
        }
        other => panic!("unexpected result {:?}", other),
    }
    assert!(report.output.is_empty());
}

#[test]
fn intrinsic_names_cannot_be_redefined() {
    let program = vec![func(1, "print", vec![], vec![])];
    let mut interpreter = Interpreter::new();
    let ran = interpreter.interpret(&program);
    assert!(matches!(
        ran,
        Err(script_core::error::LocatedError { error: RuntimeError::FunctionRedefined { .. }, .. })
    ));
}

#[test]
fn return_gives_the_value_of_the_call() {
    let program = vec![
        func(
            1,
            "double",
            vec!["n"],
            vec![
                ret(1, Some(bin(var("n"), Operator::Multiply, num("2")))),
                run_(1, call("print", vec![text("unreachable")])),
            ],
        ),
        run_(2, call("print", vec![call("double", vec![num("21")])])),
    ];
    let report = run_program(&program, 1000);
    assert!(report.result.is_ok());
    assert_eq!(lines(&report.output), vec!["42"]);
}

#[test]
fn recursion_computes_a_factorial() {
    let program = vec![
        func(
            1,
            "fact",
            vec!["n"],
            vec![
                run_(
                    2,
                    when(
                        bin(var("n"), Operator::LessEquals, num("1")),
                        vec![ret(2, Some(num("1")))],
                        None,
                    ),
                ),
                ret(
                    3,
                    Some(bin(
                        var("n"),
                        Operator::Multiply,
                        call("fact", vec![bin(var("n"), Operator::Minus, num("1"))]),
                    )),
                ),
            ],
        ),
        run_(4, call("print", vec![call("fact", vec![num("10")])])),
    ];
    let report = run_program(&program, 1000);
    assert!(report.result.is_ok());
    assert_eq!(lines(&report.output), vec!["3628800"]);
}

#[test]
fn arguments_are_evaluated_in_the_scope_of_the_caller() {
    let program = vec![
        let_(1, "x", num("10")),
        func(2, "second", vec!["x", "y"], vec![ret(2, Some(var("y")))]),
        run_(3, call("print", vec![call("second", vec![num("1"), var("x")])])),
    ];
    let report = run_program(&program, 1000);
    assert!(report.result.is_ok());
    assert_eq!(lines(&report.output), vec!["10"]);
}

#[test]
fn signal_at_the_top_level_is_dropped() {
    let program = vec![
        ret(1, None),
        at(2, Stmt::Break),
        run_(3, call("print", vec![text("still here")])),
    ];
    let report = run_program(&program, 1000);
    assert!(report.result.is_ok());
    assert_eq!(lines(&report.output), vec!["still here"]);
}

#[test]
fn exit_ends_the_run_with_its_code() {
    let program = vec![
        run_(1, call("print", vec![text("before")])),
        run_(2, call("exit", vec![num("3")])),
        run_(3, call("print", vec![text("after")])),
    ];
    let report = run_program(&program, 1000);
    assert!(report.result.is_ok());
    assert_eq!(report.exit_code, Some(3));
    assert_eq!(lines(&report.output), vec!["before"]);

    let program = vec![run_(1, call("exit", vec![]))];
    let report = run_program(&program, 1000);
    assert_eq!(report.exit_code, Some(0));
}

#[test]
fn exit_code_is_cut_to_32_bits() {
    let big = Expr::Literal(Literal::Numeric("4294967301".to_string(), NumericType::I64));
    let program = vec![run_(1, call("exit", vec![big]))];
    let report = run_program(&program, 1000);
    assert_eq!(report.exit_code, Some(5));
}

#[test]
fn endless_loop_runs_out_of_fuel() {
    let program = vec![while_(1, truth("true"), vec![])];
    let report = run_program(&program, 50);
    assert!(matches!(
        report.result,
        Err(ProgramError::Runtime(script_core::error::LocatedError {
            error: RuntimeError::FuelExhausted,
            ..
        }))
    ));
}

#[test]
fn runtime_failure_carries_the_place_of_its_statement() {
    let program = vec![
        let_(1, "x", num("1")),
        run_(7, bin(var("x"), Operator::Divide, num("0"))),
        run_(8, call("print", vec![text("never")])),
    ];
    let report = run_program(&program, 1000);
    match report.result {
        Err(ProgramError::Runtime(e)) => {
            assert_eq!(e.location, Location { line: 7, column: 1 });
            assert!(matches!(e.error, RuntimeError::DivisionByZero));
        }
        other => panic!("unexpected result {:?}", other),
    }
    assert!(report.output.is_empty());
}

#[test]
fn undefined_names_fail_at_run_time() {
    let mut interpreter = Interpreter::with_fuel(100);
    let e = var("missing");
    assert!(matches!(
        interpreter.eval_expr(&e, 10),
        Err(Abort::Failure(RuntimeError::UndefinedVariable { ref name })) if name == "missing"
    ));
    let e = assign("missing", num("1"));
    assert!(matches!(
        interpreter.eval_expr(&e, 10),
        Err(Abort::Failure(RuntimeError::UndefinedVariable { .. }))
    ));
    let e = call("missing", vec![]);
    assert!(matches!(
        interpreter.eval_expr(&e, 10),
        Err(Abort::Failure(RuntimeError::UndefinedFunction { ref name })) if name == "missing"
    ));
}

#[test]
fn assignment_needs_a_bare_variable() {
    let mut interpreter = Interpreter::with_fuel(100);
    let e = Expr::Assignment {
        target: Box::new(num("1")),
        value: Box::new(call("print", vec![text("value")])),
    };
    assert!(matches!(
        interpreter.eval_expr(&e, 10),
        Err(Abort::Failure(RuntimeError::InvalidAssignmentTarget))
    ));
    assert!(interpreter.output().is_empty());
}

#[test]
fn only_true_takes_the_then_branch() {
    let mut interpreter = Interpreter::with_fuel(100);
    let e = when(
        num("1"),
        vec![run_(1, call("print", vec![text("then")]))],
        Some(vec![run_(1, call("print", vec![text("else")]))]),
    );
    let r = interpreter.eval_expr(&e, 10);
    assert!(matches!(r, Ok((InterpretValue::Void, ControlFlow::Normal))));
    let e = when(num("1"), vec![run_(1, call("print", vec![text("then")]))], None);
    let r = interpreter.eval_expr(&e, 10);
    assert!(matches!(r, Ok((InterpretValue::Void, ControlFlow::Normal))));
    assert_eq!(lines(interpreter.output()), vec!["else"]);
}

#[test]
fn only_false_ends_a_loop() {
    let mut interpreter = Interpreter::with_fuel(100);
    let s = while_(
        1,
        num("0"),
        vec![run_(1, call("print", vec![text("round")])), at(1, Stmt::Break)],
    );
    let r = interpreter.exec_stmt(&s, 10);
    assert!(matches!(r, Ok(ControlFlow::Normal)));
    assert_eq!(lines(interpreter.output()), vec!["round"]);
}

#[test]
fn unknown_operators_fail() {
    let mut interpreter = Interpreter::with_fuel(100);
    let e = bin(num("1"), Operator::LogicalNot, num("2"));
    assert!(matches!(
        interpreter.eval_expr(&e, 10),
        Err(Abort::Failure(RuntimeError::UnknownBinaryOperator { operator: Operator::LogicalNot }))
    ));
    let e = Expr::Unary { operator: Operator::Dereference, operand: Box::new(num("1")) };
    assert!(matches!(
        interpreter.eval_expr(&e, 10),
        Err(Abort::Failure(RuntimeError::UnknownUnaryOperator { operator: Operator::Dereference }))
    ));
}

#[test]
fn interpreter_starts_with_the_largest_budget() {
    let interpreter = Interpreter::new();
    assert_eq!(interpreter.fuel(), u64::MAX);
    assert_eq!(interpreter.exit_code(), None);
    assert!(interpreter.output().is_empty());
}

#[derive(Clone, Copy)]
enum Host {
    Core(Intrinsic),
    Twice,
    Refuse,
}

impl NativeFunction for Host {
    fn call(&self, args: Vec<InterpretValue>) -> Result<NativeEffect, RuntimeError> {
        match self {
            Host::Core(intrinsic) => intrinsic.call(args),
            Host::Twice => match args.first() {
                Some(v) => Ok(NativeEffect::Value(v.add(v)?)),
                None => Ok(NativeEffect::Value(InterpretValue::Void)),
            },
            Host::Refuse => Err(RuntimeError::NoScope),
        }
    }
}

#[test]
fn host_supplies_native_functions() {
    let natives = vec![
        ("print".to_string(), Host::Core(Intrinsic::Print)),
        ("exit".to_string(), Host::Core(Intrinsic::Exit)),
        ("twice".to_string(), Host::Twice),
        ("refuse".to_string(), Host::Refuse),
    ];
    let program = vec![
        run_(1, call("print", vec![call("twice", vec![num("21")])])),
        run_(2, call("print", vec![text("{}!"), call("twice", vec![text("ab")])])),
        run_(3, call("refuse", vec![])),
        run_(4, call("print", vec![text("not reached")])),
    ];
    let mut interpreter = Interpreter::with_natives(&natives, 1000).unwrap();
    let ran = interpreter.interpret(&program);
    match ran {
        Err(e) => {
            assert_eq!(e.location, Location { line: 3, column: 1 });
            assert!(matches!(e.error, RuntimeError::NoScope));
        }
        Ok(()) => panic!("the run should have failed"),
    }
    assert_eq!(lines(interpreter.output()), vec!["42", "abab!"]);
}

#[test]
fn natives_of_one_name_are_refused() {
    let natives = vec![
        ("f".to_string(), Host::Twice),
        ("g".to_string(), Host::Twice),
        ("f".to_string(), Host::Refuse),
    ];
    assert!(matches!(
        Interpreter::with_natives(&natives, 1000),
        Err(RuntimeError::FunctionRedefined { ref name }) if name == "f"
    ));
    let none: Vec<(String, Host)> = Vec::new();
    let mut interpreter = Interpreter::with_natives(&none, 1000).unwrap();
    let e = call("print", vec![]);
    assert!(matches!(
        interpreter.eval_expr(&e, 10),
        Err(Abort::Failure(RuntimeError::UndefinedFunction { .. }))
    ));
}

#[test]
fn rejected_program_leaves_the_interpreter_untouched() {
    let program = vec![
        run_(1, call("print", vec![text("hello")])),
        run_(2, var("nowhere")),
    ];
    let mut interpreter = Interpreter::with_fuel(1000);
    let r = script_core::program::analyze_and_run(&mut interpreter, &program);
    assert!(matches!(r, Err(ProgramError::Semantic(SemanticError::UndeclaredVariable { .. }))));
    assert!(interpreter.output().is_empty());
    assert_eq!(interpreter.exit_code(), None);

    let accepted = vec![run_(1, call("print", vec![text("hello")]))];
    let r = script_core::program::analyze_and_run(&mut interpreter, &accepted);
    assert!(r.is_ok());
    assert_eq!(lines(interpreter.output()), vec!["hello"]);
}

#[test]
fn endless_recursion_runs_out_of_fuel() {
    let program = vec![
        func(1, "f", vec![], vec![run_(1, call("f", vec![]))]),
        run_(2, call("f", vec![])),
    ];
    let report = run_program(&program, 64);
    match report.result {
        Err(ProgramError::Runtime(e)) => {
            assert_eq!(e.location, Location { line: 2, column: 1 });
            assert!(matches!(e.error, RuntimeError::FuelExhausted));
        }
        other => panic!("unexpected result {:?}", other),
    }
}

#[test]
fn return_leaves_a_loop_and_the_function() {
    let program = vec![
        func(
            1,
            "first_above",
            vec!["limit"],
            vec![
                let_(2, "i", num("0")),
                while_(
                    3,
                    truth("true"),
                    vec![
                        run_(
                            4,
                            when(
                                bin(var("i"), Operator::Greater, var("limit")),
                                vec![ret(4, Some(var("i")))],
                                None,
                            ),
                        ),
                        run_(5, assign("i", bin(var("i"), Operator::Plus, num("1")))),
                    ],
                ),
                run_(6, call("print", vec![text("after the loop")])),
            ],
        ),
        run_(7, call("print", vec![call("first_above", vec![num("3")])])),
    ];
    let report = run_program(&program, 1000);
    assert!(report.result.is_ok());
    assert_eq!(lines(&report.output), vec!["4"]);
}

#[test]
fn function_without_return_yields_void() {
    let program = vec![
        func(1, "nothing", vec![], vec![at(1, Stmt::Break)]),
        run_(2, call("print", vec![call("nothing", vec![])])),
    ];
    let mut interpreter = Interpreter::with_fuel(100);
    assert!(interpreter.interpret(&program).is_ok());
    assert_eq!(lines(interpreter.output()), vec!["void"]);
}

#[test]
fn callee_sees_the_scopes_below_its_own() {
    let program = vec![
        let_(1, "g", num("7")),
        func(2, "show", vec![], vec![run_(2, call("print", vec![var("g")]))]),
        run_(3, call("show", vec![])),
    ];
    let report = run_program(&program, 1000);
    assert!(report.result.is_ok());
    assert_eq!(lines(&report.output), vec!["7"]);
}

#[derive(Clone, Copy)]
struct Counter<'c>(&'c std::cell::Cell<i32>);

impl<'c> NativeFunction for Counter<'c> {
    fn call(&self, _args: Vec<InterpretValue>) -> Result<NativeEffect, RuntimeError> {
        self.0.set(self.0.get() + 1);
        if self.0.get() > 3 {
            Ok(NativeEffect::Exit(self.0.get()))
        } else {
            Ok(NativeEffect::Line(self.0.get().to_string()))
        }
    }
}

#[test]
fn native_may_answer_differently_from_call_to_call() {
    let count = std::cell::Cell::new(0);
    let natives = vec![("tick".to_string(), Counter(&count))];
    let program = vec![while_(1, truth("true"), vec![run_(2, call("tick", vec![]))])];
    let mut interpreter = Interpreter::with_natives(&natives, 1000).unwrap();
    let ran = interpreter.interpret(&program);
    assert!(ran.is_ok());
    assert_eq!(interpreter.exit_code(), Some(4));
    assert_eq!(lines(interpreter.output()), vec!["1", "2", "3"]);
    assert_eq!(count.get(), 4);
}

#[test]
fn rejected_program_calls_no_native() {
    let count = std::cell::Cell::new(0);
    let natives = vec![("print".to_string(), Counter(&count))];
    let program = vec![
        run_(1, call("print", vec![])),
        run_(2, bin(num("1"), Operator::Plus, truth("true"))),
    ];
    let mut interpreter = Interpreter::with_natives(&natives, 1000).unwrap();
    let r = script_core::program::analyze_and_run(&mut interpreter, &program);
    assert!(matches!(r, Err(ProgramError::Semantic(_))));
    assert_eq!(count.get(), 0);
    assert!(interpreter.output().is_empty());
}
