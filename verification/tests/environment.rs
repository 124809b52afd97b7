use script_core::ast::{Location, Param, Statement, Stmt};
use script_core::environment::{Environment, Function};
use script_core::error::RuntimeError;
use script_core::native_functions::Intrinsic;
use script_core::value::InterpretValue;

#[test]
fn innermost_binding_wins() {
    let mut env: Environment<Intrinsic> = Environment::new();
    env.set("x".to_string(), InterpretValue::I32(1)).unwrap();
    env.push_scope();
    assert!(matches!(env.get("x"), Ok(InterpretValue::I32(1))));
    env.set("x".to_string(), InterpretValue::I32(2)).unwrap();
    assert!(matches!(env.get("x"), Ok(InterpretValue::I32(2))));
    env.pop_scope();
    assert!(matches!(env.get("x"), Ok(InterpretValue::I32(1))));
}

#[test]
fn set_overwrites_in_the_same_scope() {
    let mut env: Environment<Intrinsic> = Environment::new();
    env.set("x".to_string(), InterpretValue::I32(1)).unwrap();
    env.set("x".to_string(), InterpretValue::Boolean(true)).unwrap();
    assert!(matches!(env.get("x"), Ok(InterpretValue::Boolean(true))));
}

#[test]
fn update_changes_the_scope_that_holds_the_name() {
    let mut env: Environment<Intrinsic> = Environment::new();
    env.set("x".to_string(), InterpretValue::I32(1)).unwrap();
    env.push_scope();
    env.set("y".to_string(), InterpretValue::I32(2)).unwrap();
    env.update("x".to_string(), InterpretValue::I32(10)).unwrap();
    env.update("y".to_string(), InterpretValue::I32(20)).unwrap();
    assert!(matches!(env.get("y"), Ok(InterpretValue::I32(20))));
    env.pop_scope();
    assert!(matches!(env.get("x"), Ok(InterpretValue::I32(10))));
    assert!(matches!(env.get("y"), Err(RuntimeError::UndefinedVariable { ref name }) if name == "y"));
}

#[test]
fn update_of_an_unknown_name_fails() {
    let mut env: Environment<Intrinsic> = Environment::new();
    assert!(matches!(
        env.update("x".to_string(), InterpretValue::Void),
        Err(RuntimeError::UndefinedVariable { ref name }) if name == "x"
    ));
    assert!(env.get("x").is_err());
}

#[test]
fn set_without_a_scope_fails() {
    let mut env: Environment<Intrinsic> = Environment::new();
    env.pop_scope();
    env.pop_scope();
    assert!(matches!(env.set("x".to_string(), InterpretValue::Void), Err(RuntimeError::NoScope)));
}

#[test]
fn function_names_are_defined_once() {
    let params: Vec<Param> = Vec::new();
    let body = Statement { stmt: Stmt::Break, location: Location::default() };
    let mut env: Environment<Intrinsic> = Environment::new();
    env.define_function("f".to_string(), &params, &body).unwrap();
    env.push_scope();
    assert!(matches!(
        env.define_function("f".to_string(), &params, &body),
        Err(RuntimeError::FunctionRedefined { ref name }) if name == "f"
    ));
    assert!(matches!(
        env.define_native_function("f".to_string(), Intrinsic::Print),
        Err(RuntimeError::FunctionRedefined { .. })
    ));
    env.pop_scope();
    assert!(matches!(env.get_function("f"), Ok(Function::Interpreted { .. })));
    assert!(matches!(
        env.get_function("g"),
        Err(RuntimeError::UndefinedFunction { ref name }) if name == "g"
    ));
    env.define_native_function("g".to_string(), Intrinsic::Exit).unwrap();
    assert!(matches!(
        env.get_function("g"),
        Ok(Function::Native { func: Intrinsic::Exit })
    ));
}

#[test]
fn functions_outlive_scopes() {
    let params: Vec<Param> = Vec::new();
    let body = Statement { stmt: Stmt::Break, location: Location::default() };
    let mut env: Environment<Intrinsic> = Environment::new();
    env.push_scope();
    env.define_function("f".to_string(), &params, &body).unwrap();
    env.pop_scope();
    assert!(env.get_function("f").is_ok());
}
