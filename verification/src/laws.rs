//! Laws of the value model and of the interpreter: what holds of every
//! value, every program and every state.

use crate::ast::{Expr, Operator, Param, Statement, Stmt};
use crate::environment::{Function, NativeFunction};
use crate::error::{AbortView, RuntimeErrorView, ValueKind};
use crate::interpreter::{
    eval_args,
    eval_expr,
    exec_block,
    exec_stmt,
    called,
    exec_while,
    fail,
    param_scope,
    run,
    FlowView,
    InterpreterView,
    Oracle,
};
use crate::arith::{law_trunc_div_rem, law_wrap_is_congruent, trunc_div, trunc_rem};
use crate::value::{
    same_integer_kind,
    spec_add,
    spec_binary,
    spec_div,
    spec_mul,
    spec_rem,
    spec_sub,
    Outcome,
    ValueView,
};
use vstd::prelude::*;

verus! {

/// Whether `r` is an integer of the given kind that lies within the kind
/// and differs from the exact result by a multiple of the kind's range.
pub open spec fn is_wrapped(r: Outcome, kind: ValueKind, exact: int) -> bool {
    r matches Ok(ValueView::Int { kind: k, value }) && k == kind && kind.holds(value) && (exact
        - value) % kind.range() == 0 && (kind.holds(exact) ==> value == exact)
}

/// On two integers of one kind, `+`, `-` and `*` give the exact result
/// folded into the kind: an integer of the same kind that differs from the
/// exact one by a multiple of two to the power of the kind's width, and the
/// exact one itself where it fits.
pub proof fn law_arithmetic_wraps(a: ValueView, b: ValueView)
    requires
        a.wf(),
        b.wf(),
        same_integer_kind(a, b),
    ensures
        is_wrapped(spec_add(a, b), a->kind, a->value + b->value),
        is_wrapped(spec_sub(a, b), a->kind, a->value - b->value),
        is_wrapped(spec_mul(a, b), a->kind, a->value * b->value),
{
    law_wrap_is_congruent(a->kind, a->value + b->value);
    law_wrap_is_congruent(a->kind, a->value - b->value);
    law_wrap_is_congruent(a->kind, a->value * b->value);
}

/// On two integers of one kind, `/` and `%` fail on a zero divisor and
/// otherwise split the dividend with truncation toward zero: the quotient,
/// folded into the kind, times the divisor plus the remainder is the
/// dividend; the remainder is smaller than the divisor in magnitude and
/// never of the sign opposite to the dividend's.
pub proof fn law_division_truncates(a: ValueView, b: ValueView)
    requires
        a.wf(),
        b.wf(),
        same_integer_kind(a, b),
    ensures
        b->value == 0 ==> spec_div(a, b) == Err::<ValueView, RuntimeErrorView>(
            RuntimeErrorView::DivisionByZero,
        ) && spec_rem(a, b) == Err::<ValueView, RuntimeErrorView>(
            RuntimeErrorView::DivisionByZero,
        ),
        b->value != 0 ==> is_wrapped(spec_div(a, b), a->kind, trunc_div(a->value, b->value))
            && is_wrapped(spec_rem(a, b), a->kind, trunc_rem(a->value, b->value)) && spec_rem(
            a,
            b,
        )->Ok_0->value == trunc_rem(a->value, b->value) && a->value == b->value * trunc_div(
            a->value,
            b->value,
        ) + trunc_rem(a->value, b->value),
{
    if b->value != 0 {
        let kind = a->kind;
        law_trunc_div_rem(a->value, b->value);
        law_wrap_is_congruent(kind, trunc_div(a->value, b->value));
        law_wrap_is_congruent(kind, trunc_rem(a->value, b->value));
        crate::arith::lemma_kind_shape(kind);
    }
}

/// Every binary operator fails on operands of different kinds.
pub proof fn law_mismatched_kinds_fail(operator: Operator, a: ValueView, b: ValueView)
    requires
        a.kind() != b.kind(),
    ensures
        spec_binary(operator, a, b) is Err,
{
}

/// Whether a function table holds everything that another one holds, under
/// the same names.
pub open spec fn extends<'a, N>(
    before: Map<Seq<char>, Function<'a, N>>,
    after: Map<Seq<char>, Function<'a, N>>,
) -> bool {
    forall|name: Seq<char>| #[trigger]
        before.contains_key(name) ==> after.contains_key(name) && after[name] == before[name]
}

/// Defining a function under a name that the function table holds fails,
/// whatever scopes are open, and changes nothing.
pub proof fn law_second_definition_fails<'a, N: NativeFunction>(
    m: InterpreterView<'a, N>,
    statement: &'a Statement,
    fuel: nat,
    oracle: Oracle,
)
    requires
        statement.stmt is Func,
        m.env.functions.contains_key(statement.stmt->Func_name@),
    ensures
        exec_stmt(m, statement, fuel, oracle) == (
            m,
            Err::<FlowView, AbortView>(
                AbortView::Failure(
                    RuntimeErrorView::FunctionRedefined { name: statement.stmt->Func_name@ },
                ),
            ),
        ),
{
}

/// A call of an interpreted function with another number of arguments than
/// it has parameters fails at once: no argument is evaluated, the body does
/// not run, the state stays as it was.
pub proof fn law_arity_mismatch_runs_nothing<'a, N: NativeFunction>(
    m: InterpreterView<'a, N>,
    expr: &'a Expr,
    fuel: nat,
    oracle: Oracle,
)
    requires
        expr is FunctionCall,
        m.env.functions.contains_key(expr->FunctionCall_name@),
        m.env.functions[expr->FunctionCall_name@] is Interpreted,
        m.env.functions[expr->FunctionCall_name@]->params.len() != expr->arguments.len(),
    ensures
        eval_expr(m, expr, fuel, oracle) == (
            m,
            fail(
                RuntimeErrorView::ArityMismatch {
                    name: expr->FunctionCall_name@,
                    expected: m.env.functions[expr->FunctionCall_name@]->params.len(),
                    found: expr->arguments.len(),
                },
            ),
        ),
{
}

/// Whether the first statement of a loop body is an `if` whose then-branch
/// is a lone `break`.
pub open spec fn begins_with_break_guard(body: &Statement) -> bool {
    &&& body.stmt is Scope
    &&& body.stmt->statements.len() > 0
    &&& body.stmt->statements[0].stmt is Expr
    &&& body.stmt->statements[0].stmt->Expr_0 is If
    &&& body.stmt->statements[0].stmt->Expr_0->then_branch.len() == 1
    &&& body.stmt->statements[0].stmt->Expr_0->then_branch[0].stmt is Break
}

/// The condition of the `if` that a loop body begins with.
pub open spec fn break_guard<'a>(body: &'a Statement) -> &'a Expr {
    &*body.stmt->statements[0].stmt->Expr_0->condition
}

/// A loop whose body begins with `if guard { break; }` ends in its first
/// round when the guard holds there: nothing that follows the `if` in the
/// body is executed, and the state is the one that the loop condition and
/// the guard left.
pub proof fn law_break_guard_skips_body<'a, N: NativeFunction>(
    m: InterpreterView<'a, N>,
    condition: &'a Expr,
    body: &'a Statement,
    fuel: nat,
    oracle: Oracle,
)
    requires
        fuel > 0,
        begins_with_break_guard(body),
        eval_expr(m, condition, (fuel - 1) as nat, oracle).1 matches Ok((cv, _)) && cv
            != ValueView::Boolean(false),
        eval_expr(
            eval_expr(m, condition, (fuel - 1) as nat, oracle).0.entered(),
            break_guard(body),
            (fuel - 1) as nat,
            oracle,
        ).1 matches Ok((gv, _)) && gv == ValueView::Boolean(true),
    ensures
        exec_while(m, condition, body, fuel, oracle) == (
            eval_expr(
                eval_expr(m, condition, (fuel - 1) as nat, oracle).0.entered(),
                break_guard(body),
                (fuel - 1) as nat,
                oracle,
            ).0.left(),
            Ok::<FlowView, AbortView>(FlowView::Normal),
        ),
{
    let inner = (fuel - 1) as nat;
    let m1 = eval_expr(m, condition, inner, oracle).0;
    let stmts = &body.stmt->statements;
    let first = &stmts[0];
    let guard_if = &first.stmt->Expr_0;
    let then_branch = &guard_if->then_branch;
    let m2 = eval_expr(m1.entered(), break_guard(body), inner, oracle).0;
    assert(exec_stmt(m2.entered(), &then_branch[0], inner, oracle) == (
        m2.entered(),
        Ok::<FlowView, AbortView>(FlowView::Break),
    ));
    assert(exec_block(m2.entered(), then_branch, 1, inner, oracle) == (
        m2.entered(),
        Ok::<FlowView, AbortView>(FlowView::Normal),
    ));
    assert(exec_block(m2.entered(), then_branch, 0, inner, oracle) == (
        m2.entered(),
        Ok::<FlowView, AbortView>(FlowView::Break),
    ));
    assert(m2.entered().left().env.scopes =~= m2.env.scopes);
    assert(m2.entered().left() == m2);
    assert(eval_expr(m1.entered(), guard_if, inner, oracle) == (
        m2,
        Ok::<(ValueView, FlowView), AbortView>((ValueView::Void, FlowView::Break)),
    ));
    assert(exec_stmt(m1.entered(), first, inner, oracle) == (
        m2,
        Ok::<FlowView, AbortView>(FlowView::Break),
    ));
    assert(exec_block(m1.entered(), stmts, 0, inner, oracle) == (
        m2,
        Ok::<FlowView, AbortView>(FlowView::Break),
    ));
    assert(exec_stmt(m1, body, inner, oracle) == (
        m2.left(),
        Ok::<FlowView, AbortView>(FlowView::Break),
    ));
}

/// Evaluating an expression takes nothing out of the function table and
/// changes no entry of it.
pub proof fn law_functions_persist_expr<'a, N: NativeFunction>(
    m: InterpreterView<'a, N>,
    expr: &'a Expr,
    fuel: nat,
    oracle: Oracle,
)
    ensures
        extends(m.env.functions, eval_expr(m, expr, fuel, oracle).0.env.functions),
    decreases fuel, expr, 0nat,
{
    match expr {
        Expr::Literal(_) => {},
        Expr::Variable(_) => {},
        Expr::Binary { left, operator, right } => {
            law_functions_persist_expr(m, &**left, fuel, oracle);
            let (m1, l) = eval_expr(m, &**left, fuel, oracle);
            if l is Ok {
                law_functions_persist_expr(m1, &**right, fuel, oracle);
            }
        },
        Expr::Unary { operator, operand } => {
            law_functions_persist_expr(m, &**operand, fuel, oracle);
        },
        Expr::Assignment { target, value } => {
            match &**target {
                Expr::Variable(_) => {
                    law_functions_persist_expr(m, &**value, fuel, oracle);
                },
                _ => {},
            }
        },
        Expr::If { condition, then_branch, else_branch } => {
            law_functions_persist_expr(m, &**condition, fuel, oracle);
            let (m1, c) = eval_expr(m, &**condition, fuel, oracle);
            match c {
                Err(_) => {},
                Ok((cv, _)) => {
                    if cv == ValueView::Boolean(true) {
                        law_functions_persist_block(m1.entered(), then_branch, 0, fuel, oracle);
                    } else {
                        match else_branch {
                            Some(stmts) => {
                                law_functions_persist_block(m1.entered(), stmts, 0, fuel, oracle);
                            },
                            None => {},
                        }
                    }
                },
            }
        },
        Expr::FunctionCall { name, arguments } => {
            if m.env.functions.contains_key(name@) {
                match m.env.functions[name@] {
                    Function::Native { func } => {
                        law_functions_persist_args(m, arguments, 0, fuel, oracle);
                    },
                    Function::Interpreted { params, body } => {
                        if arguments.len() == params.len() {
                            law_functions_persist_args(m, arguments, 0, fuel, oracle);
                            let (m1, a) = eval_args(m, arguments, 0, fuel, oracle);
                            match a {
                                Err(_) => {},
                                Ok(values) => {
                                    if fuel != 0 {
                                        law_functions_persist_called(
                                            m1,
                                            params,
                                            body,
                                            values,
                                            (fuel - 1) as nat,
                                            oracle,
                                        );
                                    }
                                },
                            }
                        }
                    },
                }
            }
        },
    }
}

/// Running the body of a function takes nothing out of the function table
/// and changes no entry of it.
pub proof fn law_functions_persist_called<'a, N: NativeFunction>(
    m: InterpreterView<'a, N>,
    params: &'a Vec<Param>,
    body: &'a Statement,
    values: Seq<ValueView>,
    fuel: nat,
    oracle: Oracle,
)
    ensures
        extends(m.env.functions, called(m, params, body, values, fuel, oracle).0.env.functions),
    decreases fuel, body, 2nat,
{
    let m2 = m.with_scopes(m.env.scopes.push(param_scope(params@, values)));
    match &body.stmt {
        Stmt::Scope { statements } => {
            law_functions_persist_block(m2, statements, 0, fuel, oracle);
        },
        _ => {
            law_functions_persist_stmt(m2, body, fuel, oracle);
        },
    }
}

/// Evaluating the arguments of a call takes nothing out of the function
/// table and changes no entry of it.
pub proof fn law_functions_persist_args<'a, N: NativeFunction>(
    m: InterpreterView<'a, N>,
    args: &'a Vec<Expr>,
    from: nat,
    fuel: nat,
    oracle: Oracle,
)
    ensures
        extends(m.env.functions, eval_args(m, args, from, fuel, oracle).0.env.functions),
    decreases fuel, args, args.len() - from,
{
    if from < args.len() {
        law_functions_persist_expr(m, &args[from as int], fuel, oracle);
        let (m1, r) = eval_expr(m, &args[from as int], fuel, oracle);
        if r is Ok {
            law_functions_persist_args(m1, args, from + 1, fuel, oracle);
        }
    }
}

/// Executing a list of statements takes nothing out of the function table
/// and changes no entry of it.
pub proof fn law_functions_persist_block<'a, N: NativeFunction>(
    m: InterpreterView<'a, N>,
    stmts: &'a Vec<Statement>,
    from: nat,
    fuel: nat,
    oracle: Oracle,
)
    ensures
        extends(m.env.functions, exec_block(m, stmts, from, fuel, oracle).0.env.functions),
    decreases fuel, stmts, stmts.len() - from,
{
    if from < stmts.len() {
        law_functions_persist_stmt(m, &stmts[from as int], fuel, oracle);
        let (m1, r) = exec_stmt(m, &stmts[from as int], fuel, oracle);
        match r {
            Err(_) => {},
            Ok(flow) => {
                if flow is Normal {
                    law_functions_persist_block(m1, stmts, from + 1, fuel, oracle);
                }
            },
        }
    }
}

/// Executing a statement takes nothing out of the function table and
/// changes no entry of it: a name, once defined, stays defined as it was
/// for the rest of the run.
pub proof fn law_functions_persist_stmt<'a, N: NativeFunction>(
    m: InterpreterView<'a, N>,
    statement: &'a Statement,
    fuel: nat,
    oracle: Oracle,
)
    ensures
        extends(m.env.functions, exec_stmt(m, statement, fuel, oracle).0.env.functions),
    decreases fuel, statement, 0nat,
{
    match &statement.stmt {
        Stmt::Let { name, ty, value } => {
            law_functions_persist_expr(m, value, fuel, oracle);
        },
        Stmt::Func { name, params, ty, body } => {},
        Stmt::Expr(expr) => {
            law_functions_persist_expr(m, expr, fuel, oracle);
        },
        Stmt::Scope { statements } => {
            law_functions_persist_block(m.entered(), statements, 0, fuel, oracle);
        },
        Stmt::While { condition, body } => {
            law_functions_persist_while(m, condition, &**body, fuel, oracle);
        },
        Stmt::Return { value } => {
            match value {
                Some(expr) => {
                    law_functions_persist_expr(m, expr, fuel, oracle);
                },
                None => {},
            }
        },
        Stmt::Break => {},
        Stmt::Continue => {},
    }
}

/// Running a loop takes nothing out of the function table and changes no
/// entry of it.
pub proof fn law_functions_persist_while<'a, N: NativeFunction>(
    m: InterpreterView<'a, N>,
    condition: &'a Expr,
    body: &'a Statement,
    fuel: nat,
    oracle: Oracle,
)
    ensures
        extends(m.env.functions, exec_while(m, condition, body, fuel, oracle).0.env.functions),
    decreases fuel, body, 0nat,
{
    if fuel != 0 {
        law_functions_persist_expr(m, condition, (fuel - 1) as nat, oracle);
        let (m1, c) = eval_expr(m, condition, (fuel - 1) as nat, oracle);
        match c {
            Err(_) => {},
            Ok((cv, _)) => {
                if cv != ValueView::Boolean(false) {
                    law_functions_persist_stmt(m1, body, (fuel - 1) as nat, oracle);
                    let (m2, r) = exec_stmt(m1, body, (fuel - 1) as nat, oracle);
                    match r {
                        Err(_) => {},
                        Ok(FlowView::Break) => {},
                        Ok(FlowView::Return(_)) => {},
                        Ok(_) => {
                            law_functions_persist_while(
                                m2,
                                condition,
                                body,
                                (fuel - 1) as nat,
                                oracle,
                            );
                        },
                    }
                }
            },
        }
    }
}

/// Whether every native function of a type promises its answer to every
/// call.
pub open spec fn always_promises<N: NativeFunction>() -> bool {
    forall|func: N, args: Seq<ValueView>| (#[trigger] func.promised(args)) is Some
}

/// Where every native function promises its answers, what an expression
/// comes to does not depend on the oracle: no oracle is ever asked.
pub proof fn law_promises_need_no_oracle_expr<'a, N: NativeFunction>(
    m: InterpreterView<'a, N>,
    expr: &'a Expr,
    fuel: nat,
    first: Oracle,
    second: Oracle,
)
    requires
        always_promises::<N>(),
    ensures
        eval_expr(m, expr, fuel, first) == eval_expr(m, expr, fuel, second),
    decreases fuel, expr, 0nat,
{
    match expr {
        Expr::Literal(_) => {},
        Expr::Variable(_) => {},
        Expr::Binary { left, operator, right } => {
            law_promises_need_no_oracle_expr(m, &**left, fuel, first, second);
            let (m1, l) = eval_expr(m, &**left, fuel, first);
            if l is Ok {
                law_promises_need_no_oracle_expr(m1, &**right, fuel, first, second);
            }
        },
        Expr::Unary { operator, operand } => {
            law_promises_need_no_oracle_expr(m, &**operand, fuel, first, second);
        },
        Expr::Assignment { target, value } => {
            match &**target {
                Expr::Variable(_) => {
                    law_promises_need_no_oracle_expr(m, &**value, fuel, first, second);
                },
                _ => {},
            }
        },
        Expr::If { condition, then_branch, else_branch } => {
            law_promises_need_no_oracle_expr(m, &**condition, fuel, first, second);
            let (m1, c) = eval_expr(m, &**condition, fuel, first);
            match c {
                Err(_) => {},
                Ok((cv, _)) => {
                    if cv == ValueView::Boolean(true) {
                        law_promises_need_no_oracle_block(
                            m1.entered(),
                            then_branch,
                            0,
                            fuel,
                            first,
                            second,
                        );
                    } else {
                        match else_branch {
                            Some(stmts) => {
                                law_promises_need_no_oracle_block(
                                    m1.entered(),
                                    stmts,
                                    0,
                                    fuel,
                                    first,
                                    second,
                                );
                            },
                            None => {},
                        }
                    }
                },
            }
        },
        Expr::FunctionCall { name, arguments } => {
            if m.env.functions.contains_key(name@) {
                match m.env.functions[name@] {
                    Function::Native { func } => {
                        law_promises_need_no_oracle_args(m, arguments, 0, fuel, first, second);
                    },
                    Function::Interpreted { params, body } => {
                        if arguments.len() == params.len() {
                            law_promises_need_no_oracle_args(m, arguments, 0, fuel, first, second);
                            let (m1, a) = eval_args(m, arguments, 0, fuel, first);
                            match a {
                                Err(_) => {},
                                Ok(values) => {
                                    if fuel != 0 {
                                        law_promises_need_no_oracle_called(
                                            m1,
                                            params,
                                            body,
                                            values,
                                            (fuel - 1) as nat,
                                            first,
                                            second,
                                        );
                                    }
                                },
                            }
                        }
                    },
                }
            }
        },
    }
}

/// Where every native function promises its answers, what running the body
/// of a function comes to does not depend on the oracle.
pub proof fn law_promises_need_no_oracle_called<'a, N: NativeFunction>(
    m: InterpreterView<'a, N>,
    params: &'a Vec<Param>,
    body: &'a Statement,
    values: Seq<ValueView>,
    fuel: nat,
    first: Oracle,
    second: Oracle,
)
    requires
        always_promises::<N>(),
    ensures
        called(m, params, body, values, fuel, first) == called(
            m,
            params,
            body,
            values,
            fuel,
            second,
        ),
    decreases fuel, body, 2nat,
{
    let m2 = m.with_scopes(m.env.scopes.push(param_scope(params@, values)));
    match &body.stmt {
        Stmt::Scope { statements } => {
            law_promises_need_no_oracle_block(m2, statements, 0, fuel, first, second);
        },
        _ => {
            law_promises_need_no_oracle_stmt(m2, body, fuel, first, second);
        },
    }
}

/// Where every native function promises its answers, what the arguments
/// of a call come to does not depend on the oracle.
pub proof fn law_promises_need_no_oracle_args<'a, N: NativeFunction>(
    m: InterpreterView<'a, N>,
    args: &'a Vec<Expr>,
    from: nat,
    fuel: nat,
    first: Oracle,
    second: Oracle,
)
    requires
        always_promises::<N>(),
    ensures
        eval_args(m, args, from, fuel, first) == eval_args(m, args, from, fuel, second),
    decreases fuel, args, args.len() - from,
{
    if from < args.len() {
        law_promises_need_no_oracle_expr(m, &args[from as int], fuel, first, second);
        let (m1, r) = eval_expr(m, &args[from as int], fuel, first);
        if r is Ok {
            law_promises_need_no_oracle_args(m1, args, from + 1, fuel, first, second);
        }
    }
}

/// Where every native function promises its answers, what a list of
/// statements comes to does not depend on the oracle.
pub proof fn law_promises_need_no_oracle_block<'a, N: NativeFunction>(
    m: InterpreterView<'a, N>,
    stmts: &'a Vec<Statement>,
    from: nat,
    fuel: nat,
    first: Oracle,
    second: Oracle,
)
    requires
        always_promises::<N>(),
    ensures
        exec_block(m, stmts, from, fuel, first) == exec_block(m, stmts, from, fuel, second),
    decreases fuel, stmts, stmts.len() - from,
{
    if from < stmts.len() {
        law_promises_need_no_oracle_stmt(m, &stmts[from as int], fuel, first, second);
        let (m1, r) = exec_stmt(m, &stmts[from as int], fuel, first);
        match r {
            Err(_) => {},
            Ok(flow) => {
                if flow is Normal {
                    law_promises_need_no_oracle_block(m1, stmts, from + 1, fuel, first, second);
                }
            },
        }
    }
}

/// Where every native function promises its answers, what a statement
/// comes to does not depend on the oracle.
pub proof fn law_promises_need_no_oracle_stmt<'a, N: NativeFunction>(
    m: InterpreterView<'a, N>,
    statement: &'a Statement,
    fuel: nat,
    first: Oracle,
    second: Oracle,
)
    requires
        always_promises::<N>(),
    ensures
        exec_stmt(m, statement, fuel, first) == exec_stmt(m, statement, fuel, second),
    decreases fuel, statement, 0nat,
{
    match &statement.stmt {
        Stmt::Let { name, ty, value } => {
            law_promises_need_no_oracle_expr(m, value, fuel, first, second);
        },
        Stmt::Func { name, params, ty, body } => {},
        Stmt::Expr(expr) => {
            law_promises_need_no_oracle_expr(m, expr, fuel, first, second);
        },
        Stmt::Scope { statements } => {
            law_promises_need_no_oracle_block(m.entered(), statements, 0, fuel, first, second);
        },
        Stmt::While { condition, body } => {
            law_promises_need_no_oracle_while(m, condition, &**body, fuel, first, second);
        },
        Stmt::Return { value } => {
            match value {
                Some(expr) => {
                    law_promises_need_no_oracle_expr(m, expr, fuel, first, second);
                },
                None => {},
            }
        },
        Stmt::Break => {},
        Stmt::Continue => {},
    }
}

/// Where every native function promises its answers, what a loop comes to
/// does not depend on the oracle.
pub proof fn law_promises_need_no_oracle_while<'a, N: NativeFunction>(
    m: InterpreterView<'a, N>,
    condition: &'a Expr,
    body: &'a Statement,
    fuel: nat,
    first: Oracle,
    second: Oracle,
)
    requires
        always_promises::<N>(),
    ensures
        exec_while(m, condition, body, fuel, first) == exec_while(m, condition, body, fuel, second),
    decreases fuel, body, 0nat,
{
    if fuel != 0 {
        law_promises_need_no_oracle_expr(m, condition, (fuel - 1) as nat, first, second);
        let (m1, c) = eval_expr(m, condition, (fuel - 1) as nat, first);
        match c {
            Err(_) => {},
            Ok((cv, _)) => {
                if cv != ValueView::Boolean(false) {
                    law_promises_need_no_oracle_stmt(m1, body, (fuel - 1) as nat, first, second);
                    let (m2, r) = exec_stmt(m1, body, (fuel - 1) as nat, first);
                    match r {
                        Err(_) => {},
                        Ok(FlowView::Break) => {},
                        Ok(FlowView::Return(_)) => {},
                        Ok(_) => {
                            law_promises_need_no_oracle_while(
                                m2,
                                condition,
                                body,
                                (fuel - 1) as nat,
                                first,
                                second,
                            );
                        },
                    }
                }
            },
        }
    }
}

/// Where every native function promises its answers, what a run comes to
/// does not depend on the oracle.
pub proof fn law_promises_need_no_oracle_run<'a, N: NativeFunction>(
    m: InterpreterView<'a, N>,
    statements: &'a [Statement],
    from: nat,
    first: Oracle,
    second: Oracle,
)
    requires
        always_promises::<N>(),
    ensures
        run(m, statements, from, first) == run(m, statements, from, second),
    decreases statements@.len() - from,
{
    if from < statements@.len() {
        law_promises_need_no_oracle_stmt(m, &statements[from as int], m.fuel as nat, first, second);
        let (m1, r) = exec_stmt(m, &statements[from as int], m.fuel as nat, first);
        if r is Ok {
            law_promises_need_no_oracle_run(m1, statements, from + 1, first, second);
        }
    }
}

/// What a binary operator yields has the kind of its operands, except that
/// comparisons and logical operators yield a truth value; and where it
/// yields anything, the operands were of one kind.
pub proof fn law_result_kind(operator: Operator, a: ValueView, b: ValueView)
    ensures
        spec_binary(operator, a, b) matches Ok(r) ==> a.kind() == b.kind() && r.kind() == (
        if operator.is_comparison() || operator.is_logical() {
            ValueKind::Boolean
        } else {
            a.kind()
        }),
{
}

/// A statement that leaves a signal ends the list of statements it stands
/// in: the statements after it are not executed, and the signal is the
/// list's.
pub proof fn law_signal_ends_block<'a, N: NativeFunction>(
    m: InterpreterView<'a, N>,
    stmts: &'a Vec<Statement>,
    from: nat,
    fuel: nat,
    oracle: Oracle,
)
    requires
        from < stmts.len(),
        exec_stmt(m, &stmts[from as int], fuel, oracle).1 matches Ok(flow) && !(flow is Normal),
    ensures
        exec_block(m, stmts, from, fuel, oracle) == exec_stmt(m, &stmts[from as int], fuel, oracle),
{
}

/// A loop takes in `Break` and `Continue`: the only signal that can leave
/// a loop is `Return`.
pub proof fn law_loop_takes_break_and_continue<'a, N: NativeFunction>(
    m: InterpreterView<'a, N>,
    condition: &'a Expr,
    body: &'a Statement,
    fuel: nat,
    oracle: Oracle,
)
    ensures
        exec_while(m, condition, body, fuel, oracle).1 matches Ok(flow) ==> flow is Normal || flow
            is Return,
    decreases fuel,
{
    if fuel != 0 {
        let (m1, c) = eval_expr(m, condition, (fuel - 1) as nat, oracle);
        match c {
            Err(_) => {},
            Ok((cv, _)) => {
                if cv != ValueView::Boolean(false) {
                    let (m2, r) = exec_stmt(m1, body, (fuel - 1) as nat, oracle);
                    match r {
                        Err(_) => {},
                        Ok(FlowView::Break) => {},
                        Ok(FlowView::Return(_)) => {},
                        Ok(_) => {
                            law_loop_takes_break_and_continue(
                                m2,
                                condition,
                                body,
                                (fuel - 1) as nat,
                                oracle,
                            );
                        },
                    }
                }
            },
        }
    }
}

/// A call takes in every signal of the function's body: `Return` becomes
/// the call's value, and no signal leaves a call.
pub proof fn law_call_takes_signals<'a, N: NativeFunction>(
    m: InterpreterView<'a, N>,
    expr: &'a Expr,
    fuel: nat,
    oracle: Oracle,
)
    requires
        expr is FunctionCall,
    ensures
        eval_expr(m, expr, fuel, oracle).1 matches Ok((_, flow)) ==> flow is Normal,
{
    match expr {
        Expr::FunctionCall { name, arguments } => {
            if m.env.functions.contains_key(name@) {
                match m.env.functions[name@] {
                    Function::Interpreted { params, body } => {
                        let (m1, a) = eval_args(m, arguments, 0, fuel, oracle);
                        match a {
                            Ok(values) => {
                                if fuel != 0 {
                                    law_body_takes_signals(
                                        m1,
                                        params,
                                        body,
                                        values,
                                        (fuel - 1) as nat,
                                        oracle,
                                    );
                                }
                            },
                            Err(_) => {},
                        }
                    },
                    Function::Native { func } => {},
                }
            }
        },
        _ => {},
    }
}

/// The body of a function lets no signal out: `Return` becomes the value
/// of the call.
pub proof fn law_body_takes_signals<'a, N: NativeFunction>(
    m: InterpreterView<'a, N>,
    params: &'a Vec<Param>,
    body: &'a Statement,
    values: Seq<ValueView>,
    fuel: nat,
    oracle: Oracle,
)
    ensures
        called(m, params, body, values, fuel, oracle).1 matches Ok((_, flow)) ==> flow is Normal,
{
}

/// Assignment keeps the number of scopes.
proof fn lemma_assign_keeps_depth(
    scopes: Seq<crate::environment::ScopeView>,
    name: Seq<char>,
    value: ValueView,
)
    ensures
        crate::environment::assign_variable(scopes, name, value) matches Some(after)
            ==> after.len() == scopes.len(),
    decreases scopes.len(),
{
    if scopes.len() > 0 && !scopes.last().contains_key(name) {
        lemma_assign_keeps_depth(scopes.drop_last(), name, value);
    }
}

/// An expression that yields a value leaves as many scopes open as it
/// found: every scope that was entered on the way has been left.
pub proof fn law_scopes_balance_expr<'a, N: NativeFunction>(
    m: InterpreterView<'a, N>,
    expr: &'a Expr,
    fuel: nat,
    oracle: Oracle,
)
    ensures
        eval_expr(m, expr, fuel, oracle).1 is Ok ==> 
            eval_expr(m, expr, fuel, oracle).0.env.scopes.len()
            == m.env.scopes.len(),
    decreases fuel, expr, 0nat,
{
    match expr {
        Expr::Literal(_) => {},
        Expr::Variable(_) => {},
        Expr::Binary { left, operator, right } => {
            law_scopes_balance_expr(m, &**left, fuel, oracle);
            let (m1, l) = eval_expr(m, &**left, fuel, oracle);
            if l is Ok {
                law_scopes_balance_expr(m1, &**right, fuel, oracle);
            }
        },
        Expr::Unary { operator, operand } => {
            law_scopes_balance_expr(m, &**operand, fuel, oracle);
        },
        Expr::Assignment { target, value } => {
            match &**target {
                Expr::Variable(name) => {
                    law_scopes_balance_expr(m, &**value, fuel, oracle);
                    let (m1, r) = eval_expr(m, &**value, fuel, oracle);
                    match r {
                        Ok((v, _)) => {
                            lemma_assign_keeps_depth(m1.env.scopes, name@, v);
                        },
                        Err(_) => {},
                    }
                },
                _ => {},
            }
        },
        Expr::If { condition, then_branch, else_branch } => {
            law_scopes_balance_expr(m, &**condition, fuel, oracle);
            let (m1, c) = eval_expr(m, &**condition, fuel, oracle);
            match c {
                Err(_) => {},
                Ok((cv, _)) => {
                    if cv == ValueView::Boolean(true) {
                        law_scopes_balance_block(m1.entered(), then_branch, 0, fuel, oracle);
                    } else {
                        match else_branch {
                            Some(stmts) => {
                                law_scopes_balance_block(m1.entered(), stmts, 0, fuel, oracle);
                            },
                            None => {},
                        }
                    }
                },
            }
        },
        Expr::FunctionCall { name, arguments } => {
            if m.env.functions.contains_key(name@) {
                match m.env.functions[name@] {
                    Function::Native { func } => {
                        law_scopes_balance_args(m, arguments, 0, fuel, oracle);
                    },
                    Function::Interpreted { params, body } => {
                        if arguments.len() == params.len() {
                            law_scopes_balance_args(m, arguments, 0, fuel, oracle);
                            let (m1, a) = eval_args(m, arguments, 0, fuel, oracle);
                            match a {
                                Err(_) => {},
                                Ok(values) => {
                                    if fuel != 0 {
                                        law_scopes_balance_called(
                                            m1,
                                            params,
                                            body,
                                            values,
                                            (fuel - 1) as nat,
                                            oracle,
                                        );
                                    }
                                },
                            }
                        }
                    },
                }
            }
        },
    }
}

/// The body of a function that does not abort leaves as many scopes open as
/// the call found.
pub proof fn law_scopes_balance_called<'a, N: NativeFunction>(
    m: InterpreterView<'a, N>,
    params: &'a Vec<Param>,
    body: &'a Statement,
    values: Seq<ValueView>,
    fuel: nat,
    oracle: Oracle,
)
    ensures
        called(m, params, body, values, fuel, oracle).1 is Ok ==> called(
            m,
            params,
            body,
            values,
            fuel,
            oracle,
        ).0.env.scopes.len() == m.env.scopes.len(),
    decreases fuel, body, 2nat,
{
    let m2 = m.with_scopes(m.env.scopes.push(param_scope(params@, values)));
    match &body.stmt {
        Stmt::Scope { statements } => {
            law_scopes_balance_block(m2, statements, 0, fuel, oracle);
        },
        _ => {
            law_scopes_balance_stmt(m2, body, fuel, oracle);
        },
    }
}

/// Arguments that all yield values leave as many scopes open as they found.
pub proof fn law_scopes_balance_args<'a, N: NativeFunction>(
    m: InterpreterView<'a, N>,
    args: &'a Vec<Expr>,
    from: nat,
    fuel: nat,
    oracle: Oracle,
)
    ensures
        eval_args(m, args, from, fuel, oracle).1 is Ok ==> 
            eval_args(m, args, from, fuel, oracle).0.env.scopes.len()
            == m.env.scopes.len(),
    decreases fuel, args, args.len() - from,
{
    if from < args.len() {
        law_scopes_balance_expr(m, &args[from as int], fuel, oracle);
        let (m1, r) = eval_expr(m, &args[from as int], fuel, oracle);
        if r is Ok {
            law_scopes_balance_args(m1, args, from + 1, fuel, oracle);
        }
    }
}

/// A list of statements that does not abort leaves as many scopes open as
/// it found.
pub proof fn law_scopes_balance_block<'a, N: NativeFunction>(
    m: InterpreterView<'a, N>,
    stmts: &'a Vec<Statement>,
    from: nat,
    fuel: nat,
    oracle: Oracle,
)
    ensures
        exec_block(m, stmts, from, fuel, oracle).1 is Ok ==> exec_block(
            m,
            stmts,
            from,
            fuel,
            oracle,
        ).0.env.scopes.len() == m.env.scopes.len(),
    decreases fuel, stmts, stmts.len() - from,
{
    if from < stmts.len() {
        law_scopes_balance_stmt(m, &stmts[from as int], fuel, oracle);
        let (m1, r) = exec_stmt(m, &stmts[from as int], fuel, oracle);
        match r {
            Err(_) => {},
            Ok(flow) => {
                if flow is Normal {
                    law_scopes_balance_block(m1, stmts, from + 1, fuel, oracle);
                }
            },
        }
    }
}

/// A statement that does not abort leaves as many scopes open as it found:
/// scopes are entered and left in strict nesting, also when a signal cuts
/// a block short.
pub proof fn law_scopes_balance_stmt<'a, N: NativeFunction>(
    m: InterpreterView<'a, N>,
    statement: &'a Statement,
    fuel: nat,
    oracle: Oracle,
)
    ensures
        exec_stmt(m, statement, fuel, oracle).1 is Ok ==> 
            exec_stmt(m, statement, fuel, oracle).0.env.scopes.len()
            == m.env.scopes.len(),
    decreases fuel, statement, 0nat,
{
    match &statement.stmt {
        Stmt::Let { name, ty, value } => {
            law_scopes_balance_expr(m, value, fuel, oracle);
        },
        Stmt::Func { name, params, ty, body } => {},
        Stmt::Expr(expr) => {
            law_scopes_balance_expr(m, expr, fuel, oracle);
        },
        Stmt::Scope { statements } => {
            law_scopes_balance_block(m.entered(), statements, 0, fuel, oracle);
        },
        Stmt::While { condition, body } => {
            law_scopes_balance_while(m, condition, &**body, fuel, oracle);
        },
        Stmt::Return { value } => {
            match value {
                Some(expr) => {
                    law_scopes_balance_expr(m, expr, fuel, oracle);
                },
                None => {},
            }
        },
        Stmt::Break => {},
        Stmt::Continue => {},
    }
}

/// A loop that does not abort leaves as many scopes open as it found.
pub proof fn law_scopes_balance_while<'a, N: NativeFunction>(
    m: InterpreterView<'a, N>,
    condition: &'a Expr,
    body: &'a Statement,
    fuel: nat,
    oracle: Oracle,
)
    ensures
        exec_while(m, condition, body, fuel, oracle).1 is Ok ==> exec_while(
            m,
            condition,
            body,
            fuel,
            oracle,
        ).0.env.scopes.len() == m.env.scopes.len(),
    decreases fuel, body, 0nat,
{
    if fuel != 0 {
        law_scopes_balance_expr(m, condition, (fuel - 1) as nat, oracle);
        let (m1, c) = eval_expr(m, condition, (fuel - 1) as nat, oracle);
        match c {
            Err(_) => {},
            Ok((cv, _)) => {
                if cv != ValueView::Boolean(false) {
                    law_scopes_balance_stmt(m1, body, (fuel - 1) as nat, oracle);
                    let (m2, r) = exec_stmt(m1, body, (fuel - 1) as nat, oracle);
                    match r {
                        Err(_) => {},
                        Ok(FlowView::Break) => {},
                        Ok(FlowView::Return(_)) => {},
                        Ok(_) => {
                            law_scopes_balance_while(
                                m2,
                                condition,
                                body,
                                (fuel - 1) as nat,
                                oracle,
                            );
                        },
                    }
                }
            },
        }
    }
}

} // verus!
