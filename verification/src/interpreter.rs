//! The tree-walking evaluator.
//!
//! Executing a statement yields a control-flow signal; evaluating an
//! expression yields a value and a signal. Signals are ordinary results that
//! travel up the chain of calls until the construct that understands them
//! takes them in: a loop takes `Break` and `Continue`, a function call takes
//! `Return`.
//!
//! What a program means is written down once, as the functions `eval_expr`,
//! `exec_stmt` and their companions over mathematical states; the
//! interpreter's methods are proved to compute exactly that.
//!
//! A native function may promise what it hands back, as `print` and `exit`
//! do; then the meaning of a call of it is fixed. Of a native function that
//! promises nothing, nothing is known beforehand. The meaning of a program
//! is therefore given relative to an oracle that has the answer to each such
//! call, by its number. The interpreter records the answers as they come,
//! and what it computes is the meaning of the program under every oracle
//! that has the recorded answers.

use crate::ast::{Expr, Param, Statement, Stmt};
use crate::environment::{
    assign_variable,
    bind_variable,
    define,
    leave_scope,
    lookup_variable,
    native_outcome,
    Environment,
    EnvironmentView,
    Function,
    NativeAnswer,
    NativeEffect,
    NativeEffectView,
    NativeFunction,
    ScopeView,
};
use crate::error::{Abort, AbortView, LocatedError, RuntimeError, RuntimeErrorView};
use crate::native_functions::Intrinsic;
use crate::value::{
    spec_binary,
    spec_from_literal,
    spec_unary,
    views,
    InterpretValue,
    Outcome,
    ValueView,
};
use vstd::prelude::*;

verus! {

/// The signal that a statement or an expression leaves behind.
#[derive(Debug)]
pub enum ControlFlow {
    /// No signal: execution goes on with what follows.
    Normal,
    /// Leave the function that is being called, with this value.
    Return(InterpretValue),
    /// Leave the innermost loop.
    Break,
    /// Go on with the next round of the innermost loop.
    Continue,
}

/// The mathematical value of a [`ControlFlow`].
pub enum FlowView {
    Normal,
    Return(ValueView),
    Break,
    Continue,
}

impl View for ControlFlow {
    type V = FlowView;

    open spec fn view(&self) -> FlowView {
        match self {
            ControlFlow::Normal => FlowView::Normal,
            ControlFlow::Return(v) => FlowView::Return(v@),
            ControlFlow::Break => FlowView::Break,
            ControlFlow::Continue => FlowView::Continue,
        }
    }
}

/// The mathematical value of an [`Interpreter`]: its environment, the lines
/// written so far, the budget that bounds each top-level statement, the
/// exit code once the program has asked to leave, and what the native
/// functions that promise nothing have handed back so far, call by call.
#[verifier::reject_recursive_types(N)]
pub struct InterpreterView<'a, N> {
    pub env: EnvironmentView<'a, N>,
    pub output: Seq<Seq<char>>,
    pub fuel: u64,
    pub exit_code: Option<i32>,
    pub answers: Seq<NativeAnswer>,
}

/// What native functions that promise nothing will hand back: the answer
/// to each such call of a run, by its number.
pub type Oracle = spec_fn(int) -> NativeAnswer;

/// What evaluating an expression comes to.
pub type Evaluated = Result<(ValueView, FlowView), AbortView>;

/// What executing a statement comes to.
pub type Executed = Result<FlowView, AbortView>;

impl<'a, N> InterpreterView<'a, N> {
    /// The same state with other scopes.
    pub open spec fn with_scopes(self, scopes: Seq<ScopeView>) -> Self {
        InterpreterView {
            env: EnvironmentView { scopes, functions: self.env.functions },
            output: self.output,
            fuel: self.fuel,
            exit_code: self.exit_code,
            answers: self.answers,
        }
    }

    /// The same state with another function table.
    pub open spec fn with_functions(self, functions: Map<Seq<char>, Function<'a, N>>) -> Self {
        InterpreterView {
            env: EnvironmentView { scopes: self.env.scopes, functions },
            output: self.output,
            fuel: self.fuel,
            exit_code: self.exit_code,
            answers: self.answers,
        }
    }

    /// The same state inside a new, empty scope.
    pub open spec fn entered(self) -> Self {
        self.with_scopes(self.env.scopes.push(Map::empty()))
    }

    /// The same state outside the innermost scope.
    pub open spec fn left(self) -> Self {
        self.with_scopes(leave_scope(self.env.scopes))
    }

    /// The same state after one more line was written.
    pub open spec fn wrote(self, line: Seq<char>) -> Self {
        InterpreterView {
            env: self.env,
            output: self.output.push(line),
            fuel: self.fuel,
            exit_code: self.exit_code,
            answers: self.answers,
        }
    }

    /// The same state after a native function that promised nothing handed
    /// back an answer.
    pub open spec fn heard(self, answer: NativeAnswer) -> Self {
        InterpreterView {
            env: self.env,
            output: self.output,
            fuel: self.fuel,
            exit_code: self.exit_code,
            answers: self.answers.push(answer),
        }
    }

    /// The same state after the program asked to leave.
    pub open spec fn exited(self, code: i32) -> Self {
        InterpreterView {
            env: self.env,
            output: self.output,
            fuel: self.fuel,
            exit_code: Some(code),
            answers: self.answers,
        }
    }
}

/// An operator's result as the result of an expression: a value comes
/// without a signal, a failure aborts.
pub open spec fn lift(o: Outcome) -> Evaluated {
    match o {
        Ok(v) => Ok((v, FlowView::Normal)),
        Err(e) => Err(AbortView::Failure(e)),
    }
}

/// A failure as the result of an expression.
pub open spec fn fail(e: RuntimeErrorView) -> Evaluated {
    Err(AbortView::Failure(e))
}

/// The scope of a call: each parameter bound to the argument at its place,
/// a later parameter of the same name over an earlier one.
pub open spec fn param_scope(params: Seq<Param>, values: Seq<ValueView>) -> ScopeView
    decreases params.len(),
{
    if params.len() == 0 || values.len() == 0 {
        Map::empty()
    } else {
        param_scope(params.drop_last(), values.drop_last()).insert(
            params.last().name@,
            values.last(),
        )
    }
}

/// What a native function hands back when it is called in the given state:
/// what it promised, or else what the oracle has for the next call.
pub open spec fn native_answer<'a, N: NativeFunction>(
    m: InterpreterView<'a, N>,
    func: N,
    args: Seq<ValueView>,
    oracle: Oracle,
) -> NativeAnswer {
    match func.promised(args) {
        Some(answer) => answer,
        None => oracle(m.answers.len() as int),
    }
}

/// What a call of a native function comes to. An answer that was not
/// promised is recorded. Then a value is the call's value, a line is
/// written and the call yields nothing, an exit code aborts the run, and a
/// failure aborts it too.
pub open spec fn call_native<'a, N: NativeFunction>(
    m: InterpreterView<'a, N>,
    func: N,
    args: Seq<ValueView>,
    oracle: Oracle,
) -> (InterpreterView<'a, N>, Evaluated) {
    let answer = native_answer(m, func, args, oracle);
    let m1 = if func.promised(args) is None {
        m.heard(answer)
    } else {
        m
    };
    match answer {
        Ok(NativeEffectView::Value(v)) => (m1, Ok((v, FlowView::Normal))),
        Ok(NativeEffectView::Line(line)) => (
            m1.wrote(line),
            Ok((ValueView::Void, FlowView::Normal)),
        ),
        Ok(NativeEffectView::Exit(code)) => (m1, Err(AbortView::Exit(code))),
        Err(e) => (m1, fail(e)),
    }
}

/// Whether an oracle has, for every call from the one numbered `from` on,
/// the answer that was recorded for it.
pub open spec fn foretells(oracle: Oracle, answers: Seq<NativeAnswer>, from: int) -> bool {
    forall|i: int| from <= i < answers.len() ==> #[trigger] oracle(i) == answers[i]
}

/// The oracle that has the recorded answers and, for every call beyond
/// them, a failure.
pub open spec fn told(answers: Seq<NativeAnswer>) -> Oracle {
    |i: int|
        if 0 <= i < answers.len() {
            answers[i]
        } else {
            Err(RuntimeErrorView::NoScope)
        }
}

/// An oracle that has the answers recorded up to a later state has those
/// recorded up to an earlier one, and those recorded in between.
pub proof fn lemma_foretells_parts<'a, N>(
    oracle: Oracle,
    first: InterpreterView<'a, N>,
    middle: InterpreterView<'a, N>,
    last: InterpreterView<'a, N>,
)
    requires
        heard_more(first, middle),
        heard_more(middle, last),
        foretells(oracle, last.answers, first.answers.len() as int),
    ensures
        heard_more(first, last),
        foretells(oracle, middle.answers, first.answers.len() as int),
        foretells(oracle, last.answers, middle.answers.len() as int),
{
    assert forall|i: int| first.answers.len() <= i < middle.answers.len() implies #[trigger] oracle(
        i,
    ) == middle.answers[i] by {
        assert(last.answers[i] == middle.answers[i]);
    }
}

/// What was recorded stays recorded from state to state.
pub proof fn lemma_heard_more_chain<'a, N>(
    first: InterpreterView<'a, N>,
    middle: InterpreterView<'a, N>,
    last: InterpreterView<'a, N>,
)
    requires
        heard_more(first, middle),
        heard_more(middle, last),
    ensures
        heard_more(first, last),
{
    assert forall|i: int| 0 <= i < first.answers.len() implies #[trigger] last.answers[i]
        == first.answers[i] by {
        assert(middle.answers[i] == first.answers[i]);
    }
}

/// Whether a later state has recorded every answer that an earlier state
/// had recorded, in the same place.
pub open spec fn heard_more<'a, N>(
    before: InterpreterView<'a, N>,
    after: InterpreterView<'a, N>,
) -> bool {
    &&& before.answers.len() <= after.answers.len()
    &&& forall|i: int|
        0 <= i < before.answers.len() ==> #[trigger] after.answers[i] == before.answers[i]
}

/// The end of a call of an interpreted function: its scope is left, a
/// pending `Return` gives the call's value, any other signal is dropped
/// and the call yields nothing. An abort leaves everything as it is.
pub open spec fn leave_call<'a, N: NativeFunction>(m: InterpreterView<'a, N>, r: Executed) -> (
    InterpreterView<'a, N>,
    Evaluated,
) {
    match r {
        Err(a) => (m, Err(a)),
        Ok(flow) => (
            m.left(),
            Ok(
                (
                    match flow {
                        FlowView::Return(v) => v,
                        _ => ValueView::Void,
                    },
                    FlowView::Normal,
                ),
            ),
        ),
    }
}

/// The end of a branch of an `if`: its scope is left, and the branch's
/// signal goes on beside no value.
pub open spec fn leave_branch<'a, N: NativeFunction>(m: InterpreterView<'a, N>, r: Executed) -> (
    InterpreterView<'a, N>,
    Evaluated,
) {
    match r {
        Err(a) => (m, Err(a)),
        Ok(flow) => (m.left(), Ok((ValueView::Void, flow))),
    }
}

/// The end of a block statement: its scope is left.
pub open spec fn leave_block<'a, N: NativeFunction>(m: InterpreterView<'a, N>, r: Executed) -> (
    InterpreterView<'a, N>,
    Executed,
) {
    match r {
        Err(a) => (m, Err(a)),
        Ok(flow) => (m.left(), Ok(flow)),
    }
}

/// What evaluating an expression comes to, and the state it leaves.
///
/// `fuel` bounds how long a chain of nested calls and loop rounds may grow:
/// each call of an interpreted function and each round of a loop takes one
/// unit for what happens inside it.
pub open spec fn eval_expr<'a, N: NativeFunction>(
    m: InterpreterView<'a, N>,
    expr: &'a Expr,
    fuel: nat,
    oracle: Oracle,
) -> (InterpreterView<'a, N>, Evaluated)
    decreases fuel, expr, 0nat,
{
    match expr {
        Expr::Literal(lit) => (m, lift(spec_from_literal(*lit))),
        Expr::Variable(name) => match lookup_variable(m.env.scopes, name@) {
            Some(v) => (m, Ok((v, FlowView::Normal))),
            None => (m, fail(RuntimeErrorView::UndefinedVariable { name: name@ })),
        },
        Expr::Binary { left, operator, right } => {
            let (m1, l) = eval_expr(m, &**left, fuel, oracle);
            match l {
                Err(a) => (m1, Err(a)),
                Ok((lv, _)) => {
                    let (m2, r) = eval_expr(m1, &**right, fuel, oracle);
                    match r {
                        Err(a) => (m2, Err(a)),
                        Ok((rv, _)) => (m2, lift(spec_binary(*operator, lv, rv))),
                    }
                },
            }
        },
        Expr::Unary { operator, operand } => {
            let (m1, o) = eval_expr(m, &**operand, fuel, oracle);
            match o {
                Err(a) => (m1, Err(a)),
                Ok((v, _)) => (m1, lift(spec_unary(*operator, v))),
            }
        },
        Expr::Assignment { target, value } => match &**target {
            Expr::Variable(name) => {
                let (m1, r) = eval_expr(m, &**value, fuel, oracle);
                match r {
                    Err(a) => (m1, Err(a)),
                    Ok((v, _)) => match assign_variable(m1.env.scopes, name@, v) {
                        Some(scopes) => (m1.with_scopes(scopes), Ok((v, FlowView::Normal))),
                        None => (m1, fail(RuntimeErrorView::UndefinedVariable { name: name@ })),
                    },
                }
            },
            _ => (m, fail(RuntimeErrorView::InvalidAssignmentTarget)),
        },
        Expr::If { condition, then_branch, else_branch } => {
            let (m1, c) = eval_expr(m, &**condition, fuel, oracle);
            match c {
                Err(a) => (m1, Err(a)),
                Ok((cv, _)) => if cv == ValueView::Boolean(true) {
                    let (m2, r) = exec_block(m1.entered(), then_branch, 0, fuel, oracle);
                    leave_branch(m2, r)
                } else {
                    match else_branch {
                        Some(stmts) => {
                            let (m2, r) = exec_block(m1.entered(), stmts, 0, fuel, oracle);
                            leave_branch(m2, r)
                        },
                        None => (m1, Ok((ValueView::Void, FlowView::Normal))),
                    }
                },
            }
        },
        Expr::FunctionCall { name, arguments } => {
            if !m.env.functions.contains_key(name@) {
                (m, fail(RuntimeErrorView::UndefinedFunction { name: name@ }))
            } else {
                match m.env.functions[name@] {
                    Function::Native { func } => {
                        let (m1, a) = eval_args(m, arguments, 0, fuel, oracle);
                        match a {
                            Err(x) => (m1, Err(x)),
                            Ok(values) => call_native(m1, func, values, oracle),
                        }
                    },
                    Function::Interpreted { params, body } => {
                        if arguments.len() != params.len() {
                            (
                                m,
                                fail(
                                    RuntimeErrorView::ArityMismatch {
                                        name: name@,
                                        expected: params.len(),
                                        found: arguments.len(),
                                    },
                                ),
                            )
                        } else {
                            let (m1, a) = eval_args(m, arguments, 0, fuel, oracle);
                            match a {
                                Err(x) => (m1, Err(x)),
                                Ok(values) => if fuel == 0 {
                                    (m1, fail(RuntimeErrorView::FuelExhausted))
                                } else {
                                    called(m1, params, body, values, (fuel - 1) as nat, oracle)
                                },
                            }
                        }
                    },
                }
            }
        },
    }
}

/// What running the body of an interpreted function on the values of its
/// arguments comes to: the scope of the call is opened with the parameters
/// bound, the body is executed in it, and the call ends. The statements of
/// a body that is a block run in the scope of the call itself.
pub open spec fn called<'a, N: NativeFunction>(
    m: InterpreterView<'a, N>,
    params: &'a Vec<Param>,
    body: &'a Statement,
    values: Seq<ValueView>,
    fuel: nat,
    oracle: Oracle,
) -> (InterpreterView<'a, N>, Evaluated)
    decreases fuel, body, 2nat,
{
    let m2 = m.with_scopes(m.env.scopes.push(param_scope(params@, values)));
    let (m3, r) = match &body.stmt {
        Stmt::Scope { statements } => exec_block(m2, statements, 0, fuel, oracle),
        _ => exec_stmt(m2, body, fuel, oracle),
    };
    leave_call(m3, r)
}

/// The values of the arguments from the one at `from` on, evaluated from
/// left to right; the signals they leave are dropped.
pub open spec fn eval_args<'a, N: NativeFunction>(
    m: InterpreterView<'a, N>,
    args: &'a Vec<Expr>,
    from: nat,
    fuel: nat,
    oracle: Oracle,
) -> (InterpreterView<'a, N>, Result<Seq<ValueView>, AbortView>)
    decreases fuel, args, args.len() - from,
{
    if from >= args.len() {
        (m, Ok(Seq::empty()))
    } else {
        let (m1, r) = eval_expr(m, &args[from as int], fuel, oracle);
        match r {
            Err(a) => (m1, Err(a)),
            Ok((v, _)) => {
                let (m2, rest) = eval_args(m1, args, from + 1, fuel, oracle);
                match rest {
                    Err(a) => (m2, Err(a)),
                    Ok(values) => (m2, Ok(seq![v] + values)),
                }
            },
        }
    }
}

/// The statements from the one at `from` on, executed in order up to the
/// first that leaves a signal; that signal is the block's.
pub open spec fn exec_block<'a, N: NativeFunction>(
    m: InterpreterView<'a, N>,
    stmts: &'a Vec<Statement>,
    from: nat,
    fuel: nat,
    oracle: Oracle,
) -> (InterpreterView<'a, N>, Executed)
    decreases fuel, stmts, stmts.len() - from,
{
    if from >= stmts.len() {
        (m, Ok(FlowView::Normal))
    } else {
        let (m1, r) = exec_stmt(m, &stmts[from as int], fuel, oracle);
        match r {
            Err(a) => (m1, Err(a)),
            Ok(flow) => if flow is Normal {
                exec_block(m1, stmts, from + 1, fuel, oracle)
            } else {
                (m1, Ok(flow))
            },
        }
    }
}

/// What executing a statement comes to, and the state it leaves.
pub open spec fn exec_stmt<'a, N: NativeFunction>(
    m: InterpreterView<'a, N>,
    statement: &'a Statement,
    fuel: nat,
    oracle: Oracle,
) -> (InterpreterView<'a, N>, Executed)
    decreases fuel, statement, 0nat,
{
    match &statement.stmt {
        Stmt::Let { name, ty, value } => {
            let (m1, r) = eval_expr(m, value, fuel, oracle);
            match r {
                Err(a) => (m1, Err(a)),
                Ok((v, _)) => match bind_variable(m1.env.scopes, name@, v) {
                    Some(scopes) => (m1.with_scopes(scopes), Ok(FlowView::Normal)),
                    None => (m1, Err(AbortView::Failure(RuntimeErrorView::NoScope))),
                },
            }
        },
        Stmt::Func { name, params, ty, body } => {
            let (functions, r) = define(
                m.env.functions,
                name@,
                Function::Interpreted { params, body: &**body },
            );
            match r {
                Ok(_) => (m.with_functions(functions), Ok(FlowView::Normal)),
                Err(e) => (m, Err(AbortView::Failure(e))),
            }
        },
        Stmt::Expr(expr) => {
            let (m1, r) = eval_expr(m, expr, fuel, oracle);
            match r {
                Err(a) => (m1, Err(a)),
                Ok((_, flow)) => (m1, Ok(flow)),
            }
        },
        Stmt::Scope { statements } => {
            let (m1, r) = exec_block(m.entered(), statements, 0, fuel, oracle);
            leave_block(m1, r)
        },
        Stmt::While { condition, body } => exec_while(m, condition, &**body, fuel, oracle),
        Stmt::Return { value } => match value {
            Some(expr) => {
                let (m1, r) = eval_expr(m, expr, fuel, oracle);
                match r {
                    Err(a) => (m1, Err(a)),
                    Ok((v, _)) => (m1, Ok(FlowView::Return(v))),
                }
            },
            None => (m, Ok(FlowView::Return(ValueView::Void))),
        },
        Stmt::Break => (m, Ok(FlowView::Break)),
        Stmt::Continue => (m, Ok(FlowView::Continue)),
    }
}

/// What a loop comes to. Before every round the condition is evaluated
/// anew; only the truth value `false` ends the loop. `Break` ends it at
/// once, `Continue` and no signal lead to the next round, `Return` ends it
/// and goes on to the caller.
pub open spec fn exec_while<'a, N: NativeFunction>(
    m: InterpreterView<'a, N>,
    condition: &'a Expr,
    body: &'a Statement,
    fuel: nat,
    oracle: Oracle,
) -> (InterpreterView<'a, N>, Executed)
    decreases fuel, body, 0nat,
{
    if fuel == 0 {
        (m, Err(AbortView::Failure(RuntimeErrorView::FuelExhausted)))
    } else {
        let (m1, c) = eval_expr(m, condition, (fuel - 1) as nat, oracle);
        match c {
            Err(a) => (m1, Err(a)),
            Ok((cv, _)) => if cv == ValueView::Boolean(false) {
                (m1, Ok(FlowView::Normal))
            } else {
                let (m2, r) = exec_stmt(m1, body, (fuel - 1) as nat, oracle);
                match r {
                    Err(a) => (m2, Err(a)),
                    Ok(FlowView::Break) => (m2, Ok(FlowView::Normal)),
                    Ok(FlowView::Return(v)) => (m2, Ok(FlowView::Return(v))),
                    Ok(_) => exec_while(m2, condition, body, (fuel - 1) as nat, oracle),
                }
            },
        }
    }
}

/// A failure together with the place of the top-level statement that failed.
pub struct LocatedErrorView {
    pub error: RuntimeErrorView,
    pub location: crate::ast::Location,
}

impl View for LocatedError {
    type V = LocatedErrorView;

    open spec fn view(&self) -> LocatedErrorView {
        LocatedErrorView { error: self.error@, location: self.location }
    }
}

/// What running the top-level statements from the one at `from` on comes
/// to. Each statement is executed with the whole budget. A signal that
/// reaches the top level is dropped; the first failure ends the run, with
/// the place of the statement that failed; and the run ends quietly, with
/// the exit code recorded, once the program asks to leave.
pub open spec fn run<'a, N: NativeFunction>(
    m: InterpreterView<'a, N>,
    statements: &'a [Statement],
    from: nat,
    oracle: Oracle,
) -> (InterpreterView<'a, N>, Result<(), LocatedErrorView>)
    decreases statements@.len() - from,
{
    if from >= statements@.len() {
        (m, Ok(()))
    } else {
        let (m1, r) = exec_stmt(m, &statements[from as int], m.fuel as nat, oracle);
        match r {
            Ok(_) => run(m1, statements, from + 1, oracle),
            Err(AbortView::Failure(error)) => (
                m1,
                Err(LocatedErrorView { error, location: statements[from as int].location }),
            ),
            Err(AbortView::Exit(code)) => (m1.exited(code), Ok(())),
        }
    }
}

/// The name under which `print` is registered.
pub open spec fn print_name() -> Seq<char> {
    seq!['p', 'r', 'i', 'n', 't']
}

/// The name under which `exit` is registered.
pub open spec fn exit_name() -> Seq<char> {
    seq!['e', 'x', 'i', 't']
}

/// The function table after the natives from the one at `from` on were
/// registered in order, each under its name; a name that is taken is a
/// failure.
pub open spec fn registry<'a, N>(
    functions: Map<Seq<char>, Function<'a, N>>,
    natives: Seq<(String, N)>,
    from: nat,
) -> Result<Map<Seq<char>, Function<'a, N>>, RuntimeErrorView>
    decreases natives.len() - from,
{
    if from >= natives.len() {
        Ok(functions)
    } else {
        let (name, func) = natives[from as int];
        let (next, r) = define(functions, name@, Function::Native { func });
        match r {
            Err(e) => Err(e),
            Ok(_) => registry(next, natives, from + 1),
        }
    }
}

/// A state in which a run can begin: one empty scope, the given function
/// table, nothing written, no exit code.
pub open spec fn fresh<'a, N>(
    functions: Map<Seq<char>, Function<'a, N>>,
    fuel: u64,
) -> InterpreterView<'a, N> {
    InterpreterView {
        env: EnvironmentView {
            scopes: seq![Map::<Seq<char>, ValueView>::empty()],
            functions,
        },
        output: Seq::empty(),
        fuel,
        exit_code: None,
        answers: Seq::empty(),
    }
}

/// The state in which a run with the runtime's own functions begins:
/// `print` and `exit` are in the function table.
pub open spec fn initial<'a>(fuel: u64) -> InterpreterView<'a, Intrinsic> {
    fresh(
        Map::<Seq<char>, Function<'a, Intrinsic>>::empty().insert(
            print_name(),
            Function::Native { func: Intrinsic::Print },
        ).insert(exit_name(), Function::Native { func: Intrinsic::Exit }),
        fuel,
    )
}

/// The lines of the output, each as a sequence of characters.
pub open spec fn lines(output: Seq<String>) -> Seq<Seq<char>> {
    Seq::new(output.len(), |i: int| output[i]@)
}

/// The mathematical value of the result of an expression.
pub open spec fn evaluated(r: Result<(InterpretValue, ControlFlow), Abort>) -> Evaluated {
    match r {
        Ok((v, flow)) => Ok((v@, flow@)),
        Err(a) => Err(a@),
    }
}

/// The mathematical value of the result of a statement.
pub open spec fn executed(r: Result<ControlFlow, Abort>) -> Executed {
    match r {
        Ok(flow) => Ok(flow@),
        Err(a) => Err(a@),
    }
}

/// The mathematical value of the result of a list of arguments.
pub open spec fn collected(r: Result<Vec<InterpretValue>, Abort>) -> Result<
    Seq<ValueView>,
    AbortView,
> {
    match r {
        Ok(values) => Ok(views(values@)),
        Err(a) => Err(a@),
    }
}

/// The result of a list of arguments whose first values are at hand and
/// whose rest is still to be evaluated.
pub open spec fn gathered<'a, N>(
    values: Seq<ValueView>,
    rest: (InterpreterView<'a, N>, Result<Seq<ValueView>, AbortView>),
) -> (InterpreterView<'a, N>, Result<Seq<ValueView>, AbortView>) {
    (
        rest.0,
        match rest.1 {
            Ok(more) => Ok(values + more),
            Err(a) => Err(a),
        },
    )
}

/// The mathematical value of the result of a run.
pub open spec fn located(r: Result<(), LocatedError>) -> Result<(), LocatedErrorView> {
    match r {
        Ok(_) => Ok(()),
        Err(e) => Err(e@),
    }
}

/// The budget of an interpreter that was given none: as large as a budget
/// can be.
pub const DEFAULT_FUEL: u64 = 0xffff_ffff_ffff_ffff;

/// The interpreter: an environment, the lines written so far, and how the
/// run has ended. It also keeps, for the proofs alone, a record of what the
/// native functions that promise nothing have handed back.
#[verifier::reject_recursive_types(N)]
pub struct Interpreter<'a, N> {
    env: Environment<'a, N>,
    output: Vec<String>,
    fuel: u64,
    exit_code: Option<i32>,
    answers: Ghost<Seq<NativeAnswer>>,
}

impl<'a, N> View for Interpreter<'a, N> {
    type V = InterpreterView<'a, N>;

    closed spec fn view(&self) -> InterpreterView<'a, N> {
        InterpreterView {
            env: self.env@,
            output: lines(self.output@),
            fuel: self.fuel,
            exit_code: self.exit_code,
            answers: self.answers@,
        }
    }
}

impl<'a> Interpreter<'a, Intrinsic> {
    /// An interpreter in the initial state, with the largest budget.
    pub fn new() -> (r: Self)
        ensures
            r@ == initial::<'a>(DEFAULT_FUEL),
    {
        Interpreter::with_fuel(DEFAULT_FUEL)
    }

    /// An interpreter in the initial state, with the given budget for
    /// each top-level statement.
    pub fn with_fuel(fuel: u64) -> (r: Self)
        ensures
            r@ == initial::<'a>(fuel),
    {
        proof {
            reveal_strlit("print");
            reveal_strlit("exit");
        }
        let mut env = Environment::new();
        let print = "print".to_owned();
        let exit = "exit".to_owned();
        assert(print@ =~= print_name());
        assert(exit@ =~= exit_name());
        assert(print_name()[0] != exit_name()[0]);
        let _ = env.define_native_function(print, Intrinsic::Print);
        let _ = env.define_native_function(exit, Intrinsic::Exit);
        let r = Interpreter {
            env,
            output: Vec::new(),
            fuel,
            exit_code: None,
            answers: Ghost(Seq::empty()),
        };
        assert(r@.output =~= Seq::<Seq<char>>::empty());
        assert(r@.env.functions =~= initial::<'a>(fuel).env.functions);
        assert(r@.env == initial::<'a>(fuel).env);
        r
    }
}

impl<'a, N: NativeFunction + Copy> Interpreter<'a, N> {
    /// An interpreter whose function table holds the given native
    /// functions, each under its name; two of one name are a failure.
    pub fn with_natives(natives: &Vec<(String, N)>, fuel: u64) -> (r: Result<Self, RuntimeError>)
        ensures
            match registry(Map::<Seq<char>, Function<'a, N>>::empty(), natives@, 0) {
                Ok(functions) => r matches Ok(interpreter) && interpreter@ == fresh(
                    functions,
                    fuel,
                ),
                Err(e) => r matches Err(x) && x@ == e,
            },
    {
        let mut env: Environment<'a, N> = Environment::new();
        let mut i: usize = 0;
        while i < natives.len()
            invariant
                i <= natives@.len(),
                env@.scopes == seq![Map::<Seq<char>, ValueView>::empty()],
                registry(Map::<Seq<char>, Function<'a, N>>::empty(), natives@, 0) == registry(
                    env@.functions,
                    natives@,
                    i as nat,
                ),
            decreases natives@.len() - i,
        {
            match env.define_native_function(natives[i].0.clone(), natives[i].1) {
                Ok(_) => {},
                Err(e) => {
                    return Err(e);
                },
            }
            i = i + 1;
        }
        let r = Interpreter {
            env,
            output: Vec::new(),
            fuel,
            exit_code: None,
            answers: Ghost(Seq::empty()),
        };
        assert(r@.output =~= Seq::<Seq<char>>::empty());
        Ok(r)
    }

    /// The lines that the program has written so far.
    pub fn output(&self) -> (r: &Vec<String>)
        ensures
            lines(r@) == self@.output,
    {
        &self.output
    }

    /// Gives up the interpreter for the lines that the program has written.
    pub fn into_output(self) -> (r: Vec<String>)
        ensures
            lines(r@) == self@.output,
    {
        self.output
    }

    /// The exit code, once the program has asked to leave.
    pub fn exit_code(&self) -> (r: Option<i32>)
        ensures
            r == self@.exit_code,
    {
        self.exit_code
    }

    /// The budget for each top-level statement.
    pub fn fuel(&self) -> (r: u64)
        ensures
            r == self@.fuel,
    {
        self.fuel
    }

    /// Evaluates an expression. The result and the state that is left are
    /// what the expression comes to under every oracle that has the answers
    /// recorded on the way, the oracle `told` of these answers among them.
    pub fn eval_expr(&mut self, expr: &'a Expr, fuel: u64) -> (r: Result<
        (InterpretValue, ControlFlow),
        Abort,
    >)
        ensures
            heard_more(old(self)@, final(self)@),
            forall|oracle: Oracle|
                #![trigger eval_expr(old(self)@, expr, fuel as nat, oracle)]
                foretells(oracle, final(self)@.answers, old(self)@.answers.len() as int)
                    ==> eval_expr(old(self)@, expr, fuel as nat, oracle) == (
                    final(self)@,
                    evaluated(r),
                ),
            eval_expr(old(self)@, expr, fuel as nat, told(final(self)@.answers)) == (
                final(self)@,
                evaluated(r),
            ),
        decreases fuel, expr, 1nat,
    {
        match expr {
            Expr::Literal(lit) => match InterpretValue::from_literal(lit) {
                Ok(v) => Ok((v, ControlFlow::Normal)),
                Err(e) => Err(Abort::Failure(e)),
            },
            Expr::Variable(name) => match self.env.get(name.as_str()) {
                Ok(v) => Ok((v, ControlFlow::Normal)),
                Err(e) => Err(Abort::Failure(e)),
            },
            Expr::Binary { .. } => self.eval_binary(expr, fuel),
            Expr::Unary { operator, operand } => {
                let inner = self.eval_expr(&**operand, fuel);
                proof {
                    assert forall|oracle: Oracle|
                        #![trigger eval_expr(old(self)@, expr, fuel as nat, oracle)]
                        foretells(
                            oracle,
                            self@.answers,
                            old(self)@.answers.len() as int,
                        ) implies eval_expr(old(self)@, &**operand, fuel as nat, oracle) == (
                        self@,
                        evaluated(inner),
                    ) by {}
                }
                match inner {
                    Ok((v, _)) => match InterpretValue::unary(*operator, &v) {
                        Ok(v) => Ok((v, ControlFlow::Normal)),
                        Err(e) => Err(Abort::Failure(e)),
                    },
                    Err(a) => Err(a),
                }
            },
            Expr::Assignment { .. } => self.eval_assignment(expr, fuel),
            Expr::If { .. } => self.eval_if(expr, fuel),
            Expr::FunctionCall { .. } => self.eval_call(expr, fuel),
        }
    }

    /// Evaluates an assignment: the value, then the update of the variable.
    fn eval_assignment(&mut self, expr: &'a Expr, fuel: u64) -> (r: Result<
        (InterpretValue, ControlFlow),
        Abort,
    >)
        requires
            expr is Assignment,
        ensures
            heard_more(old(self)@, final(self)@),
            forall|oracle: Oracle|
                #![trigger eval_expr(old(self)@, expr, fuel as nat, oracle)]
                foretells(oracle, final(self)@.answers, old(self)@.answers.len() as int)
                    ==> eval_expr(old(self)@, expr, fuel as nat, oracle) == (
                    final(self)@,
                    evaluated(r),
                ),
        decreases fuel, expr, 0nat,
    {
        match expr {
            Expr::Assignment { target, value } => {
                match &**target {
                    Expr::Variable(name) => {
                        let inner = self.eval_expr(&**value, fuel);
                        let ghost valued = self@;
                        proof {
                            assert forall|oracle: Oracle|
                                #![trigger eval_expr(old(self)@, expr, fuel as nat, oracle)]
                                foretells(
                                    oracle,
                                    valued.answers,
                                    old(self)@.answers.len() as int,
                                ) implies eval_expr(
                                old(self)@,
                                &**value,
                                fuel as nat,
                                oracle,
                            ) == (valued, evaluated(inner)) by {}
                        }
                        match inner {
                            Ok((v, _)) => match self.env.update(name.clone(), v.clone()) {
                                Ok(_) => Ok((v, ControlFlow::Normal)),
                                Err(e) => Err(Abort::Failure(e)),
                            },
                            Err(a) => Err(a),
                        }
                    },
                    _ => Err(Abort::Failure(RuntimeError::InvalidAssignmentTarget)),
                }
            },
            _ => Err(Abort::Failure(RuntimeError::InvalidAssignmentTarget)),
        }
    }

    /// Evaluates a binary expression: the left operand, then the right one,
    /// then the operator.
    fn eval_binary(&mut self, expr: &'a Expr, fuel: u64) -> (r: Result<
        (InterpretValue, ControlFlow),
        Abort,
    >)
        requires
            expr is Binary,
        ensures
            heard_more(old(self)@, final(self)@),
            forall|oracle: Oracle|
                #![trigger eval_expr(old(self)@, expr, fuel as nat, oracle)]
                foretells(oracle, final(self)@.answers, old(self)@.answers.len() as int)
                    ==> eval_expr(old(self)@, expr, fuel as nat, oracle) == (
                    final(self)@,
                    evaluated(r),
                ),
        decreases fuel, expr, 0nat,
    {
        match expr {
            Expr::Binary { left, operator, right } => {
                let first = self.eval_expr(&**left, fuel);
                proof {
                    assert forall|oracle: Oracle|
                        #![trigger eval_expr(old(self)@, expr, fuel as nat, oracle)]
                        foretells(
                            oracle,
                            self@.answers,
                            old(self)@.answers.len() as int,
                        ) implies eval_expr(old(self)@, &**left, fuel as nat, oracle) == (
                        self@,
                        evaluated(first),
                    ) by {}
                }
                let l = match first {
                    Ok((v, _)) => v,
                    Err(a) => {
                        return Err(a);
                    },
                };
                let ghost halfway = self@;
                let second = self.eval_expr(&**right, fuel);
                proof {
                    lemma_heard_more_chain(old(self)@, halfway, self@);
                    assert forall|oracle: Oracle|
                        #![trigger eval_expr(old(self)@, expr, fuel as nat, oracle)]
                        foretells(
                            oracle,
                            self@.answers,
                            old(self)@.answers.len() as int,
                        ) implies eval_expr(old(self)@, &**left, fuel as nat, oracle) == (
                        halfway,
                        evaluated(first),
                    ) && eval_expr(halfway, &**right, fuel as nat, oracle) == (
                        self@,
                        evaluated(second),
                    ) by {
                        lemma_foretells_parts(oracle, old(self)@, halfway, self@);
                    }
                }
                match second {
                    Ok((r, _)) => match InterpretValue::binary(*operator, &l, &r) {
                        Ok(v) => Ok((v, ControlFlow::Normal)),
                        Err(e) => Err(Abort::Failure(e)),
                    },
                    Err(a) => Err(a),
                }
            },
            _ => Err(Abort::Failure(RuntimeError::InvalidAssignmentTarget)),
        }
    }

    /// Evaluates an `if`: the condition, then the branch that it selects.
    fn eval_if(&mut self, expr: &'a Expr, fuel: u64) -> (r: Result<
        (InterpretValue, ControlFlow),
        Abort,
    >)
        requires
            expr is If,
        ensures
            heard_more(old(self)@, final(self)@),
            forall|oracle: Oracle|
                #![trigger eval_expr(old(self)@, expr, fuel as nat, oracle)]
                foretells(oracle, final(self)@.answers, old(self)@.answers.len() as int)
                    ==> eval_expr(old(self)@, expr, fuel as nat, oracle) == (
                    final(self)@,
                    evaluated(r),
                ),
        decreases fuel, expr, 0nat,
    {
        match expr {
            Expr::If { condition, then_branch, else_branch } => {
                let tested = self.eval_expr(&**condition, fuel);
                let ghost decided = self@;
                proof {
                    assert forall|oracle: Oracle|
                        #![trigger eval_expr(old(self)@, expr, fuel as nat, oracle)]
                        foretells(
                            oracle,
                            decided.answers,
                            old(self)@.answers.len() as int,
                        ) implies eval_expr(old(self)@, &**condition, fuel as nat, oracle) == (
                        decided,
                        evaluated(tested),
                    ) by {}
                }
                let c = match tested {
                    Ok((v, _)) => v,
                    Err(a) => {
                        return Err(a);
                    },
                };
                let truth = match c {
                    InterpretValue::Boolean(b) => b,
                    _ => false,
                };
                let taken: Option<&'a Vec<Statement>> = if truth {
                    Some(then_branch)
                } else {
                    match else_branch {
                        Some(stmts) => Some(stmts),
                        None => None,
                    }
                };
                match taken {
                    None => Ok((InterpretValue::Void, ControlFlow::Normal)),
                    Some(stmts) => {
                        let r = self.exec_branch(stmts, fuel);
                        proof {
                            lemma_heard_more_chain(old(self)@, decided, self@);
                            assert forall|oracle: Oracle|
                                #![trigger eval_expr(old(self)@, expr, fuel as nat, oracle)]
                                foretells(
                                    oracle,
                                    self@.answers,
                                    old(self)@.answers.len() as int,
                                ) implies eval_expr(
                                old(self)@,
                                &**condition,
                                fuel as nat,
                                oracle,
                            ) == (decided, evaluated(tested)) && ({
                                let (m, x) = exec_block(
                                    decided.entered(),
                                    stmts,
                                    0,
                                    fuel as nat,
                                    oracle,
                                );
                                leave_branch(m, x)
                            }) == (self@, evaluated(r)) by {
                                lemma_foretells_parts(oracle, old(self)@, decided, self@);
                            }
                        }
                        r
                    },
                }
            },
            _ => Err(Abort::Failure(RuntimeError::InvalidAssignmentTarget)),
        }
    }

    /// Evaluates a call: looks the function up, evaluates the arguments,
    /// and runs the function.
    fn eval_call(&mut self, expr: &'a Expr, fuel: u64) -> (r: Result<
        (InterpretValue, ControlFlow),
        Abort,
    >)
        requires
            expr is FunctionCall,
        ensures
            heard_more(old(self)@, final(self)@),
            forall|oracle: Oracle|
                #![trigger eval_expr(old(self)@, expr, fuel as nat, oracle)]
                foretells(oracle, final(self)@.answers, old(self)@.answers.len() as int)
                    ==> eval_expr(old(self)@, expr, fuel as nat, oracle) == (
                    final(self)@,
                    evaluated(r),
                ),
        decreases fuel, expr, 0nat,
    {
        match expr {
            Expr::FunctionCall { name, arguments } => {
                let function = match self.env.get_function(name.as_str()) {
                    Ok(f) => f,
                    Err(e) => {
                        return Err(Abort::Failure(e));
                    },
                };
                match function {
                    Function::Native { func } => {
                        let gathered = self.eval_args(arguments, fuel);
                        let ghost ready = self@;
                        proof {
                            assert forall|oracle: Oracle|
                                #![trigger eval_expr(old(self)@, expr, fuel as nat, oracle)]
                                foretells(
                                    oracle,
                                    ready.answers,
                                    old(self)@.answers.len() as int,
                                ) implies eval_args(
                                old(self)@,
                                arguments,
                                0,
                                fuel as nat,
                                oracle,
                            ) == (ready, collected(gathered)) by {}
                        }
                        let args = match gathered {
                            Ok(args) => args,
                            Err(a) => {
                                return Err(a);
                            },
                        };
                        let ghost values = views(args@);
                        let r = self.call_native(func, args);
                        proof {
                            lemma_heard_more_chain(old(self)@, ready, self@);
                            assert forall|oracle: Oracle|
                                #![trigger eval_expr(old(self)@, expr, fuel as nat, oracle)]
                                foretells(
                                    oracle,
                                    self@.answers,
                                    old(self)@.answers.len() as int,
                                ) implies eval_args(
                                old(self)@,
                                arguments,
                                0,
                                fuel as nat,
                                oracle,
                            ) == (ready, Ok::<Seq<ValueView>, AbortView>(values)) && call_native(
                                ready,
                                func,
                                values,
                                oracle,
                            ) == (self@, evaluated(r)) by {
                                lemma_foretells_parts(oracle, old(self)@, ready, self@);
                            }
                        }
                        r
                    },
                    Function::Interpreted { params, body } => {
                        if arguments.len() != params.len() {
                            return Err(
                                Abort::Failure(
                                    RuntimeError::ArityMismatch {
                                        name: name.clone(),
                                        expected: params.len(),
                                        found: arguments.len(),
                                    },
                                ),
                            );
                        }
                        let gathered = self.eval_args(arguments, fuel);
                        let ghost ready = self@;
                        proof {
                            assert forall|oracle: Oracle|
                                #![trigger eval_expr(old(self)@, expr, fuel as nat, oracle)]
                                foretells(
                                    oracle,
                                    ready.answers,
                                    old(self)@.answers.len() as int,
                                ) implies eval_args(
                                old(self)@,
                                arguments,
                                0,
                                fuel as nat,
                                oracle,
                            ) == (ready, collected(gathered)) by {}
                        }
                        let args = match gathered {
                            Ok(args) => args,
                            Err(a) => {
                                return Err(a);
                            },
                        };
                        if fuel == 0 {
                            return Err(Abort::Failure(RuntimeError::FuelExhausted));
                        }
                        let ghost values = views(args@);
                        let r = self.run_body(params, body, args, fuel);
                        proof {
                            lemma_heard_more_chain(old(self)@, ready, self@);
                            assert forall|oracle: Oracle|
                                #![trigger eval_expr(old(self)@, expr, fuel as nat, oracle)]
                                foretells(
                                    oracle,
                                    self@.answers,
                                    old(self)@.answers.len() as int,
                                ) implies eval_args(
                                old(self)@,
                                arguments,
                                0,
                                fuel as nat,
                                oracle,
                            ) == (ready, Ok::<Seq<ValueView>, AbortView>(values)) && called(
                                ready,
                                params,
                                body,
                                values,
                                (fuel - 1) as nat,
                                oracle,
                            ) == (self@, evaluated(r)) by {
                                lemma_foretells_parts(oracle, old(self)@, ready, self@);
                            }
                        }
                        r
                    },
                }
            },
            _ => Err(Abort::Failure(RuntimeError::InvalidAssignmentTarget)),
        }
    }

    /// Runs the body of an interpreted function on the values of its
    /// arguments, in a scope of its own.
    fn run_body(
        &mut self,
        params: &'a Vec<Param>,
        body: &'a Statement,
        args: Vec<InterpretValue>,
        fuel: u64,
    ) -> (r: Result<(InterpretValue, ControlFlow), Abort>)
        requires
            fuel > 0,
            params@.len() == args@.len(),
        ensures
            heard_more(old(self)@, final(self)@),
            forall|oracle: Oracle|
                #![trigger called(
                    old(self)@,
                    params,
                    body,
                    views(args@),
                    (fuel - 1) as nat,
                    oracle,
                )]
                foretells(oracle, final(self)@.answers, old(self)@.answers.len() as int)
                    ==> called(
                    old(self)@,
                    params,
                    body,
                    views(args@),
                    (fuel - 1) as nat,
                    oracle,
                ) == (
                    final(self)@,
                    evaluated(r),
                ),
        decreases fuel - 1, body, 2nat,
    {
        self.enter_call(params, &args);
        let ghost entered = self@;
        let r = match &body.stmt {
            Stmt::Scope { statements } => {
                let r = self.exec_block(statements, fuel - 1);
                proof {
                    assert forall|oracle: Oracle|
                        #![trigger called(
                    old(self)@,
                    params,
                    body,
                    views(args@),
                    (fuel - 1) as nat,
                    oracle,
                )]
                        foretells(
                            oracle,
                            self@.answers,
                            old(self)@.answers.len() as int,
                        ) implies exec_block(entered, statements, 0, (fuel - 1) as nat, oracle)
                        == (self@, executed(r)) by {}
                }
                r
            },
            _ => {
                let r = self.exec_stmt(body, fuel - 1);
                proof {
                    assert forall|oracle: Oracle|
                        #![trigger called(
                    old(self)@,
                    params,
                    body,
                    views(args@),
                    (fuel - 1) as nat,
                    oracle,
                )]
                        foretells(
                            oracle,
                            self@.answers,
                            old(self)@.answers.len() as int,
                        ) implies exec_stmt(entered, body, (fuel - 1) as nat, oracle) == (
                        self@,
                        executed(r),
                    ) by {}
                }
                r
            },
        };
        match r {
            Err(a) => Err(a),
            Ok(flow) => {
                self.env.pop_scope();
                match flow {
                    ControlFlow::Return(v) => Ok((v, ControlFlow::Normal)),
                    _ => Ok((InterpretValue::Void, ControlFlow::Normal)),
                }
            },
        }
    }

    /// Runs a native function on its arguments and carries out its effect.
    fn call_native(&mut self, func: N, args: Vec<InterpretValue>) -> (r: Result<
        (InterpretValue, ControlFlow),
        Abort,
    >)
        ensures
            heard_more(old(self)@, final(self)@),
            forall|oracle: Oracle|
                #![trigger call_native(old(self)@, func, views(args@), oracle)]
                foretells(oracle, final(self)@.answers, old(self)@.answers.len() as int)
                    ==> call_native(old(self)@, func, views(args@), oracle) == (
                    final(self)@,
                    evaluated(r),
                ),
    {
        let ghost promised = func.promised(views(args@));
        let answer = func.call(args);
        self.answers = Ghost(
            if promised is None {
                self.answers@.push(native_outcome(answer))
            } else {
                self.answers@
            },
        );
        match answer {
            Ok(NativeEffect::Value(v)) => Ok((v, ControlFlow::Normal)),
            Ok(NativeEffect::Line(line)) => {
                self.output.push(line);
                assert(self@.output =~= old(self)@.output.push(line@));
                Ok((InterpretValue::Void, ControlFlow::Normal))
            },
            Ok(NativeEffect::Exit(code)) => Err(Abort::Exit(code)),
            Err(e) => Err(Abort::Failure(e)),
        }
    }

    /// Opens the scope of a call and binds each parameter to its argument.
    fn enter_call(&mut self, params: &'a Vec<Param>, args: &Vec<InterpretValue>)
        requires
            params@.len() == args@.len(),
        ensures
            final(self)@ == old(self)@.with_scopes(
                old(self)@.env.scopes.push(param_scope(params@, views(args@))),
            ),
    {
        let ghost base = self@.env.scopes;
        let ghost values = views(args@);
        self.env.push_scope();
        let mut i: usize = 0;
        while i < params.len()
            invariant
                i <= params@.len(),
                params@.len() == args@.len(),
                values == views(args@),
                self@ == old(self)@.with_scopes(
                    base.push(
                        param_scope(params@.subrange(0, i as int), values.subrange(0, i as int)),
                    ),
                ),
                base == old(self)@.env.scopes,
            decreases params@.len() - i,
        {
            proof {
                let p = params@.subrange(0, i + 1);
                let v = values.subrange(0, i + 1);
                assert(p.drop_last() =~= params@.subrange(0, i as int));
                assert(v.drop_last() =~= values.subrange(0, i as int));
                assert(p.last() == params@[i as int]);
                assert(v.last() == args@[i as int]@);
            }
            let ghost before = self@.env.scopes;
            let bound = self.env.set(params[i].name.clone(), args[i].clone());
            proof {
                assert(self@.env.scopes =~= base.push(
                    param_scope(params@.subrange(0, i + 1), values.subrange(0, i + 1)),
                ));
            }
            i = i + 1;
        }
        proof {
            assert(params@.subrange(0, i as int) =~= params@);
            assert(values.subrange(0, i as int) =~= values);
        }
    }

    /// Evaluates the arguments of a call from left to right.
    fn eval_args(&mut self, args: &'a Vec<Expr>, fuel: u64) -> (r: Result<
        Vec<InterpretValue>,
        Abort,
    >)
        ensures
            heard_more(old(self)@, final(self)@),
            forall|oracle: Oracle|
                #![trigger eval_args(old(self)@, args, 0, fuel as nat, oracle)]
                foretells(oracle, final(self)@.answers, old(self)@.answers.len() as int)
                    ==> eval_args(old(self)@, args, 0, fuel as nat, oracle) == (
                    final(self)@,
                    collected(r),
                ),
            r matches Ok(values) ==> values@.len() == args@.len(),
        decreases fuel, args, 0nat,
    {
        let mut values: Vec<InterpretValue> = Vec::new();
        let mut i: usize = 0;
        while i < args.len()
            invariant
                i <= args@.len(),
                values@.len() == i,
                heard_more(old(self)@, self@),
                forall|oracle: Oracle|
                    #![trigger eval_args(old(self)@, args, 0, fuel as nat, oracle)]
                    foretells(oracle, self@.answers, old(self)@.answers.len() as int)
                        ==> eval_args(old(self)@, args, 0, fuel as nat, oracle) == gathered(
                        views(values@),
                        eval_args(self@, args, i as nat, fuel as nat, oracle),
                    ),
            decreases args@.len() - i,
        {
            let ghost before = views(values@);
            let ghost start = self@;
            let step = self.eval_expr(&args[i], fuel);
            proof {
                lemma_heard_more_chain(old(self)@, start, self@);
                assert forall|oracle: Oracle|
                    #![trigger eval_args(old(self)@, args, 0, fuel as nat, oracle)]
                    foretells(
                        oracle,
                        self@.answers,
                        old(self)@.answers.len() as int,
                    ) implies eval_args(old(self)@, args, 0, fuel as nat, oracle) == gathered(
                    before,
                    eval_args(start, args, i as nat, fuel as nat, oracle),
                ) && eval_expr(start, &args[i as int], fuel as nat, oracle) == (
                    self@,
                    evaluated(step),
                ) by {
                    lemma_foretells_parts(oracle, old(self)@, start, self@);
                }
            }
            match step {
                Ok((v, _)) => {
                    values.push(v);
                    proof {
                        assert(views(values@) =~= before + seq![v@]);
                        assert forall|oracle: Oracle|
                            #![trigger eval_args(old(self)@, args, 0, fuel as nat, oracle)]
                            foretells(
                                oracle,
                                self@.answers,
                                old(self)@.answers.len() as int,
                            ) implies eval_args(old(self)@, args, 0, fuel as nat, oracle)
                            == gathered(
                            views(values@),
                            eval_args(self@, args, (i + 1) as nat, fuel as nat, oracle),
                        ) by {
                            let rest = eval_args(
                                self@,
                                args,
                                (i + 1) as nat,
                                fuel as nat,
                                oracle,
                            ).1;
                            if rest is Ok {
                                assert(before + (seq![v@] + rest->Ok_0) =~= views(values@)
                                    + rest->Ok_0);
                            }
                        }
                    }
                },
                Err(a) => {
                    return Err(a);
                },
            }
            i = i + 1;
        }
        proof {
            assert(views(values@) + Seq::<ValueView>::empty() =~= views(values@));
        }
        Ok(values)
    }

    /// Executes a branch of an `if` in a scope of its own.
    fn exec_branch(&mut self, stmts: &'a Vec<Statement>, fuel: u64) -> (r: Result<
        (InterpretValue, ControlFlow),
        Abort,
    >)
        ensures
            heard_more(old(self)@, final(self)@),
            forall|oracle: Oracle|
                #![trigger exec_block(old(self)@.entered(), stmts, 0, fuel as nat, oracle)]
                foretells(oracle, final(self)@.answers, old(self)@.answers.len() as int) ==> ({
                    let (m, x) = exec_block(old(self)@.entered(), stmts, 0, fuel as nat, oracle);
                    leave_branch(m, x)
                }) == (final(self)@, evaluated(r)),
        decreases fuel, stmts, 1nat,
    {
        self.env.push_scope();
        let inner = self.exec_block(stmts, fuel);
        let ghost done = self@;
        proof {
            assert forall|oracle: Oracle|
                #![trigger exec_block(old(self)@.entered(), stmts, 0, fuel as nat, oracle)]
                foretells(
                    oracle,
                    done.answers,
                    old(self)@.answers.len() as int,
                ) implies exec_block(old(self)@.entered(), stmts, 0, fuel as nat, oracle) == (
                done,
                executed(inner),
            ) by {}
        }
        match inner {
            Err(a) => Err(a),
            Ok(flow) => {
                self.env.pop_scope();
                Ok((InterpretValue::Void, flow))
            },
        }
    }

    /// Executes statements in order, up to the first that leaves a signal.
    /// The result and the state that is left are what the statements come to
    /// under every oracle that has the answers recorded on the way.
    pub fn exec_block(&mut self, stmts: &'a Vec<Statement>, fuel: u64) -> (r: Result<
        ControlFlow,
        Abort,
    >)
        ensures
            heard_more(old(self)@, final(self)@),
            forall|oracle: Oracle|
                #![trigger exec_block(old(self)@, stmts, 0, fuel as nat, oracle)]
                foretells(oracle, final(self)@.answers, old(self)@.answers.len() as int)
                    ==> exec_block(old(self)@, stmts, 0, fuel as nat, oracle) == (
                    final(self)@,
                    executed(r),
                ),
            exec_block(old(self)@, stmts, 0, fuel as nat, told(final(self)@.answers)) == (
                final(self)@,
                executed(r),
            ),
        decreases fuel, stmts, 0nat,
    {
        let mut i: usize = 0;
        while i < stmts.len()
            invariant
                i <= stmts@.len(),
                heard_more(old(self)@, self@),
                forall|oracle: Oracle|
                    #![trigger exec_block(old(self)@, stmts, 0, fuel as nat, oracle)]
                    foretells(oracle, self@.answers, old(self)@.answers.len() as int)
                        ==> exec_block(old(self)@, stmts, 0, fuel as nat, oracle) == exec_block(
                        self@,
                        stmts,
                        i as nat,
                        fuel as nat,
                        oracle,
                    ),
            decreases stmts@.len() - i,
        {
            let ghost start = self@;
            let step = self.exec_stmt(&stmts[i], fuel);
            proof {
                lemma_heard_more_chain(old(self)@, start, self@);
                assert forall|oracle: Oracle|
                    #![trigger exec_block(old(self)@, stmts, 0, fuel as nat, oracle)]
                    foretells(
                        oracle,
                        self@.answers,
                        old(self)@.answers.len() as int,
                    ) implies exec_block(old(self)@, stmts, 0, fuel as nat, oracle) == exec_block(
                    start,
                    stmts,
                    i as nat,
                    fuel as nat,
                    oracle,
                ) && exec_stmt(start, &stmts[i as int], fuel as nat, oracle) == (
                    self@,
                    executed(step),
                ) by {
                    lemma_foretells_parts(oracle, old(self)@, start, self@);
                }
            }
            match step {
                Err(a) => {
                    return Err(a);
                },
                Ok(flow) => match flow {
                    ControlFlow::Normal => {},
                    other => {
                        return Ok(other);
                    },
                },
            }
            i = i + 1;
        }
        Ok(ControlFlow::Normal)
    }

    /// Executes a statement. The result and the state that is left are what
    /// the statement comes to under every oracle that has the answers
    /// recorded on the way.
    pub fn exec_stmt(&mut self, statement: &'a Statement, fuel: u64) -> (r: Result<
        ControlFlow,
        Abort,
    >)
        ensures
            heard_more(old(self)@, final(self)@),
            forall|oracle: Oracle|
                #![trigger exec_stmt(old(self)@, statement, fuel as nat, oracle)]
                foretells(oracle, final(self)@.answers, old(self)@.answers.len() as int)
                    ==> exec_stmt(old(self)@, statement, fuel as nat, oracle) == (
                    final(self)@,
                    executed(r),
                ),
            exec_stmt(old(self)@, statement, fuel as nat, told(final(self)@.answers)) == (
                final(self)@,
                executed(r),
            ),
        decreases fuel, statement, 1nat,
    {
        match &statement.stmt {
            Stmt::Let { name, ty: _, value } => {
                let inner = self.eval_expr(value, fuel);
                let ghost valued = self@;
                proof {
                    assert forall|oracle: Oracle|
                        #![trigger exec_stmt(old(self)@, statement, fuel as nat, oracle)]
                        foretells(
                            oracle,
                            valued.answers,
                            old(self)@.answers.len() as int,
                        ) implies eval_expr(old(self)@, value, fuel as nat, oracle) == (
                        valued,
                        evaluated(inner),
                    ) by {}
                }
                match inner {
                    Ok((v, _)) => match self.env.set(name.clone(), v) {
                        Ok(_) => Ok(ControlFlow::Normal),
                        Err(e) => Err(Abort::Failure(e)),
                    },
                    Err(a) => Err(a),
                }
            },
            Stmt::Func { name, params, ty: _, body } => {
                match self.env.define_function(name.clone(), params, &**body) {
                    Ok(_) => Ok(ControlFlow::Normal),
                    Err(e) => Err(Abort::Failure(e)),
                }
            },
            Stmt::Expr(expr) => {
                let inner = self.eval_expr(expr, fuel);
                proof {
                    assert forall|oracle: Oracle|
                        #![trigger exec_stmt(old(self)@, statement, fuel as nat, oracle)]
                        foretells(
                            oracle,
                            self@.answers,
                            old(self)@.answers.len() as int,
                        ) implies eval_expr(old(self)@, expr, fuel as nat, oracle) == (
                            self@,
                            evaluated(inner),
                        ) by {}
                }
                match inner {
                    Ok((_, flow)) => Ok(flow),
                    Err(a) => Err(a),
                }
            },
            Stmt::Scope { statements } => {
                self.env.push_scope();
                let inner = self.exec_block(statements, fuel);
                let ghost done = self@;
                proof {
                    assert forall|oracle: Oracle|
                        #![trigger exec_stmt(old(self)@, statement, fuel as nat, oracle)]
                        foretells(
                            oracle,
                            done.answers,
                            old(self)@.answers.len() as int,
                        ) implies exec_block(
                        old(self)@.entered(),
                        statements,
                        0,
                        fuel as nat,
                        oracle,
                    ) == (done, executed(inner)) by {}
                }
                match inner {
                    Err(a) => Err(a),
                    Ok(flow) => {
                        self.env.pop_scope();
                        Ok(flow)
                    },
                }
            },
            Stmt::While { .. } => self.exec_loop(statement, fuel),
            Stmt::Return { value } => match value {
                Some(expr) => {
                    let inner = self.eval_expr(expr, fuel);
            proof {
                        assert forall|oracle: Oracle|
                            #![trigger exec_stmt(old(self)@, statement, fuel as nat, oracle)]
                            foretells(
                                oracle,
                                self@.answers,
                                old(self)@.answers.len() as int,
                            ) implies eval_expr(old(self)@, expr, fuel as nat, oracle) == (
                            self@,
                            evaluated(inner),
                        ) by {}
                    }
                    match inner {
                        Ok((v, _)) => Ok(ControlFlow::Return(v)),
                        Err(a) => Err(a),
                    }
                },
                None => Ok(ControlFlow::Return(InterpretValue::Void)),
            },
            Stmt::Break => Ok(ControlFlow::Break),
            Stmt::Continue => Ok(ControlFlow::Continue),
        }
    }

    /// Runs a loop, round after round.
    fn exec_loop(&mut self, statement: &'a Statement, fuel: u64) -> (r: Result<
        ControlFlow,
        Abort,
    >)
        requires
            statement.stmt is While,
        ensures
            heard_more(old(self)@, final(self)@),
            forall|oracle: Oracle|
                #![trigger exec_stmt(old(self)@, statement, fuel as nat, oracle)]
                foretells(oracle, final(self)@.answers, old(self)@.answers.len() as int)
                    ==> exec_stmt(old(self)@, statement, fuel as nat, oracle) == (
                    final(self)@,
                    executed(r),
                ),
        decreases fuel, statement, 0nat,
    {
        match &statement.stmt {
            Stmt::While { condition, body } => {
                let mut left = fuel;
                loop
                    invariant
                        left <= fuel,
                        statement.stmt is While,
                        statement.stmt->condition == *condition,
                        statement.stmt->While_body == *body,
                        heard_more(old(self)@, self@),
                        forall|oracle: Oracle|
                            #![trigger exec_stmt(old(self)@, statement, fuel as nat, oracle)]
                            foretells(oracle, self@.answers, old(self)@.answers.len() as int)
                                ==> exec_stmt(old(self)@, statement, fuel as nat, oracle)
                                == exec_while(self@, condition, &**body, left as nat, oracle),
                    decreases left,
                {
                    if left == 0 {
                        return Err(Abort::Failure(RuntimeError::FuelExhausted));
                    }
                    let ghost start = self@;
                    left = left - 1;
                    let tested = self.eval_expr(condition, left);
                    let ghost checked = self@;
                    proof {
                        lemma_heard_more_chain(old(self)@, start, self@);
                        assert forall|oracle: Oracle|
                            #![trigger exec_stmt(old(self)@, statement, fuel as nat, oracle)]
                            foretells(
                                oracle,
                                self@.answers,
                                old(self)@.answers.len() as int,
                            ) implies exec_stmt(old(self)@, statement, fuel as nat, oracle)
                            == exec_while(start, condition, &**body, (left + 1) as nat, oracle)
                            && eval_expr(start, condition, left as nat, oracle) == (
                            self@,
                            evaluated(tested),
                        ) by {
                            lemma_foretells_parts(oracle, old(self)@, start, self@);
                        }
                    }
                    let c = match tested {
                        Ok((v, _)) => v,
                        Err(a) => {
                            return Err(a);
                        },
                    };
                    let stop = match c {
                        InterpretValue::Boolean(b) => !b,
                        _ => false,
                    };
                    if stop {
                        return Ok(ControlFlow::Normal);
                    }
                    let round = self.exec_stmt(&**body, left);
                    proof {
                        lemma_heard_more_chain(start, checked, self@);
                        lemma_heard_more_chain(old(self)@, start, self@);
                        assert forall|oracle: Oracle|
                            #![trigger exec_stmt(old(self)@, statement, fuel as nat, oracle)]
                            foretells(
                                oracle,
                                self@.answers,
                                old(self)@.answers.len() as int,
                            ) implies exec_stmt(old(self)@, statement, fuel as nat, oracle)
                            == exec_while(start, condition, &**body, (left + 1) as nat, oracle)
                            && eval_expr(start, condition, left as nat, oracle) == (
                            checked,
                            evaluated(tested),
                        ) && exec_stmt(checked, &**body, left as nat, oracle) == (
                            self@,
                            executed(round),
                        ) by {
                            lemma_foretells_parts(oracle, old(self)@, start, self@);
                            lemma_foretells_parts(oracle, start, checked, self@);
                        }
                    }
                    match round {
                        Err(a) => {
                            return Err(a);
                        },
                        Ok(flow) => match flow {
                            ControlFlow::Break => {
                                return Ok(ControlFlow::Normal);
                            },
                            ControlFlow::Return(v) => {
                                return Ok(ControlFlow::Return(v));
                            },
                            _ => {},
                        },
                    }
                }
            },
            _ => Ok(ControlFlow::Normal),
        }
    }

    /// Executes the top-level statements in order and stops at the first
    /// failure, or once the program asks to leave. The result and the state
    /// that is left are what the run comes to under every oracle that has
    /// the answers recorded on the way.
    pub fn interpret(&mut self, statements: &'a [Statement]) -> (r: Result<(), LocatedError>)
        ensures
            heard_more(old(self)@, final(self)@),
            forall|oracle: Oracle|
                #![trigger run(old(self)@, statements, 0, oracle)]
                foretells(oracle, final(self)@.answers, old(self)@.answers.len() as int) ==> run(
                    old(self)@,
                    statements,
                    0,
                    oracle,
                ) == (final(self)@, located(r)),
            run(old(self)@, statements, 0, told(final(self)@.answers)) == (
                final(self)@,
                located(r),
            ),
    {
        let mut i: usize = 0;
        while i < statements.len()
            invariant
                i <= statements@.len(),
                heard_more(old(self)@, self@),
                forall|oracle: Oracle|
                    #![trigger run(old(self)@, statements, 0, oracle)]
                    foretells(oracle, self@.answers, old(self)@.answers.len() as int) ==> run(
                        old(self)@,
                        statements,
                        0,
                        oracle,
                    ) == run(self@, statements, i as nat, oracle),
            decreases statements@.len() - i,
        {
            let fuel = self.fuel;
            let ghost start = self@;
            let step = self.exec_stmt(&statements[i], fuel);
            proof {
                lemma_heard_more_chain(old(self)@, start, self@);
                assert forall|oracle: Oracle|
                    #![trigger run(old(self)@, statements, 0, oracle)]
                    foretells(
                        oracle,
                        self@.answers,
                        old(self)@.answers.len() as int,
                    ) implies run(old(self)@, statements, 0, oracle) == run(
                    start,
                    statements,
                    i as nat,
                    oracle,
                ) && exec_stmt(start, &statements[i as int], start.fuel as nat, oracle) == (
                    self@,
                    executed(step),
                ) by {
                    lemma_foretells_parts(oracle, old(self)@, start, self@);
                }
            }
            match step {
                Ok(_) => {},
                Err(Abort::Failure(error)) => {
                    return Err(LocatedError { error, location: statements[i].location });
                },
                Err(Abort::Exit(code)) => {
                    self.exit_code = Some(code);
                    return Ok(());
                },
            }
            i = i + 1;
        }
        Ok(())
    }
}

} // verus!
