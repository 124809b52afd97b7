//! A whole run: analysis first, execution only for a program that passed.

use crate::ast::Statement;
use crate::environment::NativeFunction;
use crate::error::LocatedError;
use crate::interpreter::{
    foretells,
    heard_more,
    initial,
    lines,
    run,
    told,
    Interpreter,
    InterpreterView,
    LocatedErrorView,
    Oracle,
};
use crate::laws::{always_promises, law_promises_need_no_oracle_run};
use crate::native_functions::Intrinsic;
use crate::sema::{analysis, analyze, SemanticError, SemanticErrorView};
use crate::value::ValueView;
use vstd::prelude::*;

verus! {

/// Why a run did not complete.
#[derive(Debug)]
pub enum ProgramError {
    /// The analyzer rejected the program; nothing of it was executed.
    Semantic(SemanticError),
    /// The program failed while it ran.
    Runtime(LocatedError),
}

/// The mathematical value of a [`ProgramError`].
pub enum ProgramErrorView {
    Semantic(SemanticErrorView),
    Runtime(LocatedErrorView),
}

impl View for ProgramError {
    type V = ProgramErrorView;

    open spec fn view(&self) -> ProgramErrorView {
        match self {
            ProgramError::Semantic(e) => ProgramErrorView::Semantic(e@),
            ProgramError::Runtime(e) => ProgramErrorView::Runtime(e@),
        }
    }
}

/// The mathematical value of the result of a run.
pub open spec fn completed(r: Result<(), ProgramError>) -> Result<(), ProgramErrorView> {
    match r {
        Ok(_) => Ok(()),
        Err(e) => Err(e@),
    }
}

/// What analyzing and then running a program comes to, from a given state.
/// A program that the analyzer rejects leaves the state untouched: not one
/// of its statements is executed, no native function is called. Any other
/// program runs.
pub open spec fn spec_analyze_and_run<'a, N: NativeFunction>(
    m: InterpreterView<'a, N>,
    statements: &'a [Statement],
    oracle: Oracle,
) -> (InterpreterView<'a, N>, Result<(), ProgramErrorView>) {
    match analysis(statements) {
        Err(e) => (m, Err(ProgramErrorView::Semantic(e))),
        Ok(_) => {
            let (m1, r) = run(m, statements, 0, oracle);
            (
                m1,
                match r {
                    Ok(_) => Ok(()),
                    Err(e) => Err(ProgramErrorView::Runtime(e)),
                },
            )
        },
    }
}

/// Analyzes a program and, if it passes, runs it on the given interpreter.
/// A program that is rejected leaves the interpreter as it was; for any
/// other, the result and the state that is left are what the run comes to
/// under every oracle that has the answers recorded on the way.
pub fn analyze_and_run<'a, N: NativeFunction + Copy>(
    interpreter: &mut Interpreter<'a, N>,
    statements: &'a [Statement],
) -> (r: Result<(), ProgramError>)
    ensures
        heard_more(old(interpreter)@, final(interpreter)@),
        forall|oracle: Oracle|
            #![trigger spec_analyze_and_run(old(interpreter)@, statements, oracle)]
            foretells(
                oracle,
                final(interpreter)@.answers,
                old(interpreter)@.answers.len() as int,
            ) ==> spec_analyze_and_run(old(interpreter)@, statements, oracle) == (
                final(interpreter)@,
                completed(r),
            ),
        spec_analyze_and_run(
            old(interpreter)@,
            statements,
            told(final(interpreter)@.answers),
        ) == (final(interpreter)@, completed(r)),
        analysis(statements) is Err ==> final(interpreter)@ == old(interpreter)@,
{
    match analyze(statements) {
        Err(e) => Err(ProgramError::Semantic(e)),
        Ok(_) => {
            let ran = interpreter.interpret(statements);
            proof {
                assert forall|oracle: Oracle|
                    #![trigger spec_analyze_and_run(old(interpreter)@, statements, oracle)]
                    foretells(
                        oracle,
                        interpreter@.answers,
                        old(interpreter)@.answers.len() as int,
                    ) implies run(old(interpreter)@, statements, 0, oracle) == (
                    interpreter@,
                    crate::interpreter::located(ran),
                ) by {}
            }
            match ran {
                Ok(_) => Ok(()),
                Err(e) => Err(ProgramError::Runtime(e)),
            }
        },
    }
}

/// What a run leaves behind: the lines it wrote, the exit code if the
/// program asked to leave, and whether it completed.
#[derive(Debug)]
pub struct Report {
    pub output: Vec<String>,
    pub exit_code: Option<i32>,
    pub result: Result<(), ProgramError>,
}

/// The mathematical value of a [`Report`].
pub struct ReportView {
    pub output: Seq<Seq<char>>,
    pub exit_code: Option<i32>,
    pub result: Result<(), ProgramErrorView>,
}

impl View for Report {
    type V = ReportView;

    open spec fn view(&self) -> ReportView {
        ReportView {
            output: lines(self.output@),
            exit_code: self.exit_code,
            result: completed(self.result),
        }
    }
}

/// What running a program with the runtime's own functions comes to: it is
/// analyzed and run from the initial state. `print` and `exit` promise their
/// answers, so no oracle has a say. A program that the analyzer rejects
/// writes nothing and leaves no exit code.
pub open spec fn spec_run_program(statements: &[Statement], fuel: u64) -> ReportView {
    let (m, result) = spec_analyze_and_run(initial(fuel), statements, told(Seq::empty()));
    ReportView { output: m.output, exit_code: m.exit_code, result }
}

/// Analyzes a program and, if it passes, runs it with `print` and `exit`
/// as its only native functions.
pub fn run_program(statements: &[Statement], fuel: u64) -> (report: Report)
    ensures
        report@ == spec_run_program(statements, fuel),
        analysis(statements) is Err ==> report@.output.len() == 0 && report@.exit_code is None,
{
    let mut interpreter = Interpreter::with_fuel(fuel);
    let result = analyze_and_run(&mut interpreter, statements);
    proof {
        assert(always_promises::<Intrinsic>()) by {
            assert forall|func: Intrinsic, args: Seq<ValueView>|
                (#[trigger] func.promised(args)) is Some by {}
        }
        law_promises_need_no_oracle_run(
            initial(fuel),
            statements,
            0,
            told(interpreter@.answers),
            told(Seq::empty()),
        );
    }
    let exit_code = interpreter.exit_code();
    let output = interpreter.into_output();
    Report { output, exit_code, result }
}

} // verus!
