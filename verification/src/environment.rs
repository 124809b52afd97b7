//! The runtime environment: a stack of lexical scopes and one flat table of
//! functions.
//!
//! Scopes nest and are left in the reverse order of entry. The function
//! table is not scoped: a name is defined in it once, for the whole run.

use crate::ast::{Param, Statement};
use crate::error::{RuntimeError, RuntimeErrorView};
use crate::value::{views, InterpretValue, ValueView};
use vstd::hash_map::StringHashMap;
use vstd::prelude::*;

verus! {

/// What a native function asks the interpreter to do with its result.
#[derive(Debug)]
pub enum NativeEffect {
    /// The call yields this value.
    Value(InterpretValue),
    /// This line is written, and the call yields nothing.
    Line(String),
    /// The run ends with this exit code.
    Exit(i32),
}

/// The mathematical value of a [`NativeEffect`].
pub enum NativeEffectView {
    Value(ValueView),
    Line(Seq<char>),
    Exit(i32),
}

impl View for NativeEffect {
    type V = NativeEffectView;

    open spec fn view(&self) -> NativeEffectView {
        match self {
            NativeEffect::Value(v) => NativeEffectView::Value(v@),
            NativeEffect::Line(line) => NativeEffectView::Line(line@),
            NativeEffect::Exit(code) => NativeEffectView::Exit(*code),
        }
    }
}

/// The mathematical value of what a native function hands back.
pub open spec fn native_outcome(r: Result<NativeEffect, RuntimeError>) -> Result<
    NativeEffectView,
    RuntimeErrorView,
> {
    match r {
        Ok(effect) => Ok(effect@),
        Err(e) => Err(e@),
    }
}

/// What a native function hands back: an effect, or a failure.
pub type NativeAnswer = Result<NativeEffectView, RuntimeErrorView>;

/// A function that the host supplies.
///
/// A native function takes the evaluated arguments of a call and hands back
/// an effect or a failure. It has no access to the interpreter. Nothing
/// more is asked of it: it may act on the world outside, and it may answer
/// the same arguments differently from call to call. What the interpreter
/// states of a run holds for whatever the native functions hand back.
pub trait NativeFunction {
    /// What the function promises to hand back for the given arguments, if
    /// it promises anything. An implementation that promises nothing, which
    /// is what this says unless the implementation says otherwise, is bound
    /// to nothing.
    open spec fn promised(&self, args: Seq<ValueView>) -> Option<NativeAnswer> {
        None
    }

    /// Runs the function on the arguments of a call.
    fn call(&self, args: Vec<InterpretValue>) -> (r: Result<NativeEffect, RuntimeError>)
        ensures
            self.promised(views(args@)) matches Some(answer) ==> native_outcome(r) == answer,
    ;
}

/// A callable: a function of the program, or one that the host supplies.
pub enum Function<'a, N> {
    Interpreted { params: &'a Vec<Param>, body: &'a Statement },
    Native { func: N },
}

impl<'a, N: Copy> Clone for Function<'a, N> {
    fn clone(&self) -> (r: Self)
        ensures
            r == *self,
    {
        *self
    }
}

impl<'a, N: Copy> Copy for Function<'a, N> {

}

/// The variables of one scope, by name.
pub type ScopeView = Map<Seq<char>, ValueView>;

/// The mathematical value of an [`Environment`]: the scopes from the
/// outermost to the innermost, and the function table.
#[verifier::reject_recursive_types(N)]
pub struct EnvironmentView<'a, N> {
    pub scopes: Seq<ScopeView>,
    pub functions: Map<Seq<char>, Function<'a, N>>,
}

/// The variables of a scope, each taken by its mathematical value.
pub open spec fn scope_view(scope: Map<Seq<char>, InterpretValue>) -> ScopeView {
    Map::new(|name: Seq<char>| scope.contains_key(name), |name: Seq<char>| scope[name]@)
}

/// The value of a variable: that of the innermost scope that holds the name.
pub open spec fn lookup_variable(scopes: Seq<ScopeView>, name: Seq<char>) -> Option<ValueView>
    decreases scopes.len(),
{
    if scopes.len() == 0 {
        None
    } else if scopes.last().contains_key(name) {
        Some(scopes.last()[name])
    } else {
        lookup_variable(scopes.drop_last(), name)
    }
}

/// The scopes after a variable was bound in the innermost one; `None` where
/// no scope is open.
pub open spec fn bind_variable(scopes: Seq<ScopeView>, name: Seq<char>, value: ValueView) -> Option<
    Seq<ScopeView>,
> {
    if scopes.len() == 0 {
        None
    } else {
        Some(scopes.update(scopes.len() - 1, scopes.last().insert(name, value)))
    }
}

/// The scopes after a visible variable was given a new value, in the
/// innermost scope that holds its name; `None` where no scope holds it.
pub open spec fn assign_variable(
    scopes: Seq<ScopeView>,
    name: Seq<char>,
    value: ValueView,
) -> Option<Seq<ScopeView>>
    decreases scopes.len(),
{
    if scopes.len() == 0 {
        None
    } else if scopes.last().contains_key(name) {
        Some(scopes.update(scopes.len() - 1, scopes.last().insert(name, value)))
    } else {
        match assign_variable(scopes.drop_last(), name, value) {
            Some(outer) => Some(outer.push(scopes.last())),
            None => None,
        }
    }
}

/// The scopes after the innermost one was left; an empty stack stays empty.
pub open spec fn leave_scope(scopes: Seq<ScopeView>) -> Seq<ScopeView> {
    if scopes.len() == 0 {
        scopes
    } else {
        scopes.drop_last()
    }
}

/// The runtime environment.
#[verifier::reject_recursive_types(N)]
pub struct Environment<'a, N> {
    scopes: Vec<StringHashMap<InterpretValue>>,
    functions: StringHashMap<Function<'a, N>>,
}

impl<'a, N> View for Environment<'a, N> {
    type V = EnvironmentView<'a, N>;

    closed spec fn view(&self) -> EnvironmentView<'a, N> {
        EnvironmentView {
            scopes: Seq::new(self.scopes@.len(), |i: int| scope_view(self.scopes@[i]@)),
            functions: self.functions@,
        }
    }
}

impl<'a, N: Copy> Environment<'a, N> {
    /// An environment with one empty scope and no function.
    pub fn new() -> (env: Self)
        ensures
            env@.scopes == seq![Map::<Seq<char>, ValueView>::empty()],
            env@.functions == Map::<Seq<char>, Function<'a, N>>::empty(),
    {
        let mut scopes = Vec::new();
        scopes.push(StringHashMap::new());
        let env = Environment { scopes, functions: StringHashMap::new() };
        assert(env@.scopes =~= seq![Map::<Seq<char>, ValueView>::empty()]) by {
            assert(scope_view(env.scopes@[0]@) =~= Map::<Seq<char>, ValueView>::empty());
        }
        env
    }

    /// Enters a new, empty scope.
    pub fn push_scope(&mut self)
        ensures
            final(self)@.scopes == old(self)@.scopes.push(Map::empty()),
            final(self)@.functions == old(self)@.functions,
    {
        self.scopes.push(StringHashMap::new());
        assert(self@.scopes =~= old(self)@.scopes.push(Map::empty())) by {
            assert(scope_view(self.scopes@[self.scopes@.len() - 1]@) =~= Map::<
                Seq<char>,
                ValueView,
            >::empty());
        }
    }

    /// Leaves the innermost scope, with all its variables.
    pub fn pop_scope(&mut self)
        ensures
            final(self)@.scopes == leave_scope(old(self)@.scopes),
            final(self)@.functions == old(self)@.functions,
    {
        self.scopes.pop();
        assert(self@.scopes =~= leave_scope(old(self)@.scopes));
    }

    /// Binds a variable in the innermost scope, over any binding of the
    /// same name there.
    pub fn set(&mut self, name: String, value: InterpretValue) -> (r: Result<(), RuntimeError>)
        ensures
            final(self)@.functions == old(self)@.functions,
            match bind_variable(old(self)@.scopes, name@, value@) {
                Some(scopes) => r is Ok && final(self)@.scopes == scopes,
                None => r matches Err(e) && e@ == RuntimeErrorView::NoScope && final(self)@
                    == old(self)@,
            },
    {
        let n = self.scopes.len();
        if n == 0 {
            return Err(RuntimeError::NoScope);
        }
        let ghost before = self.scopes@[n - 1]@;
        self.scopes[n - 1].insert(name, value);
        proof {
            let scopes = bind_variable(old(self)@.scopes, name@, value@)->0;
            assert(scope_view(before.insert(name@, value)) =~= scope_view(before).insert(
                name@,
                value@,
            ));
            assert(self@.scopes =~= scopes);
        }
        Ok(())
    }

    /// The value of a variable, from the innermost scope that holds it.
    pub fn get(&self, name: &str) -> (r: Result<InterpretValue, RuntimeError>)
        ensures
            match lookup_variable(self@.scopes, name@) {
                Some(value) => r matches Ok(v) && v@ == value,
                None => r matches Err(e) && e@ == (RuntimeErrorView::UndefinedVariable {
                    name: name@,
                }),
            },
    {
        let mut i = self.scopes.len();
        assert(self@.scopes.subrange(0, i as int) =~= self@.scopes);
        while i > 0
            invariant
                i <= self.scopes@.len(),
                lookup_variable(self@.scopes, name@) == lookup_variable(
                    self@.scopes.subrange(0, i as int),
                    name@,
                ),
            decreases i,
        {
            let ghost prefix = self@.scopes.subrange(0, i as int);
            assert(prefix.last() == scope_view(self.scopes@[i - 1]@));
            assert(prefix.drop_last() =~= self@.scopes.subrange(0, i - 1));
            i = i - 1;
            match self.scopes[i].get(name) {
                Some(value) => {
                    return Ok(value.clone());
                },
                None => {},
            }
        }
        Err(RuntimeError::UndefinedVariable { name: name.to_owned() })
    }

    /// Gives a visible variable a new value, in the innermost scope that
    /// holds its name.
    pub fn update(&mut self, name: String, value: InterpretValue) -> (r: Result<(), RuntimeError>)
        ensures
            final(self)@.functions == old(self)@.functions,
            match assign_variable(old(self)@.scopes, name@, value@) {
                Some(scopes) => r is Ok && final(self)@.scopes == scopes,
                None => r matches Err(e) && e@ == (RuntimeErrorView::UndefinedVariable {
                    name: name@,
                }) && final(self)@ == old(self)@,
            },
    {
        let mut i = self.scopes.len();
        while i > 0
            invariant
                *self == *old(self),
                i <= self.scopes@.len(),
                forall|k: int|
                    i <= k < self.scopes@.len() ==> !(#[trigger] self@.scopes[k]).contains_key(
                        name@,
                    ),
            decreases i,
        {
            i = i - 1;
            if self.scopes[i].contains_key(name.as_str()) {
                let ghost before = self.scopes@[i as int]@;
                self.scopes[i].insert(name, value);
                proof {
                    assert(scope_view(before.insert(name@, value)) =~= scope_view(before).insert(
                        name@,
                        value@,
                    ));
                    let updated = old(self)@.scopes.update(
                        i as int,
                        old(self)@.scopes[i as int].insert(name@, value@),
                    );
                    assert(self@.scopes =~= updated);
                    lemma_assign_found(old(self)@.scopes, name@, value@, i as int);
                }
                return Ok(());
            }
        }
        proof {
            lemma_assign_missing(self@.scopes, name@, value@);
        }
        Err(RuntimeError::UndefinedVariable { name })
    }

    /// Adds an interpreted function to the function table; fails where the
    /// name is taken, whatever it names.
    pub fn define_function(
        &mut self,
        name: String,
        params: &'a Vec<Param>,
        body: &'a Statement,
    ) -> (r: Result<(), RuntimeError>)
        ensures
            final(self)@.scopes == old(self)@.scopes,
            define(old(self)@.functions, name@, Function::Interpreted { params, body }) == (
                final(self)@.functions,
                unit_outcome(r),
            ),
    {
        self.define(name, Function::Interpreted { params, body })
    }

    /// Adds a function of the runtime to the function table; fails where
    /// the name is taken, whatever it names.
    pub fn define_native_function(&mut self, name: String, func: N) -> (r: Result<
        (),
        RuntimeError,
    >)
        ensures
            final(self)@.scopes == old(self)@.scopes,
            define(old(self)@.functions, name@, Function::Native { func }) == (
                final(self)@.functions,
                unit_outcome(r),
            ),
    {
        self.define(name, Function::Native { func })
    }

    fn define(&mut self, name: String, function: Function<'a, N>) -> (r: Result<(), RuntimeError>)
        ensures
            final(self)@.scopes == old(self)@.scopes,
            define(old(self)@.functions, name@, function) == (
                final(self)@.functions,
                unit_outcome(r),
            ),
    {
        if self.functions.contains_key(name.as_str()) {
            return Err(RuntimeError::FunctionRedefined { name });
        }
        self.functions.insert(name, function);
        assert(self@.scopes =~= old(self)@.scopes);
        Ok(())
    }

    /// The function of a name.
    pub fn get_function(&self, name: &str) -> (r: Result<Function<'a, N>, RuntimeError>)
        ensures
            match r {
                Ok(function) => self@.functions.contains_key(name@) && self@.functions[name@]
                    == function,
                Err(e) => !self@.functions.contains_key(name@) && e@
                    == (RuntimeErrorView::UndefinedFunction { name: name@ }),
            },
    {
        match self.functions.get(name) {
            Some(function) => Ok(*function),
            None => Err(RuntimeError::UndefinedFunction { name: name.to_owned() }),
        }
    }
}

/// The function table after an attempt to define a name in it, and the
/// attempt's result: a name that is taken fails and leaves the table as it
/// was.
pub open spec fn define<'a, N>(
    functions: Map<Seq<char>, Function<'a, N>>,
    name: Seq<char>,
    function: Function<'a, N>,
) -> (Map<Seq<char>, Function<'a, N>>, Result<(), RuntimeErrorView>) {
    if functions.contains_key(name) {
        (functions, Err(RuntimeErrorView::FunctionRedefined { name }))
    } else {
        (functions.insert(name, function), Ok(()))
    }
}

/// The mathematical value of a result that carries nothing on success.
pub open spec fn unit_outcome(r: Result<(), RuntimeError>) -> Result<(), RuntimeErrorView> {
    match r {
        Ok(_) => Ok(()),
        Err(e) => Err(e@),
    }
}

/// A binding made in a scope of its own is seen while the scope is open and
/// gone when it is left: the scopes are then what they were, whatever the
/// name stood for before.
pub proof fn law_shadowing_ends_with_scope(
    scopes: Seq<ScopeView>,
    name: Seq<char>,
    value: ValueView,
)
    ensures
        bind_variable(scopes.push(Map::empty()), name, value) matches Some(inner)
            && lookup_variable(inner, name) == Some(value) && leave_scope(inner) == scopes,
{
    let inner = bind_variable(scopes.push(Map::empty()), name, value)->0;
    assert(leave_scope(inner) =~= scopes);
}

/// Assignment reaches the scope at `at` when no scope inside it holds the name.
proof fn lemma_assign_found(scopes: Seq<ScopeView>, name: Seq<char>, value: ValueView, at: int)
    requires
        0 <= at < scopes.len(),
        scopes[at].contains_key(name),
        forall|k: int| at < k < scopes.len() ==> !(#[trigger] scopes[k]).contains_key(name),
    ensures
        assign_variable(scopes, name, value) == Some(
            scopes.update(at, scopes[at].insert(name, value)),
        ),
    decreases scopes.len(),
{
    if at != scopes.len() - 1 {
        let outer = scopes.drop_last();
        assert(!scopes[scopes.len() - 1].contains_key(name));
        lemma_assign_found(outer, name, value, at);
        assert(outer.update(at, outer[at].insert(name, value)).push(scopes.last())
            =~= scopes.update(at, scopes[at].insert(name, value)));
    }
}

/// Assignment fails when no scope holds the name.
proof fn lemma_assign_missing(scopes: Seq<ScopeView>, name: Seq<char>, value: ValueView)
    requires
        forall|k: int| 0 <= k < scopes.len() ==> !(#[trigger] scopes[k]).contains_key(name),
    ensures
        assign_variable(scopes, name, value) is None,
    decreases scopes.len(),
{
    if scopes.len() > 0 {
        assert(!scopes[scopes.len() - 1].contains_key(name));
        lemma_assign_missing(scopes.drop_last(), name, value);
    }
}

} // verus!
