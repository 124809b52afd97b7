//! The semantic analyzer, which every program has to pass before it runs.
//!
//! One forward pass over the statements, with a stack of scopes of its own
//! that is built as the pass goes: a name is visible from its declaration
//! to the end of the scope that holds it. Every name is resolved, every
//! expression gets a static type, and the first fault ends the pass.

use crate::ast::{Expr, Literal, Location, Operator, Param, Statement, Stmt, Type, TypeView};
use vstd::hash_map::StringHashMap;
use vstd::prelude::*;

verus! {

/// What a declared name stands for.
#[derive(Clone, Copy, Debug, PartialEq, Eq, Structural)]
pub enum SymbolKind {
    Variable,
    Function,
    Parameter,
}

/// A declared name: its kind, its static type and the place of its
/// declaration.
#[derive(Debug)]
pub struct Symbol {
    pub name: String,
    pub kind: SymbolKind,
    pub ty: Type,
    pub location: Location,
}

/// The mathematical value of a [`Symbol`].
pub struct SymbolView {
    pub name: Seq<char>,
    pub kind: SymbolKind,
    pub ty: TypeView,
    pub location: Location,
}

impl View for Symbol {
    type V = SymbolView;

    open spec fn view(&self) -> SymbolView {
        SymbolView { name: self.name@, kind: self.kind, ty: self.ty@, location: self.location }
    }
}

/// A fault that the analyzer found.
#[derive(Debug)]
pub enum SemanticError {
    /// A variable is used that no enclosing scope declares.
    UndeclaredVariable { name: String, location: Location },
    /// A function is called that no enclosing scope declares.
    UndeclaredFunction { name: String, location: Location },
    /// A name is declared again in the scope that already holds it.
    Redeclaration { kind: SymbolKind, name: String, location: Location },
    /// The operands of a binary operator differ in type.
    BinaryTypeMismatch { location: Location, left: Type, right: Type },
    /// The two sides of an assignment differ in type.
    AssignmentTypeMismatch { location: Location, target: Type, value: Type },
    /// The declared type of a `let` differs from the type of its value.
    LetTypeMismatch { location: Location, declared: Type, assigned: Type },
    /// The two branches of an `if` differ in type.
    BranchTypeMismatch { location: Location, then_type: Type, else_type: Type },
    /// The condition of an `if` or a `while` is not a boolean.
    NonBooleanCondition { location: Location, found: Type },
    /// An operand of a logical operator is not a boolean.
    NonBooleanOperand { location: Location, found: Type },
    /// Something that is not a pointer is dereferenced.
    InvalidDereference { location: Location },
    /// A name is declared while no scope is open.
    NoScope,
}

/// The mathematical value of a [`SemanticError`].
pub enum SemanticErrorView {
    UndeclaredVariable { name: Seq<char>, location: Location },
    UndeclaredFunction { name: Seq<char>, location: Location },
    Redeclaration { kind: SymbolKind, name: Seq<char>, location: Location },
    BinaryTypeMismatch { location: Location, left: TypeView, right: TypeView },
    AssignmentTypeMismatch { location: Location, target: TypeView, value: TypeView },
    LetTypeMismatch { location: Location, declared: TypeView, assigned: TypeView },
    BranchTypeMismatch { location: Location, then_type: TypeView, else_type: TypeView },
    NonBooleanCondition { location: Location, found: TypeView },
    NonBooleanOperand { location: Location, found: TypeView },
    InvalidDereference { location: Location },
    NoScope,
}

impl View for SemanticError {
    type V = SemanticErrorView;

    open spec fn view(&self) -> SemanticErrorView {
        match self {
            SemanticError::UndeclaredVariable { name, location } => {
                SemanticErrorView::UndeclaredVariable { name: name@, location: *location }
            },
            SemanticError::UndeclaredFunction { name, location } => {
                SemanticErrorView::UndeclaredFunction { name: name@, location: *location }
            },
            SemanticError::Redeclaration { kind, name, location } => {
                SemanticErrorView::Redeclaration { kind: *kind, name: name@, location: *location }
            },
            SemanticError::BinaryTypeMismatch { location, left, right } => {
                SemanticErrorView::BinaryTypeMismatch {
                    location: *location,
                    left: left@,
                    right: right@,
                }
            },
            SemanticError::AssignmentTypeMismatch { location, target, value } => {
                SemanticErrorView::AssignmentTypeMismatch {
                    location: *location,
                    target: target@,
                    value: value@,
                }
            },
            SemanticError::LetTypeMismatch { location, declared, assigned } => {
                SemanticErrorView::LetTypeMismatch {
                    location: *location,
                    declared: declared@,
                    assigned: assigned@,
                }
            },
            SemanticError::BranchTypeMismatch { location, then_type, else_type } => {
                SemanticErrorView::BranchTypeMismatch {
                    location: *location,
                    then_type: then_type@,
                    else_type: else_type@,
                }
            },
            SemanticError::NonBooleanCondition { location, found } => {
                SemanticErrorView::NonBooleanCondition { location: *location, found: found@ }
            },
            SemanticError::NonBooleanOperand { location, found } => {
                SemanticErrorView::NonBooleanOperand { location: *location, found: found@ }
            },
            SemanticError::InvalidDereference { location } => {
                SemanticErrorView::InvalidDereference { location: *location }
            },
            SemanticError::NoScope => SemanticErrorView::NoScope,
        }
    }
}

/// The symbols of one scope, by name.
pub type SymbolScope = Map<Seq<char>, SymbolView>;

/// The symbols of a scope, each taken by its mathematical value.
pub open spec fn symbols_view(symbols: Map<Seq<char>, Symbol>) -> SymbolScope {
    Map::new(|name: Seq<char>| symbols.contains_key(name), |name: Seq<char>| symbols[name]@)
}

/// The symbol of a name: that of the innermost scope that holds the name.
pub open spec fn lookup_symbol(scopes: Seq<SymbolScope>, name: Seq<char>) -> Option<SymbolView>
    decreases scopes.len(),
{
    if scopes.len() == 0 {
        None
    } else if scopes.last().contains_key(name) {
        Some(scopes.last()[name])
    } else {
        lookup_symbol(scopes.drop_last(), name)
    }
}

/// A scope after a symbol was declared in it; a fault where the scope
/// already holds the name.
pub open spec fn insert_symbol(scope: SymbolScope, sym: SymbolView) -> Result<
    SymbolScope,
    SemanticErrorView,
> {
    if scope.contains_key(sym.name) {
        Err(
            SemanticErrorView::Redeclaration {
                kind: sym.kind,
                name: sym.name,
                location: sym.location,
            },
        )
    } else {
        Ok(scope.insert(sym.name, sym))
    }
}

/// The scopes after a symbol was declared in the innermost one.
pub open spec fn declare_symbol(scopes: Seq<SymbolScope>, sym: SymbolView) -> Result<
    Seq<SymbolScope>,
    SemanticErrorView,
> {
    if scopes.len() == 0 {
        Err(SemanticErrorView::NoScope)
    } else {
        match insert_symbol(scopes.last(), sym) {
            Ok(scope) => Ok(scopes.update(scopes.len() - 1, scope)),
            Err(e) => Err(e),
        }
    }
}

/// The scopes after the parameters from the one at `from` on were declared
/// in the innermost scope, in order.
pub open spec fn declare_params(
    scopes: Seq<SymbolScope>,
    params: Seq<Param>,
    from: nat,
    location: Location,
) -> Result<Seq<SymbolScope>, SemanticErrorView>
    decreases params.len() - from,
{
    if from >= params.len() {
        Ok(scopes)
    } else {
        match declare_symbol(
            scopes,
            SymbolView {
                name: params[from as int].name@,
                kind: SymbolKind::Parameter,
                ty: params[from as int].ty@,
                location,
            },
        ) {
            Ok(next) => declare_params(next, params, from + 1, location),
            Err(e) => Err(e),
        }
    }
}

/// The type of string literals.
pub open spec fn string_type() -> TypeView {
    TypeView::Named(seq!['S', 't', 'r', 'i', 'n', 'g'])
}

/// The type of a literal.
pub open spec fn literal_type(lit: Literal) -> TypeView {
    match lit {
        Literal::Numeric(_, ty) => TypeView::Numeric(ty),
        Literal::String(_) => string_type(),
        Literal::Boolean(_) => TypeView::Boolean,
    }
}

/// The type of a binary expression whose operands both have the type
/// `operand`: the logical operators ask for booleans and yield one, the
/// comparisons yield a boolean, every other operator yields the type of
/// its operands.
pub open spec fn binary_type(operator: Operator, operand: TypeView, location: Location) -> Result<
    TypeView,
    SemanticErrorView,
> {
    if operator.is_logical() {
        if operand == TypeView::Boolean {
            Ok(TypeView::Boolean)
        } else {
            Err(SemanticErrorView::NonBooleanOperand { location, found: operand })
        }
    } else if operator.is_comparison() {
        Ok(TypeView::Boolean)
    } else {
        Ok(operand)
    }
}

/// The type of a unary expression whose operand has the type `operand`.
pub open spec fn unary_type(operator: Operator, operand: TypeView, location: Location) -> Result<
    TypeView,
    SemanticErrorView,
> {
    match operator {
        Operator::AddressOf => Ok(TypeView::Pointer(Box::new(operand))),
        Operator::Dereference => match operand {
            TypeView::Pointer(inner) => Ok(*inner),
            _ => Err(SemanticErrorView::InvalidDereference { location }),
        },
        Operator::LogicalNot => if operand == TypeView::Boolean {
            Ok(TypeView::Boolean)
        } else {
            Err(SemanticErrorView::NonBooleanOperand { location, found: operand })
        },
        _ => Ok(operand),
    }
}

/// The static type of an expression in the given scopes, or the first
/// fault in it. `location` is the place of the statement that holds the
/// expression.
pub open spec fn expr_type(scopes: Seq<SymbolScope>, expr: &Expr, location: Location) -> Result<
    TypeView,
    SemanticErrorView,
>
    decreases expr, 0nat,
{
    match expr {
        Expr::Literal(lit) => Ok(literal_type(*lit)),
        Expr::Variable(name) => match lookup_symbol(scopes, name@) {
            Some(sym) => Ok(sym.ty),
            None => Err(SemanticErrorView::UndeclaredVariable { name: name@, location }),
        },
        Expr::Binary { left, operator, right } => match expr_type(scopes, &**left, location) {
            Err(e) => Err(e),
            Ok(l) => match expr_type(scopes, &**right, location) {
                Err(e) => Err(e),
                Ok(r) => if l != r {
                    Err(SemanticErrorView::BinaryTypeMismatch { location, left: l, right: r })
                } else {
                    binary_type(*operator, l, location)
                },
            },
        },
        Expr::Unary { operator, operand } => match expr_type(scopes, &**operand, location) {
            Err(e) => Err(e),
            Ok(t) => unary_type(*operator, t, location),
        },
        Expr::Assignment { target, value } => match expr_type(scopes, &**target, location) {
            Err(e) => Err(e),
            Ok(t) => match expr_type(scopes, &**value, location) {
                Err(e) => Err(e),
                Ok(v) => if t != v {
                    Err(
                        SemanticErrorView::AssignmentTypeMismatch {
                            location,
                            target: t,
                            value: v,
                        },
                    )
                } else {
                    Ok(t)
                },
            },
        },
        Expr::If { condition, then_branch, else_branch } => match expr_type(
            scopes,
            &**condition,
            location,
        ) {
            Err(e) => Err(e),
            Ok(c) => if c != TypeView::Boolean {
                Err(SemanticErrorView::NonBooleanCondition { location, found: c })
            } else {
                match block_type(scopes.push(Map::empty()), then_branch, 0, TypeView::Void) {
                    Err(e) => Err(e),
                    Ok(t) => match else_branch {
                        None => Ok(t),
                        Some(stmts) => match block_type(
                            scopes.push(Map::empty()),
                            stmts,
                            0,
                            TypeView::Void,
                        ) {
                            Err(e) => Err(e),
                            Ok(f) => if t != f {
                                Err(
                                    SemanticErrorView::BranchTypeMismatch {
                                        location,
                                        then_type: t,
                                        else_type: f,
                                    },
                                )
                            } else {
                                Ok(t)
                            },
                        },
                    },
                }
            },
        },
        Expr::FunctionCall { name, arguments } => match lookup_symbol(scopes, name@) {
            None => Err(SemanticErrorView::UndeclaredFunction { name: name@, location }),
            Some(sym) => match args_type(scopes, arguments, 0, location) {
                Err(e) => Err(e),
                Ok(_) => Ok(sym.ty),
            },
        },
    }
}

/// The first fault among the arguments from the one at `from` on, if any.
pub open spec fn args_type(
    scopes: Seq<SymbolScope>,
    args: &Vec<Expr>,
    from: nat,
    location: Location,
) -> Result<(), SemanticErrorView>
    decreases args, args.len() - from,
{
    if from >= args.len() {
        Ok(())
    } else {
        match expr_type(scopes, &args[from as int], location) {
            Err(e) => Err(e),
            Ok(_) => args_type(scopes, args, from + 1, location),
        }
    }
}

/// The type of a list of statements from the one at `from` on: that of the
/// last statement, or `last` where none is left. Each statement is analyzed
/// in the scopes that the one before it left.
pub open spec fn block_type(
    scopes: Seq<SymbolScope>,
    stmts: &Vec<Statement>,
    from: nat,
    last: TypeView,
) -> Result<TypeView, SemanticErrorView>
    decreases stmts, stmts.len() - from,
{
    if from >= stmts.len() {
        Ok(last)
    } else {
        match build_stmt(scopes, &stmts[from as int]) {
            Err(e) => Err(e),
            Ok((next, t)) => block_type(next, stmts, from + 1, t),
        }
    }
}

/// The scopes that a statement leaves and the statement's type, or the
/// first fault in it. Only a `let` and a function definition leave the
/// scopes changed: by the name they declare in the innermost scope.
pub open spec fn build_stmt(scopes: Seq<SymbolScope>, statement: &Statement) -> Result<
    (Seq<SymbolScope>, TypeView),
    SemanticErrorView,
>
    decreases statement, 0nat,
{
    let location = statement.location;
    match &statement.stmt {
        Stmt::Let { name, ty, value } => match expr_type(scopes, value, location) {
            Err(e) => Err(e),
            Ok(v) => {
                let declared = match ty {
                    Some(t) => t@,
                    None => v,
                };
                match declare_symbol(
                    scopes,
                    SymbolView { name: name@, kind: SymbolKind::Variable, ty: declared, location },
                ) {
                    Err(e) => Err(e),
                    Ok(next) => if declared != v {
                        Err(
                            SemanticErrorView::LetTypeMismatch {
                                location,
                                declared,
                                assigned: v,
                            },
                        )
                    } else {
                        Ok((next, TypeView::Void))
                    },
                }
            },
        },
        Stmt::Func { name, params, ty, body } => match declare_symbol(
            scopes,
            SymbolView { name: name@, kind: SymbolKind::Function, ty: ty@, location },
        ) {
            Err(e) => Err(e),
            Ok(next) => match declare_params(next.push(Map::empty()), params@, 0, location) {
                Err(e) => Err(e),
                Ok(inner) => match build_stmt(inner, &**body) {
                    Err(e) => Err(e),
                    Ok(_) => Ok((next, ty@)),
                },
            },
        },
        Stmt::Expr(expr) => match expr_type(scopes, expr, location) {
            Err(e) => Err(e),
            Ok(t) => Ok((scopes, t)),
        },
        Stmt::Scope { statements } => match block_type(
            scopes.push(Map::empty()),
            statements,
            0,
            TypeView::Void,
        ) {
            Err(e) => Err(e),
            Ok(t) => Ok((scopes, t)),
        },
        Stmt::While { condition, body } => match expr_type(scopes, condition, location) {
            Err(e) => Err(e),
            Ok(c) => if c != TypeView::Boolean {
                Err(SemanticErrorView::NonBooleanCondition { location, found: c })
            } else {
                match build_stmt(scopes, &**body) {
                    Err(e) => Err(e),
                    Ok((next, _)) => Ok((next, TypeView::Void)),
                }
            },
        },
        Stmt::Return { value } => match value {
            Some(expr) => match expr_type(scopes, expr, location) {
                Err(e) => Err(e),
                Ok(t) => Ok((scopes, t)),
            },
            None => Ok((scopes, TypeView::Void)),
        },
        Stmt::Break => Ok((scopes, TypeView::Void)),
        Stmt::Continue => Ok((scopes, TypeView::Void)),
    }
}

/// What analyzing the top-level statements from the one at `from` on
/// comes to: the scopes at the end, or the first fault.
pub open spec fn build_all(scopes: Seq<SymbolScope>, statements: &[Statement], from: nat) -> Result<
    Seq<SymbolScope>,
    SemanticErrorView,
>
    decreases statements@.len() - from,
{
    if from >= statements@.len() {
        Ok(scopes)
    } else {
        match build_stmt(scopes, &statements[from as int]) {
            Err(e) => Err(e),
            Ok((next, _)) => build_all(next, statements, from + 1),
        }
    }
}

/// The symbol under which a function of the runtime is declared before
/// the pass begins.
pub open spec fn intrinsic_symbol(name: Seq<char>) -> SymbolView {
    SymbolView {
        name,
        kind: SymbolKind::Function,
        ty: TypeView::Void,
        location: Location { line: 0, column: 0 },
    }
}

/// What analyzing a program comes to: `print` and `exit` are declared,
/// then the statements are analyzed in order.
pub open spec fn build(scopes: Seq<SymbolScope>, statements: &[Statement]) -> Result<
    Seq<SymbolScope>,
    SemanticErrorView,
> {
    match declare_symbol(scopes, intrinsic_symbol(seq!['p', 'r', 'i', 'n', 't'])) {
        Err(e) => Err(e),
        Ok(first) => match declare_symbol(first, intrinsic_symbol(seq!['e', 'x', 'i', 't'])) {
            Err(e) => Err(e),
            Ok(second) => build_all(second, statements, 0),
        },
    }
}

/// What the analysis of a program says, starting from a fresh table.
pub open spec fn analysis(statements: &[Statement]) -> Result<(), SemanticErrorView> {
    match build(seq![Map::<Seq<char>, SymbolView>::empty()], statements) {
        Ok(_) => Ok(()),
        Err(e) => Err(e),
    }
}

/// Whether two stacks of scopes agree in all but the innermost scope.
pub open spec fn same_outside(a: Seq<SymbolScope>, b: Seq<SymbolScope>) -> bool {
    a.len() == b.len() && a.drop_last() == b.drop_last()
}

/// One scope of the analyzer.
pub struct Scope {
    symbols: StringHashMap<Symbol>,
}

impl View for Scope {
    type V = SymbolScope;

    closed spec fn view(&self) -> SymbolScope {
        symbols_view(self.symbols@)
    }
}

impl Scope {
    /// An empty scope.
    pub fn new() -> (r: Self)
        ensures
            r@ == Map::<Seq<char>, SymbolView>::empty(),
    {
        let r = Scope { symbols: StringHashMap::new() };
        assert(r@ =~= Map::<Seq<char>, SymbolView>::empty());
        r
    }

    /// Declares a symbol; a name that the scope already holds is a fault.
    pub fn insert(&mut self, sym: Symbol) -> (r: Result<(), SemanticError>)
        ensures
            match insert_symbol(old(self)@, sym@) {
                Ok(scope) => r is Ok && final(self)@ == scope,
                Err(e) => r matches Err(x) && x@ == e && final(self)@ == old(self)@,
            },
    {
        if self.symbols.contains_key(sym.name.as_str()) {
            return Err(
                SemanticError::Redeclaration {
                    kind: sym.kind,
                    name: sym.name,
                    location: sym.location,
                },
            );
        }
        let name = sym.name.clone();
        self.symbols.insert(name, sym);
        assert(self@ =~= old(self)@.insert(sym@.name, sym@));
        Ok(())
    }

    /// The symbol of a name, if the scope holds it.
    pub fn get(&self, name: &str) -> (r: Option<&Symbol>)
        ensures
            match r {
                Some(sym) => self@.contains_key(name@) && self@[name@] == sym@,
                None => !self@.contains_key(name@),
            },
    {
        self.symbols.get(name)
    }
}

/// The analyzer's stack of scopes.
pub struct SymbolTable {
    scopes: Vec<Scope>,
}

impl View for SymbolTable {
    type V = Seq<SymbolScope>;

    closed spec fn view(&self) -> Seq<SymbolScope> {
        Seq::new(self.scopes@.len(), |i: int| self.scopes@[i]@)
    }
}

impl SymbolTable {
    /// A table with one empty scope.
    pub fn new() -> (r: Self)
        ensures
            r@ == seq![Map::<Seq<char>, SymbolView>::empty()],
    {
        let mut scopes = Vec::new();
        scopes.push(Scope::new());
        let r = SymbolTable { scopes };
        assert(r@ =~= seq![Map::<Seq<char>, SymbolView>::empty()]);
        r
    }

    /// Enters a new, empty scope.
    pub fn push_scope(&mut self)
        ensures
            final(self)@ == old(self)@.push(Map::empty()),
    {
        self.scopes.push(Scope::new());
        assert(self@ =~= old(self)@.push(Map::empty()));
    }

    /// Leaves the innermost scope.
    pub fn pop_scope(&mut self)
        ensures
            final(self)@ == (if old(self)@.len() == 0 {
                old(self)@
            } else {
                old(self)@.drop_last()
            }),
    {
        self.scopes.pop();
        assert(self@ =~= (if old(self)@.len() == 0 {
            old(self)@
        } else {
            old(self)@.drop_last()
        }));
    }

    /// Declares a symbol in the innermost scope. A fault leaves the table as
    /// it was.
    pub fn declare(&mut self, sym: Symbol) -> (r: Result<(), SemanticError>)
        ensures
            match declare_symbol(old(self)@, sym@) {
                Ok(scopes) => r is Ok && final(self)@ == scopes && same_outside(
                    old(self)@,
                    final(self)@,
                ),
                Err(e) => r matches Err(x) && x@ == e && final(self)@ == old(self)@,
            },
    {
        let n = self.scopes.len();
        if n == 0 {
            return Err(SemanticError::NoScope);
        }
        let r = self.scopes[n - 1].insert(sym);
        proof {
            if r is Ok {
                let scopes = declare_symbol(old(self)@, sym@)->Ok_0;
                assert(self@ =~= scopes);
                assert(self@.drop_last() =~= old(self)@.drop_last());
            } else {
                assert(self@ =~= old(self)@);
            }
        }
        r
    }

    /// The symbol of a name, from the innermost scope that holds it.
    pub fn lookup(&self, name: &str) -> (r: Option<&Symbol>)
        ensures
            match lookup_symbol(self@, name@) {
                Some(sym) => r matches Some(found) && found@ == sym,
                None => r is None,
            },
    {
        let mut i = self.scopes.len();
        assert(self@.subrange(0, i as int) =~= self@);
        while i > 0
            invariant
                i <= self.scopes@.len(),
                lookup_symbol(self@, name@) == lookup_symbol(self@.subrange(0, i as int), name@),
            decreases i,
        {
            let ghost prefix = self@.subrange(0, i as int);
            assert(prefix.last() == self.scopes@[i - 1]@);
            assert(prefix.drop_last() =~= self@.subrange(0, i - 1));
            i = i - 1;
            match self.scopes[i].get(name) {
                Some(sym) => {
                    return Some(sym);
                },
                None => {},
            }
        }
        None
    }

    /// Computes the static type of an expression and reports the first
    /// fault in it. Whatever the result, the table is left as it was found:
    /// every scope that was entered on the way has been left again.
    pub fn expr_type(&mut self, expr: &Expr, location: Location) -> (r: Result<Type, SemanticError>)
        ensures
            final(self)@ == old(self)@,
            match expr_type(old(self)@, expr, location) {
                Ok(t) => r matches Ok(x) && x@ == t,
                Err(e) => r matches Err(x) && x@ == e,
            },
        decreases expr, 0nat,
    {
        match expr {
            Expr::Literal(lit) => match lit {
                Literal::Numeric(_, ty) => Ok(Type::Numeric(*ty)),
                Literal::String(_) => {
                    proof {
                        reveal_strlit("String");
                    }
                    let name = "String".to_owned();
                    assert(name@ =~= seq!['S', 't', 'r', 'i', 'n', 'g']);
                    Ok(Type::Named(name))
                },
                Literal::Boolean(_) => Ok(Type::Boolean),
            },
            Expr::Variable(name) => match self.lookup(name.as_str()) {
                Some(sym) => Ok(sym.ty.clone()),
                None => Err(
                    SemanticError::UndeclaredVariable { name: name.clone(), location },
                ),
            },
            Expr::Binary { left, operator, right } => {
                let l = match self.expr_type(&**left, location) {
                    Ok(t) => t,
                    Err(e) => {
                        return Err(e);
                    },
                };
                let r = match self.expr_type(&**right, location) {
                    Ok(t) => t,
                    Err(e) => {
                        return Err(e);
                    },
                };
                if !l.same(&r) {
                    return Err(SemanticError::BinaryTypeMismatch { location, left: l, right: r });
                }
                match operator {
                    Operator::LogicalAnd | Operator::LogicalOr | Operator::LogicalNot => {
                        match l {
                            Type::Boolean => Ok(Type::Boolean),
                            _ => Err(SemanticError::NonBooleanOperand { location, found: l }),
                        }
                    },
                    Operator::Equals
                    | Operator::NotEquals
                    | Operator::Less
                    | Operator::LessEquals
                    | Operator::Greater
                    | Operator::GreaterEquals => Ok(Type::Boolean),
                    _ => Ok(l),
                }
            },
            Expr::Unary { operator, operand } => {
                let t = match self.expr_type(&**operand, location) {
                    Ok(t) => t,
                    Err(e) => {
                        return Err(e);
                    },
                };
                match operator {
                    Operator::AddressOf => Ok(Type::Pointer(Box::new(t))),
                    Operator::Dereference => match t {
                        Type::Pointer(inner) => Ok(*inner),
                        _ => Err(SemanticError::InvalidDereference { location }),
                    },
                    Operator::LogicalNot => match t {
                        Type::Boolean => Ok(Type::Boolean),
                        _ => Err(SemanticError::NonBooleanOperand { location, found: t }),
                    },
                    _ => Ok(t),
                }
            },
            Expr::Assignment { target, value } => {
                let t = match self.expr_type(&**target, location) {
                    Ok(t) => t,
                    Err(e) => {
                        return Err(e);
                    },
                };
                let v = match self.expr_type(&**value, location) {
                    Ok(t) => t,
                    Err(e) => {
                        return Err(e);
                    },
                };
                if !t.same(&v) {
                    return Err(
                        SemanticError::AssignmentTypeMismatch { location, target: t, value: v },
                    );
                }
                Ok(t)
            },
            Expr::If { condition, then_branch, else_branch } => {
                let c = match self.expr_type(&**condition, location) {
                    Ok(t) => t,
                    Err(e) => {
                        return Err(e);
                    },
                };
                match c {
                    Type::Boolean => {},
                    _ => {
                        return Err(SemanticError::NonBooleanCondition { location, found: c });
                    },
                }
                let t = match self.scope_type(then_branch) {
                    Ok(t) => t,
                    Err(e) => {
                        return Err(e);
                    },
                };
                match else_branch {
                    None => Ok(t),
                    Some(stmts) => {
                        let f = match self.scope_type(stmts) {
                            Ok(t) => t,
                            Err(e) => {
                                return Err(e);
                            },
                        };
                        if !t.same(&f) {
                            return Err(
                                SemanticError::BranchTypeMismatch {
                                    location,
                                    then_type: t,
                                    else_type: f,
                                },
                            );
                        }
                        Ok(t)
                    },
                }
            },
            Expr::FunctionCall { name, arguments } => {
                let ty = match self.lookup(name.as_str()) {
                    Some(sym) => sym.ty.clone(),
                    None => {
                        return Err(
                            SemanticError::UndeclaredFunction { name: name.clone(), location },
                        );
                    },
                };
                match self.args_type(arguments, location) {
                    Ok(_) => {},
                    Err(e) => {
                        return Err(e);
                    },
                }
                Ok(ty)
            },
        }
    }

    /// Analyzes the arguments of a call from left to right.
    fn args_type(&mut self, args: &Vec<Expr>, location: Location) -> (r: Result<(), SemanticError>)
        ensures
            final(self)@ == old(self)@,
            match args_type(old(self)@, args, 0, location) {
                Ok(_) => r is Ok,
                Err(e) => r matches Err(x) && x@ == e,
            },
        decreases args, 0nat,
    {
        let mut i: usize = 0;
        while i < args.len()
            invariant
                i <= args@.len(),
                self@ == old(self)@,
                args_type(old(self)@, args, 0, location) == args_type(
                    self@,
                    args,
                    i as nat,
                    location,
                ),
            decreases args@.len() - i,
        {
            match self.expr_type(&args[i], location) {
                Ok(_) => {},
                Err(e) => {
                    return Err(e);
                },
            }
            i = i + 1;
        }
        Ok(())
    }

    /// Declares the parameters of a function in the innermost scope.
    fn declare_params(&mut self, params: &Vec<Param>, location: Location) -> (r: Result<
        (),
        SemanticError,
    >)
        ensures
            same_outside(old(self)@, final(self)@),
            match declare_params(old(self)@, params@, 0, location) {
                Ok(scopes) => r is Ok && final(self)@ == scopes,
                Err(e) => r matches Err(x) && x@ == e,
            },
    {
        let mut i: usize = 0;
        while i < params.len()
            invariant
                i <= params@.len(),
                same_outside(old(self)@, self@),
                declare_params(old(self)@, params@, 0, location) == declare_params(
                    self@,
                    params@,
                    i as nat,
                    location,
                ),
            decreases params@.len() - i,
        {
            match self.declare(
                Symbol {
                    name: params[i].name.clone(),
                    kind: SymbolKind::Parameter,
                    ty: params[i].ty.clone(),
                    location,
                },
            ) {
                Ok(_) => {},
                Err(e) => {
                    return Err(e);
                },
            }
            i = i + 1;
        }
        Ok(())
    }

    /// Computes the type of a list of statements in a scope of its own.
    fn scope_type(&mut self, stmts: &Vec<Statement>) -> (r: Result<Type, SemanticError>)
        ensures
            final(self)@ == old(self)@,
            match block_type(old(self)@.push(Map::empty()), stmts, 0, TypeView::Void) {
                Ok(t) => r matches Ok(x) && x@ == t,
                Err(e) => r matches Err(x) && x@ == e,
            },
        decreases stmts, 1nat,
    {
        self.push_scope();
        let r = self.block_type(stmts);
        self.pop_scope();
        assert(self@ =~= old(self)@);
        r
    }

    /// Analyzes a list of statements in the current scope and computes its
    /// type: that of its last statement, `Void` for an empty list. Whatever
    /// the result, only the innermost scope can have changed.
    pub fn block_type(&mut self, stmts: &Vec<Statement>) -> (r: Result<Type, SemanticError>)
        ensures
            same_outside(old(self)@, final(self)@),
            match block_type(old(self)@, stmts, 0, TypeView::Void) {
                Ok(t) => r matches Ok(x) && x@ == t,
                Err(e) => r matches Err(x) && x@ == e,
            },
        decreases stmts, 0nat,
    {
        let mut last = Type::Void;
        let mut i: usize = 0;
        while i < stmts.len()
            invariant
                i <= stmts@.len(),
                same_outside(old(self)@, self@),
                block_type(old(self)@, stmts, 0, TypeView::Void) == block_type(
                    self@,
                    stmts,
                    i as nat,
                    last@,
                ),
            decreases stmts@.len() - i,
        {
            match self.build_stmt(&stmts[i]) {
                Ok(t) => {
                    last = t;
                },
                Err(e) => {
                    return Err(e);
                },
            }
            i = i + 1;
        }
        Ok(last)
    }

    /// Analyzes a statement: resolves its names, declares what it declares
    /// and computes its type. Whatever the result, only the innermost scope
    /// can have changed, and as many scopes are open as before.
    pub fn build_stmt(&mut self, statement: &Statement) -> (r: Result<Type, SemanticError>)
        ensures
            same_outside(old(self)@, final(self)@),
            match build_stmt(old(self)@, statement) {
                Ok((scopes, t)) => r matches Ok(x) && x@ == t && final(self)@ == scopes,
                Err(e) => r matches Err(x) && x@ == e,
            },
        decreases statement, 0nat,
    {
        let location = statement.location;
        match &statement.stmt {
            Stmt::Let { name, ty, value } => {
                let v = match self.expr_type(value, location) {
                    Ok(t) => t,
                    Err(e) => {
                        return Err(e);
                    },
                };
                let declared = match ty {
                    Some(t) => t.clone(),
                    None => v.clone(),
                };
                match self.declare(
                    Symbol {
                        name: name.clone(),
                        kind: SymbolKind::Variable,
                        ty: declared.clone(),
                        location,
                    },
                ) {
                    Ok(_) => {},
                    Err(e) => {
                        return Err(e);
                    },
                }
                if !declared.same(&v) {
                    return Err(SemanticError::LetTypeMismatch { location, declared, assigned: v });
                }
                Ok(Type::Void)
            },
            Stmt::Func { name, params, ty, body } => {
                match self.declare(
                    Symbol {
                        name: name.clone(),
                        kind: SymbolKind::Function,
                        ty: ty.clone(),
                        location,
                    },
                ) {
                    Ok(_) => {},
                    Err(e) => {
                        return Err(e);
                    },
                }
                let ghost outer = self@;
                self.push_scope();
                let inside = match self.declare_params(params, location) {
                    Ok(_) => self.build_stmt(&**body),
                    Err(e) => Err(e),
                };
                self.pop_scope();
                assert(self@ =~= outer);
                match inside {
                    Ok(_) => Ok(ty.clone()),
                    Err(e) => Err(e),
                }
            },
            Stmt::Expr(expr) => self.expr_type(expr, location),
            Stmt::Scope { statements } => self.scope_type(statements),
            Stmt::While { condition, body } => {
                let c = match self.expr_type(condition, location) {
                    Ok(t) => t,
                    Err(e) => {
                        return Err(e);
                    },
                };
                match c {
                    Type::Boolean => {},
                    _ => {
                        return Err(SemanticError::NonBooleanCondition { location, found: c });
                    },
                }
                match self.build_stmt(&**body) {
                    Ok(_) => Ok(Type::Void),
                    Err(e) => Err(e),
                }
            },
            Stmt::Return { value } => match value {
                Some(expr) => self.expr_type(expr, location),
                None => Ok(Type::Void),
            },
            Stmt::Break => Ok(Type::Void),
            Stmt::Continue => Ok(Type::Void),
        }
    }

    /// Analyzes a program: declares the functions of the runtime, then
    /// analyzes the statements in order, up to the first fault. Whatever the
    /// result, only the innermost scope can have changed.
    pub fn build(&mut self, statements: &[Statement]) -> (r: Result<(), SemanticError>)
        ensures
            same_outside(old(self)@, final(self)@),
            match build(old(self)@, statements) {
                Ok(scopes) => r is Ok && final(self)@ == scopes,
                Err(e) => r matches Err(x) && x@ == e,
            },
    {
        proof {
            reveal_strlit("print");
            reveal_strlit("exit");
        }
        let print = "print".to_owned();
        let exit = "exit".to_owned();
        assert(print@ =~= seq!['p', 'r', 'i', 'n', 't']);
        assert(exit@ =~= seq!['e', 'x', 'i', 't']);
        match self.declare(
            Symbol {
                name: print,
                kind: SymbolKind::Function,
                ty: Type::Void,
                location: Location::default(),
            },
        ) {
            Ok(_) => {},
            Err(e) => {
                return Err(e);
            },
        }
        match self.declare(
            Symbol {
                name: exit,
                kind: SymbolKind::Function,
                ty: Type::Void,
                location: Location::default(),
            },
        ) {
            Ok(_) => {},
            Err(e) => {
                return Err(e);
            },
        }
        let mut i: usize = 0;
        while i < statements.len()
            invariant
                i <= statements@.len(),
                same_outside(old(self)@, self@),
                build(old(self)@, statements) == build_all(self@, statements, i as nat),
            decreases statements@.len() - i,
        {
            match self.build_stmt(&statements[i]) {
                Ok(_) => {},
                Err(e) => {
                    return Err(e);
                },
            }
            i = i + 1;
        }
        Ok(())
    }
}

/// Analyzes a program in a fresh table. A program must pass before it runs.
pub fn analyze(statements: &[Statement]) -> (r: Result<(), SemanticError>)
    ensures
        match analysis(statements) {
            Ok(_) => r is Ok,
            Err(e) => r matches Err(x) && x@ == e,
        },
{
    let mut table = SymbolTable::new();
    table.build(statements)
}

} // verus!
