//! The abstract syntax tree: static types, expressions, statements, function
//! definitions and whole programs, exactly as the parser builds them and the
//! evaluator walks them.
//!
//! Each node kind has a spec-level mirror (`ExprS`, `StmtS`, ...) whose text
//! fields are `Seq<char>` and whose lists are `Seq`, reached through the view
//! functions below. The language semantics and every contract speak about the
//! mirrors; the executable types only carry them.

use vstd::prelude::*;

verus! {

/// A static type annotation. It is consulted once, when a `var` declaration
/// checks its initializer, and never propagated.
#[derive(Debug, Clone, Copy, PartialEq, Eq, Structural)]
pub enum Type {
    /// 64-bit signed integer.
    Int,
    /// Boolean.
    Bool,
    /// String.
    Str,
    /// List of values.
    List,
}

/// A binary operator.
#[derive(Debug, Clone, Copy, PartialEq, Eq, Structural)]
pub enum BinOp {
    Add,
    Sub,
    Mul,
    Div,
    Eq,
    NotEq,
    Lt,
    LtEq,
    Gt,
    GtEq,
}

/// An expression node.
#[derive(Debug)]
pub enum Expr {
    /// Integer literal.
    Int(i64),
    /// Boolean literal.
    Bool(bool),
    /// String literal.
    Str(String),
    /// A variable read by name.
    Var(String),
    /// `left op right`.
    Binary { left: Box<Expr>, op: BinOp, right: Box<Expr> },
    /// A call `callee(arg, ...)`; the callee is always a bare name.
    Call { callee: String, args: Vec<Expr> },
    /// A list literal `[e1, e2, ...]`.
    ListLiteral(Vec<Expr>),
}

/// A statement node. Blocks are ordered sequences of statements.
#[derive(Debug)]
#[allow(inconsistent_fields)]
pub enum Stmt {
    /// `var name: ty = init`.
    VarDecl { name: String, ty: Type, init: Expr },
    /// A bare expression evaluated for its effects.
    ExprStmt(Expr),
    /// `name = expr`, mutating an existing binding.
    Assign { name: String, expr: Expr },
    /// `if cond { ... } elif ... { ... } else { ... }`. Every element of
    /// `else_if_branches` is an `ElseIfBranch`.
    Branch {
        cond: Expr,
        then_branch: Vec<Stmt>,
        else_if_branches: Vec<Stmt>,
        else_branch: Vec<Stmt>,
    },
    /// One `elif cond { ... }` arm; only ever found inside a `Branch`.
    ElseIfBranch { cond: Expr, then_branch: Vec<Stmt> },
    /// `while cond { body }`.
    While { cond: Expr, body: Vec<Stmt> },
    /// C-style `for (init; cond; step) { body }`; every clause may be absent,
    /// and an absent condition counts as always true.
    For {
        init: Option<Box<Stmt>>,
        cond: Option<Expr>,
        step: Option<Box<Stmt>>,
        body: Vec<Stmt>,
    },
    /// `for var_name in iter_expr { body }` over an integer range, the
    /// characters of a string, or the elements of a list.
    ForEach { var_name: String, iter_expr: Expr, body: Vec<Stmt> },
    /// `return` with an optional value, escaping to the enclosing call.
    Return(Option<Expr>),
}

/// A user-defined function: `func name(p1: T1, ...) { body }`.
#[derive(Debug)]
pub struct Function {
    /// The name it is called by.
    pub name: String,
    /// Ordered parameter names with their declared types.
    pub params: Vec<(String, Type)>,
    /// The body block.
    pub body: Vec<Stmt>,
}

/// A whole program: its function definitions plus the top-level statements
/// that form the script body.
#[derive(Debug)]
pub struct Program {
    /// Every `func ... { ... }` definition, in source order.
    pub functions: Vec<Function>,
    /// The top-level statements, in source order.
    pub stmts: Vec<Stmt>,
}

/// Spec mirror of `Expr`.
#[verifier::ext_equal]
pub enum ExprS {
    Int(i64),
    Bool(bool),
    Str(Seq<char>),
    Var(Seq<char>),
    Binary { left: Box<ExprS>, op: BinOp, right: Box<ExprS> },
    Call { callee: Seq<char>, args: Seq<ExprS> },
    ListLiteral(Seq<ExprS>),
}

/// Spec mirror of `Stmt`.
#[verifier::ext_equal]
#[allow(inconsistent_fields)]
pub enum StmtS {
    VarDecl { name: Seq<char>, ty: Type, init: ExprS },
    ExprStmt(ExprS),
    Assign { name: Seq<char>, expr: ExprS },
    Branch {
        cond: ExprS,
        then_branch: Seq<StmtS>,
        else_if_branches: Seq<StmtS>,
        else_branch: Seq<StmtS>,
    },
    ElseIfBranch { cond: ExprS, then_branch: Seq<StmtS> },
    While { cond: ExprS, body: Seq<StmtS> },
    For { init: Option<Box<StmtS>>, cond: Option<ExprS>, step: Option<Box<StmtS>>, body: Seq<StmtS> },
    ForEach { var_name: Seq<char>, iter_expr: ExprS, body: Seq<StmtS> },
    Return(Option<ExprS>),
}

/// Spec mirror of `Function`.
#[verifier::ext_equal]
pub struct FunctionS {
    pub name: Seq<char>,
    pub params: Seq<(Seq<char>, Type)>,
    pub body: Seq<StmtS>,
}

/// Spec mirror of `Program`.
#[verifier::ext_equal]
pub struct ProgramS {
    pub functions: Seq<FunctionS>,
    pub stmts: Seq<StmtS>,
}

/// The mirror of one expression.
pub open spec fn expr_view(e: Expr) -> ExprS
    decreases e,
{
    match e {
        Expr::Int(n) => ExprS::Int(n),
        Expr::Bool(b) => ExprS::Bool(b),
        Expr::Str(s) => ExprS::Str(s@),
        Expr::Var(s) => ExprS::Var(s@),
        Expr::Binary { left, op, right } => ExprS::Binary {
            left: Box::new(expr_view(*left)),
            op,
            right: Box::new(expr_view(*right)),
        },
        Expr::Call { callee, args } => ExprS::Call { callee: callee@, args: exprs_view(args@) },
        Expr::ListLiteral(items) => ExprS::ListLiteral(exprs_view(items@)),
    }
}

/// The mirrors of a sequence of expressions, in order.
pub open spec fn exprs_view(s: Seq<Expr>) -> Seq<ExprS>
    decreases s,
{
    if s.len() == 0 {
        Seq::empty()
    } else {
        exprs_view(s.drop_last()).push(expr_view(s.last()))
    }
}

/// The mirror of one statement.
pub open spec fn stmt_view(s: Stmt) -> StmtS
    decreases s,
{
    match s {
        Stmt::VarDecl { name, ty, init } => StmtS::VarDecl {
            name: name@,
            ty,
            init: expr_view(init),
        },
        Stmt::ExprStmt(e) => StmtS::ExprStmt(expr_view(e)),
        Stmt::Assign { name, expr } => StmtS::Assign { name: name@, expr: expr_view(expr) },
        Stmt::Branch { cond, then_branch, else_if_branches, else_branch } => StmtS::Branch {
            cond: expr_view(cond),
            then_branch: stmts_view(then_branch@),
            else_if_branches: stmts_view(else_if_branches@),
            else_branch: stmts_view(else_branch@),
        },
        Stmt::ElseIfBranch { cond, then_branch } => StmtS::ElseIfBranch {
            cond: expr_view(cond),
            then_branch: stmts_view(then_branch@),
        },
        Stmt::While { cond, body } => StmtS::While {
            cond: expr_view(cond),
            body: stmts_view(body@),
        },
        Stmt::For { init, cond, step, body } => StmtS::For {
            init: match init {
                Some(b) => Some(Box::new(stmt_view(*b))),
                None => None,
            },
            cond: match cond {
                Some(e) => Some(expr_view(e)),
                None => None,
            },
            step: match step {
                Some(b) => Some(Box::new(stmt_view(*b))),
                None => None,
            },
            body: stmts_view(body@),
        },
        Stmt::ForEach { var_name, iter_expr, body } => StmtS::ForEach {
            var_name: var_name@,
            iter_expr: expr_view(iter_expr),
            body: stmts_view(body@),
        },
        Stmt::Return(e) => StmtS::Return(
            match e {
                Some(e) => Some(expr_view(e)),
                None => None,
            },
        ),
    }
}

/// The mirrors of a sequence of statements, in order.
pub open spec fn stmts_view(s: Seq<Stmt>) -> Seq<StmtS>
    decreases s,
{
    if s.len() == 0 {
        Seq::empty()
    } else {
        stmts_view(s.drop_last()).push(stmt_view(s.last()))
    }
}

/// The mirror of a parameter list, in order.
pub open spec fn params_view(s: Seq<(String, Type)>) -> Seq<(Seq<char>, Type)>
    decreases s,
{
    if s.len() == 0 {
        Seq::empty()
    } else {
        params_view(s.drop_last()).push((s.last().0@, s.last().1))
    }
}

/// The mirror of one function definition.
pub open spec fn function_view(f: Function) -> FunctionS {
    FunctionS { name: f.name@, params: params_view(f.params@), body: stmts_view(f.body@) }
}

/// The mirrors of a sequence of function definitions, in order.
pub open spec fn functions_view(s: Seq<Function>) -> Seq<FunctionS>
    decreases s,
{
    if s.len() == 0 {
        Seq::empty()
    } else {
        functions_view(s.drop_last()).push(function_view(s.last()))
    }
}

impl View for Expr {
    type V = ExprS;

    open spec fn view(&self) -> ExprS {
        expr_view(*self)
    }
}

impl View for Stmt {
    type V = StmtS;

    open spec fn view(&self) -> StmtS {
        stmt_view(*self)
    }
}

impl View for Function {
    type V = FunctionS;

    open spec fn view(&self) -> FunctionS {
        function_view(*self)
    }
}

impl View for Program {
    type V = ProgramS;

    open spec fn view(&self) -> ProgramS {
        ProgramS { functions: functions_view(self.functions@), stmts: stmts_view(self.stmts@) }
    }
}

/// Appending one expression appends its mirror.
pub proof fn lemma_exprs_view_push(s: Seq<Expr>, x: Expr)
    ensures
        exprs_view(s.push(x)) == exprs_view(s).push(expr_view(x)),
{
    assert(s.push(x).drop_last() =~= s);
    assert(s.push(x).last() == x);
}

/// Appending one statement appends its mirror.
pub proof fn lemma_stmts_view_push(s: Seq<Stmt>, x: Stmt)
    ensures
        stmts_view(s.push(x)) == stmts_view(s).push(stmt_view(x)),
{
    assert(s.push(x).drop_last() =~= s);
    assert(s.push(x).last() == x);
}

/// Appending one parameter appends its mirror.
pub proof fn lemma_params_view_push(s: Seq<(String, Type)>, x: (String, Type))
    ensures
        params_view(s.push(x)) == params_view(s).push((x.0@, x.1)),
{
    assert(s.push(x).drop_last() =~= s);
    assert(s.push(x).last() == x);
}

/// Appending one function definition appends its mirror.
pub proof fn lemma_functions_view_push(s: Seq<Function>, x: Function)
    ensures
        functions_view(s.push(x)) == functions_view(s).push(function_view(x)),
{
    assert(s.push(x).drop_last() =~= s);
    assert(s.push(x).last() == x);
}

/// Views distribute over indexing: the mirror of the `i`th expression is the
/// `i`th mirror.
pub proof fn lemma_exprs_view_index(s: Seq<Expr>, i: int)
    requires
        0 <= i < s.len(),
    ensures
        exprs_view(s).len() == s.len(),
        exprs_view(s)[i] == expr_view(s[i]),
    decreases s,
{
    lemma_exprs_view_len(s);
    if i < s.len() - 1 {
        lemma_exprs_view_index(s.drop_last(), i);
    }
}

/// Views keep the length of an expression sequence.
pub proof fn lemma_exprs_view_len(s: Seq<Expr>)
    ensures
        exprs_view(s).len() == s.len(),
    decreases s,
{
    if s.len() > 0 {
        lemma_exprs_view_len(s.drop_last());
    }
}

/// Views distribute over indexing: the mirror of the `i`th statement is the
/// `i`th mirror.
pub proof fn lemma_stmts_view_index(s: Seq<Stmt>, i: int)
    requires
        0 <= i < s.len(),
    ensures
        stmts_view(s).len() == s.len(),
        stmts_view(s)[i] == stmt_view(s[i]),
    decreases s,
{
    lemma_stmts_view_len(s);
    if i < s.len() - 1 {
        lemma_stmts_view_index(s.drop_last(), i);
    }
}

/// Views keep the length of a statement sequence.
pub proof fn lemma_stmts_view_len(s: Seq<Stmt>)
    ensures
        stmts_view(s).len() == s.len(),
    decreases s,
{
    if s.len() > 0 {
        lemma_stmts_view_len(s.drop_last());
    }
}

/// Views keep the length of a parameter list.
pub proof fn lemma_params_view_len(s: Seq<(String, Type)>)
    ensures
        params_view(s).len() == s.len(),
    decreases s,
{
    if s.len() > 0 {
        lemma_params_view_len(s.drop_last());
    }
}

/// Views distribute over indexing for parameter lists.
pub proof fn lemma_params_view_index(s: Seq<(String, Type)>, i: int)
    requires
        0 <= i < s.len(),
    ensures
        params_view(s).len() == s.len(),
        params_view(s)[i] == (s[i].0@, s[i].1),
    decreases s,
{
    lemma_params_view_len(s);
    if i < s.len() - 1 {
        lemma_params_view_index(s.drop_last(), i);
    }
}

/// Views keep the length of a function-definition sequence.
pub proof fn lemma_functions_view_len(s: Seq<Function>)
    ensures
        functions_view(s).len() == s.len(),
    decreases s,
{
    if s.len() > 0 {
        lemma_functions_view_len(s.drop_last());
    }
}

/// Views distribute over indexing for function definitions.
pub proof fn lemma_functions_view_index(s: Seq<Function>, i: int)
    requires
        0 <= i < s.len(),
    ensures
        functions_view(s).len() == s.len(),
        functions_view(s)[i] == function_view(s[i]),
    decreases s,
{
    lemma_functions_view_len(s);
    if i < s.len() - 1 {
        lemma_functions_view_index(s.drop_last(), i);
    }
}

} // verus!
