//! The language semantics: a big-step evaluation relation written as total
//! spec functions over the syntax-tree mirrors.
//!
//! Evaluation threads an explicit state (the environment stack and the output
//! lines) and a step budget. Loop iterations and function calls each consume
//! one unit of the budget; exhausting it fails the run with a resource error,
//! standing in for the host call stack's own depth limit. Every other error
//! carries the category of the language's error taxonomy, and the first error
//! ends the whole run.
//!
//! The executable evaluator is proved to return exactly what these functions
//! say, so they — not the code — are the language definition.

use vstd::prelude::*;
use crate::ast::{BinOp, FunctionS, StmtS, ExprS, Type};
use crate::error::ErrorKind;
use crate::stdlib::builtin_call_s;
use crate::value::{value_matches_type_s, ValueS};

verus! {

/// One scope frame: name-to-value bindings, later entries shadowing earlier
/// ones of the same name.
pub type FrameS = Seq<(Seq<char>, ValueS)>;

/// The evaluator's whole state: the stack of scope frames (the first is the
/// global scope, the last the innermost) and the lines printed so far.
#[verifier::ext_equal]
pub struct StateS {
    /// The environment stack.
    pub envs: Seq<FrameS>,
    /// Everything `print` has written, one line per call.
    pub output: Seq<Seq<char>>,
}

/// The state a fresh evaluator starts in: one empty global scope, no output.
pub open spec fn init_state_s() -> StateS {
    StateS { envs: seq![Seq::empty()], output: Seq::empty() }
}

/// Entering a block: one empty frame is pushed.
pub open spec fn push_env_s(st: StateS) -> StateS {
    StateS { envs: st.envs.push(Seq::empty()), ..st }
}

/// Leaving a block: the innermost frame is dropped.
pub open spec fn pop_env_s(st: StateS) -> StateS {
    if st.envs.len() == 0 {
        st
    } else {
        StateS { envs: st.envs.drop_last(), ..st }
    }
}

/// Declaring a variable: the name is bound in the innermost frame, shadowing
/// any earlier binding of the same name there.
pub open spec fn define_s(st: StateS, name: Seq<char>, v: ValueS) -> StateS {
    if st.envs.len() == 0 {
        st
    } else {
        StateS {
            envs: st.envs.update(st.envs.len() - 1, st.envs.last().push((name, v))),
            ..st
        }
    }
}

/// A fatal error as the semantics reports it: the whole state at the moment
/// of detection — in particular everything the run had printed up to then —
/// paired with the error's category.
pub type AbortS = (StateS, ErrorKind);

/// The value bound to `name` in one frame: the latest binding wins.
pub open spec fn frame_lookup_s(frame: FrameS, name: Seq<char>) -> Option<ValueS>
    decreases frame,
{
    if frame.len() == 0 {
        None
    } else if frame.last().0 == name {
        Some(frame.last().1)
    } else {
        frame_lookup_s(frame.drop_last(), name)
    }
}

/// The value bound to `name`, searching frames from innermost to outermost.
pub open spec fn env_lookup_s(envs: Seq<FrameS>, name: Seq<char>) -> Option<ValueS>
    decreases envs,
{
    if envs.len() == 0 {
        None
    } else {
        match frame_lookup_s(envs.last(), name) {
            Some(v) => Some(v),
            None => env_lookup_s(envs.drop_last(), name),
        }
    }
}

/// Assigning to an existing binding: the innermost frame that holds `name`
/// gets the new value; `None` when no frame holds it.
pub open spec fn frames_assign_s(envs: Seq<FrameS>, name: Seq<char>, v: ValueS) -> Option<
    Seq<FrameS>,
>
    decreases envs,
{
    if envs.len() == 0 {
        None
    } else if frame_lookup_s(envs.last(), name) is Some {
        Some(envs.update(envs.len() - 1, envs.last().push((name, v))))
    } else {
        match frames_assign_s(envs.drop_last(), name, v) {
            Some(e2) => Some(e2.push(envs.last())),
            None => None,
        }
    }
}

/// The function definition a call resolves to: definitions are searched from
/// the last to the first, so a later definition of the same name wins.
pub open spec fn lookup_func_s(fns: Seq<FunctionS>, name: Seq<char>) -> Option<FunctionS>
    decreases fns,
{
    if fns.len() == 0 {
        None
    } else if fns.last().name == name {
        Some(fns.last())
    } else {
        lookup_func_s(fns.drop_last(), name)
    }
}

/// The frame a call starts with: each parameter name bound to its argument,
/// in order, and nothing else — a function does not see its caller's scope.
pub open spec fn bind_params_s(params: Seq<(Seq<char>, Type)>, args: Seq<ValueS>) -> FrameS
    decreases params,
{
    if params.len() == 0 || args.len() == 0 {
        Seq::empty()
    } else {
        bind_params_s(params.drop_last(), args.drop_last()).push(
            (params.last().0, args.last()),
        )
    }
}

/// What a binary operator returns, or the category of the error it raises.
/// There is no implicit coercion: every mismatch is a type error.
///
/// Comparison of strings by `<`, `<=`, `>`, `>=` is over their lengths, not
/// lexicographic — a deliberate quirk of the language, kept exactly.
pub open spec fn eval_bin_s(l: ValueS, op: BinOp, r: ValueS) -> Result<ValueS, ErrorKind> {
    match op {
        BinOp::Add => match (l, r) {
            (ValueS::Int(a), ValueS::Int(b)) => match a.checked_add(b) {
                Some(v) => Ok(ValueS::Int(v)),
                None => Err(ErrorKind::Runtime),
            },
            (ValueS::Str(a), ValueS::Str(b)) => Ok(ValueS::Str(a + b)),
            _ => Err(ErrorKind::Type),
        },
        BinOp::Sub => match (l, r) {
            (ValueS::Int(a), ValueS::Int(b)) => match a.checked_sub(b) {
                Some(v) => Ok(ValueS::Int(v)),
                None => Err(ErrorKind::Runtime),
            },
            _ => Err(ErrorKind::Type),
        },
        BinOp::Mul => match (l, r) {
            (ValueS::Int(a), ValueS::Int(b)) => match a.checked_mul(b) {
                Some(v) => Ok(ValueS::Int(v)),
                None => Err(ErrorKind::Runtime),
            },
            _ => Err(ErrorKind::Type),
        },
        BinOp::Div => match (l, r) {
            (ValueS::Int(a), ValueS::Int(b)) => match a.checked_div(b) {
                Some(v) => Ok(ValueS::Int(v)),
                None => Err(ErrorKind::Runtime),
            },
            _ => Err(ErrorKind::Type),
        },
        BinOp::Eq => match (l, r) {
            (ValueS::Int(a), ValueS::Int(b)) => Ok(ValueS::Bool(a == b)),
            (ValueS::Bool(a), ValueS::Bool(b)) => Ok(ValueS::Bool(a == b)),
            (ValueS::Str(a), ValueS::Str(b)) => Ok(ValueS::Bool(a == b)),
            _ => Err(ErrorKind::Type),
        },
        BinOp::NotEq => match (l, r) {
            (ValueS::Int(a), ValueS::Int(b)) => Ok(ValueS::Bool(a != b)),
            (ValueS::Bool(a), ValueS::Bool(b)) => Ok(ValueS::Bool(a != b)),
            (ValueS::Str(a), ValueS::Str(b)) => Ok(ValueS::Bool(a != b)),
            _ => Err(ErrorKind::Type),
        },
        BinOp::Lt => match (l, r) {
            (ValueS::Int(a), ValueS::Int(b)) => Ok(ValueS::Bool(a < b)),
            (ValueS::Str(a), ValueS::Str(b)) => Ok(ValueS::Bool(a.len() < b.len())),
            _ => Err(ErrorKind::Type),
        },
        BinOp::LtEq => match (l, r) {
            (ValueS::Int(a), ValueS::Int(b)) => Ok(ValueS::Bool(a <= b)),
            (ValueS::Str(a), ValueS::Str(b)) => Ok(ValueS::Bool(a.len() <= b.len())),
            _ => Err(ErrorKind::Type),
        },
        BinOp::Gt => match (l, r) {
            (ValueS::Int(a), ValueS::Int(b)) => Ok(ValueS::Bool(a > b)),
            (ValueS::Str(a), ValueS::Str(b)) => Ok(ValueS::Bool(a.len() > b.len())),
            _ => Err(ErrorKind::Type),
        },
        BinOp::GtEq => match (l, r) {
            (ValueS::Int(a), ValueS::Int(b)) => Ok(ValueS::Bool(a >= b)),
            (ValueS::Str(a), ValueS::Str(b)) => Ok(ValueS::Bool(a.len() >= b.len())),
            _ => Err(ErrorKind::Type),
        },
    }
}

/// What a for-each loop iterates over: an integer `n` gives the values `0`
/// to `n - 1` (a negative `n` is a runtime error), a string gives one
/// single-character string per character, a list gives its elements; any
/// other value is a runtime error.
pub open spec fn foreach_items_s(v: ValueS) -> Result<Seq<ValueS>, ErrorKind> {
    match v {
        ValueS::Int(n) => if n < 0 {
            Err(ErrorKind::Runtime)
        } else {
            Ok(Seq::new(n as nat, |i: int| ValueS::Int(i as i64)))
        },
        ValueS::Str(s) => Ok(Seq::new(s.len(), |i: int| ValueS::Str(s.subrange(i, i + 1)))),
        ValueS::List(items) => Ok(items),
        _ => Err(ErrorKind::Runtime),
    }
}

/// The value of one expression, with the state it leaves behind.
/// Every evaluation step burns one unit of the budget, so `decreases fuel`
/// carries the whole mutual recursion.
pub open spec fn eval_expr_s(fns: Seq<FunctionS>, st: StateS, e: ExprS, fuel: nat) -> Result<
    (StateS, ValueS),
    AbortS,
>
    decreases fuel,
{
    if fuel == 0 {
        Err((st, ErrorKind::Resource))
    } else {
        let fl = (fuel - 1) as nat;
        match e {
            ExprS::Int(n) => Ok((st, ValueS::Int(n))),
            ExprS::Bool(b) => Ok((st, ValueS::Bool(b))),
            ExprS::Str(s) => Ok((st, ValueS::Str(s))),
            ExprS::Var(name) => match env_lookup_s(st.envs, name) {
                Some(v) => Ok((st, v)),
                None => Err((st, ErrorKind::Name)),
            },
            ExprS::Binary { left, op, right } => match eval_expr_s(fns, st, *left, fl) {
                Ok((st1, lv)) => match eval_expr_s(fns, st1, *right, fl) {
                    Ok((st2, rv)) => match eval_bin_s(lv, op, rv) {
                        Ok(v) => Ok((st2, v)),
                        Err(k) => Err((st2, k)),
                    },
                    Err(k) => Err(k),
                },
                Err(k) => Err(k),
            },
            ExprS::ListLiteral(items) => match eval_exprs_s(fns, st, items, fl) {
                Ok((st1, vs)) => Ok((st1, ValueS::List(vs))),
                Err(k) => Err(k),
            },
            ExprS::Call { callee, args } => match eval_exprs_s(fns, st, args, fl) {
                Ok((st1, vs)) => dispatch_call_s(fns, st1, callee, vs, fl),
                Err(k) => Err(k),
            },
        }
    }
}

/// The values of a sequence of expressions, evaluated left to right.
pub open spec fn eval_exprs_s(fns: Seq<FunctionS>, st: StateS, es: Seq<ExprS>, fuel: nat) -> Result<
    (StateS, Seq<ValueS>),
    AbortS,
>
    decreases fuel,
{
    if fuel == 0 {
        Err((st, ErrorKind::Resource))
    } else {
        let fl = (fuel - 1) as nat;
        if es.len() == 0 {
            Ok((st, Seq::empty()))
        } else {
            match eval_exprs_s(fns, st, es.drop_last(), fl) {
                Ok((st1, vs)) => match eval_expr_s(fns, st1, es.last(), fl) {
                    Ok((st2, v)) => Ok((st2, vs.push(v))),
                    Err(k) => Err(k),
                },
                Err(k) => Err(k),
            }
        }
    }
}

/// What a call does once its arguments are values: the builtin registry is
/// consulted first; failing that, a user-defined function is looked up, its
/// parameters are bound in a fresh frame (the count must match exactly), its
/// body runs, and the first escaping return — or the empty value — is the
/// call's result. A name neither registry knows is a name error.
pub open spec fn dispatch_call_s(
    fns: Seq<FunctionS>,
    st: StateS,
    callee: Seq<char>,
    args: Seq<ValueS>,
    fuel: nat,
) -> Result<(StateS, ValueS), AbortS>
    decreases fuel,
{
    if fuel == 0 {
        Err((st, ErrorKind::Resource))
    } else {
        let fl = (fuel - 1) as nat;
        match builtin_call_s(callee, args, st.output) {
            Some(Ok((out2, v))) => Ok((StateS { output: out2, ..st }, v)),
            Some(Err(k)) => Err((st, k)),
            None => match lookup_func_s(fns, callee) {
                Some(f) => if f.params.len() != args.len() {
                    Err((st, ErrorKind::Runtime))
                } else {
                    let st1 = StateS { envs: st.envs.push(bind_params_s(f.params, args)), ..st };
                    match exec_stmts_s(fns, st1, f.body, fl) {
                        Ok((st2, Some(v))) => Ok((pop_env_s(st2), v)),
                        Ok((st2, None)) => Ok((pop_env_s(st2), ValueS::Unit)),
                        Err(k) => Err(k),
                    }
                },
                None => Err((st, ErrorKind::Name)),
            },
        }
    }
}

/// What one statement does: the state it leaves, and `Some(v)` exactly when
/// a `return` is escaping with value `v`.
pub open spec fn exec_stmt_s(fns: Seq<FunctionS>, st: StateS, s: StmtS, fuel: nat) -> Result<
    (StateS, Option<ValueS>),
    AbortS,
>
    decreases fuel,
{
    if fuel == 0 {
        Err((st, ErrorKind::Resource))
    } else {
        let fl = (fuel - 1) as nat;
        match s {
            StmtS::VarDecl { name, ty, init } => match eval_expr_s(fns, st, init, fl) {
                Ok((st1, v)) => if value_matches_type_s(v, ty) {
                    Ok((define_s(st1, name, v), None))
                } else {
                    Err((st1, ErrorKind::Type))
                },
                Err(k) => Err(k),
            },
            StmtS::ExprStmt(e) => match eval_expr_s(fns, st, e, fl) {
                Ok((st1, _)) => Ok((st1, None)),
                Err(k) => Err(k),
            },
            StmtS::Assign { name, expr } => match eval_expr_s(fns, st, expr, fl) {
                Ok((st1, v)) => match frames_assign_s(st1.envs, name, v) {
                    Some(envs2) => Ok((StateS { envs: envs2, ..st1 }, None)),
                    None => Err((st1, ErrorKind::Name)),
                },
                Err(k) => Err(k),
            },
            StmtS::Return(opt) => match opt {
                Some(e) => match eval_expr_s(fns, st, e, fl) {
                    Ok((st1, v)) => Ok((st1, Some(v))),
                    Err(k) => Err(k),
                },
                None => Ok((st, Some(ValueS::Unit))),
            },
            StmtS::Branch { cond, then_branch, else_if_branches, else_branch } => match eval_expr_s(
                fns,
                st,
                cond,
                fl,
            ) {
                Ok((st1, ValueS::Bool(true))) => exec_block_s(fns, st1, then_branch, fl),
                Ok((st1, ValueS::Bool(false))) => exec_elifs_s(fns, st1, s, 0, fl),
                Ok((st1, _)) => Err((st1, ErrorKind::Type)),
                Err(k) => Err(k),
            },
            StmtS::ElseIfBranch { .. } => Err((st, ErrorKind::Syntax)),
            StmtS::While { cond, body } => match eval_expr_s(fns, st, cond, fl) {
                Ok((st1, ValueS::Bool(false))) => Ok((st1, None)),
                Ok((st1, ValueS::Bool(true))) => match exec_block_s(fns, st1, body, fl) {
                    Ok((st2, Some(v))) => Ok((st2, Some(v))),
                    Ok((st2, None)) => exec_stmt_s(fns, st2, s, fl),
                    Err(k) => Err(k),
                },
                Ok((st1, _)) => Err((st1, ErrorKind::Type)),
                Err(k) => Err(k),
            },
            StmtS::For { init, cond, step, body } => {
                let st1 = push_env_s(st);
                let after_init: Result<StateS, AbortS> = match init {
                    Some(b) => match exec_stmt_s(fns, st1, *b, fl) {
                        Ok((st2, _)) => Ok(st2),
                        Err(k) => Err(k),
                    },
                    None => Ok(st1),
                };
                match after_init {
                    Ok(st2) => match for_loop_s(fns, st2, s, fl) {
                        Ok((st3, r)) => Ok((pop_env_s(st3), r)),
                        Err(k) => Err(k),
                    },
                    Err(k) => Err(k),
                }
            },
            StmtS::ForEach { var_name, iter_expr, body } => match eval_expr_s(
                fns,
                st,
                iter_expr,
                fl,
            ) {
                Ok((st1, itv)) => match foreach_items_s(itv) {
                    Ok(items) => match foreach_vals_s(fns, push_env_s(st1), s, items, 0, fl) {
                        Ok((st2, r)) => Ok((pop_env_s(st2), r)),
                        Err(k) => Err(k),
                    },
                    Err(k) => Err((st1, k)),
                },
                Err(k) => Err(k),
            },
        }
    }
}

/// The `elif` arms of a branch, tried in order from arm `i` on; when none
/// fires, the `else` block (if any) runs. An arm that is not an
/// `ElseIfBranch` node is a syntax error.
pub open spec fn exec_elifs_s(
    fns: Seq<FunctionS>,
    st: StateS,
    s: StmtS,
    i: int,
    fuel: nat,
) -> Result<(StateS, Option<ValueS>), AbortS>
    decreases fuel,
{
    if fuel == 0 {
        Err((st, ErrorKind::Resource))
    } else {
        let fl = (fuel - 1) as nat;
        match s {
            StmtS::Branch { cond, then_branch, else_if_branches, else_branch } => {
                if i < 0 || i >= else_if_branches.len() {
                    if else_branch.len() > 0 {
                        exec_block_s(fns, st, else_branch, fl)
                    } else {
                        Ok((st, None))
                    }
                } else {
                    match else_if_branches[i] {
                        StmtS::ElseIfBranch { cond: c2, then_branch: tb } => match eval_expr_s(
                            fns,
                            st,
                            c2,
                            fl,
                        ) {
                            Ok((st1, ValueS::Bool(true))) => exec_block_s(fns, st1, tb, fl),
                            Ok((st1, ValueS::Bool(false))) => exec_elifs_s(fns, st1, s, i + 1, fl),
                            Ok((st1, _)) => Err((st1, ErrorKind::Type)),
                            Err(k) => Err(k),
                        },
                        _ => Err((st, ErrorKind::Syntax)),
                    }
                }
            },
            _ => Err((st, ErrorKind::Syntax)),
        }
    }
}

/// The iterations of a C-style `for` loop after its init clause ran: the
/// condition (absent means true) is checked before each iteration, the body
/// runs in its own frame, the step clause runs after the body. The loop's
/// shared frame is pushed and popped by the `For` arm of `exec_stmt_s`, not
/// here, so step bindings persist across iterations.
pub open spec fn for_loop_s(fns: Seq<FunctionS>, st: StateS, s: StmtS, fuel: nat) -> Result<
    (StateS, Option<ValueS>),
    AbortS,
>
    decreases fuel,
{
    if fuel == 0 {
        Err((st, ErrorKind::Resource))
    } else {
        let fl = (fuel - 1) as nat;
        match s {
            StmtS::For { init, cond, step, body } => {
                let cond_res: Result<(StateS, bool), AbortS> = match cond {
                    Some(c) => match eval_expr_s(fns, st, c, fl) {
                        Ok((st1, ValueS::Bool(b))) => Ok((st1, b)),
                        Ok((st1, _)) => Err((st1, ErrorKind::Type)),
                        Err(k) => Err(k),
                    },
                    None => Ok((st, true)),
                };
                match cond_res {
                    Ok((st1, b)) => if !b {
                        Ok((st1, None))
                    } else {
                        match exec_block_s(fns, st1, body, fl) {
                            Ok((st2, Some(v))) => Ok((st2, Some(v))),
                            Ok((st2, None)) => {
                                let after_step: Result<StateS, AbortS> = match step {
                                    Some(b2) => match exec_stmt_s(fns, st2, *b2, fl) {
                                        Ok((st3, _)) => Ok(st3),
                                        Err(k) => Err(k),
                                    },
                                    None => Ok(st2),
                                };
                                match after_step {
                                    Ok(st3) => for_loop_s(fns, st3, s, fl),
                                    Err(k) => Err(k),
                                }
                            },
                            Err(k) => Err(k),
                        }
                    },
                    Err(k) => Err(k),
                }
            },
            _ => Err((st, ErrorKind::Syntax)),
        }
    }
}

/// The iterations of a for-each loop from item `i` on: the bound variable is
/// rebound to the next item in the loop's shared frame, then the body runs
/// in its own frame. The shared frame is pushed and popped by the `ForEach`
/// arm of `exec_stmt_s`.
pub open spec fn foreach_vals_s(
    fns: Seq<FunctionS>,
    st: StateS,
    s: StmtS,
    items: Seq<ValueS>,
    i: int,
    fuel: nat,
) -> Result<(StateS, Option<ValueS>), AbortS>
    decreases fuel,
{
    if fuel == 0 {
        Err((st, ErrorKind::Resource))
    } else {
        let fl = (fuel - 1) as nat;
        match s {
            StmtS::ForEach { var_name, iter_expr, body } => {
                if i < 0 || i >= items.len() {
                    Ok((st, None))
                } else {
                    let st1 = define_s(st, var_name, items[i]);
                    match exec_block_s(fns, st1, body, fl) {
                        Ok((st2, Some(v))) => Ok((st2, Some(v))),
                        Ok((st2, None)) => foreach_vals_s(fns, st2, s, items, i + 1, fl),
                        Err(k) => Err(k),
                    }
                }
            },
            _ => Err((st, ErrorKind::Syntax)),
        }
    }
}

/// A sequence of statements, run in order until one raises an error or an
/// escaping return stops the block.
pub open spec fn exec_stmts_s(fns: Seq<FunctionS>, st: StateS, ss: Seq<StmtS>, fuel: nat) -> Result<
    (StateS, Option<ValueS>),
    AbortS,
>
    decreases fuel,
{
    if fuel == 0 {
        Err((st, ErrorKind::Resource))
    } else {
        let fl = (fuel - 1) as nat;
        if ss.len() == 0 {
            Ok((st, None))
        } else {
            match exec_stmt_s(fns, st, ss[0], fl) {
                Ok((st1, None)) => exec_stmts_s(fns, st1, ss.drop_first(), fl),
                Ok((st1, Some(v))) => Ok((st1, Some(v))),
                Err(k) => Err(k),
            }
        }
    }
}

/// A block `{ ... }`: its statements run inside a fresh frame, which is
/// popped again whether the block completes or an escaping return passes
/// through — push and pop stay strictly paired.
pub open spec fn exec_block_s(fns: Seq<FunctionS>, st: StateS, ss: Seq<StmtS>, fuel: nat) -> Result<
    (StateS, Option<ValueS>),
    AbortS,
>
    decreases fuel,
{
    if fuel == 0 {
        Err((st, ErrorKind::Resource))
    } else {
        let fl = (fuel - 1) as nat;
        match exec_stmts_s(fns, push_env_s(st), ss, fl) {
            Ok((st1, r)) => Ok((pop_env_s(st1), r)),
            Err(k) => Err(k),
        }
    }
}

/// The top-level statements of a program, run in order in the global scope.
/// A `return` at top level has nothing to escape from: its value is
/// discarded and the run simply continues with the next statement.
pub open spec fn top_stmts_s(fns: Seq<FunctionS>, st: StateS, ss: Seq<StmtS>, fuel: nat) -> Result<
    StateS,
    AbortS,
>
    decreases fuel,
{
    if fuel == 0 {
        Err((st, ErrorKind::Resource))
    } else {
        let fl = (fuel - 1) as nat;
        if ss.len() == 0 {
            Ok(st)
        } else {
            match exec_stmt_s(fns, st, ss[0], fl) {
                Ok((st1, _)) => top_stmts_s(fns, st1, ss.drop_first(), fl),
                Err(k) => Err(k),
            }
        }
    }
}

/// A whole program run on a fresh evaluator: its function definitions are
/// registered, then the script body runs in the global scope. The result is
/// the final state — in particular everything the run printed — or, on the
/// first fatal error, the state at the moment of failure together with the
/// error's category.
pub open spec fn run_s(functions: Seq<FunctionS>, stmts: Seq<StmtS>, fuel: nat) -> Result<
    StateS,
    AbortS,
> {
    top_stmts_s(functions, init_state_s(), stmts, fuel)
}

} // verus!
