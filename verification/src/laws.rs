//! Laws of the language, stated and proved once over the semantics. Each of
//! these holds for every program and every state the semantics can reach —
//! they are the general guarantees the rest of the library's contracts rest
//! on.

use vstd::prelude::*;
use crate::ast::{BinOp, ExprS, FunctionS, StmtS};
use crate::error::ErrorKind;
use crate::semantics::{
    bind_params_s, dispatch_call_s, env_lookup_s, eval_bin_s, eval_expr_s, exec_block_s,
    exec_stmt_s, exec_stmts_s, frame_lookup_s, frames_assign_s, lookup_func_s, pop_env_s, run_s,
    AbortS, FrameS, StateS,
};
use crate::value::value_matches_type_s;
use crate::stdlib::{builtin_call_s, range_builtin_s, range_vals_s};
use crate::value::ValueS;

verus! {

/// Running one program twice with the same step budget is indistinguishable:
/// the two runs fail with the same error, or succeed with identical output
/// lines. The semantics is a function of the program and the budget alone,
/// so no hidden state survives between runs of fresh evaluators.
pub proof fn lemma_run_deterministic(functions: Seq<FunctionS>, stmts: Seq<StmtS>, fuel: nat)
    ensures
        match (run_s(functions, stmts, fuel), run_s(functions, stmts, fuel)) {
            (Ok(a), Ok(b)) => a.output == b.output && a.envs == b.envs,
            (Err(a), Err(b)) => a.0.output == b.0.output && a.1 == b.1,
            _ => false,
        },
{
}

/// Ordering comparisons on strings go by length, never by lexicographic
/// order: `a < b` between strings is exactly `a.len() < b.len()`, and
/// likewise for the other three comparison operators. This is a deliberate
/// quirk of the language, kept for compatibility.
pub proof fn lemma_string_order_is_length(a: Seq<char>, b: Seq<char>)
    ensures
        eval_bin_s(ValueS::Str(a), BinOp::Lt, ValueS::Str(b)) == Ok::<ValueS, ErrorKind>(
            ValueS::Bool(a.len() < b.len()),
        ),
        eval_bin_s(ValueS::Str(a), BinOp::LtEq, ValueS::Str(b)) == Ok::<ValueS, ErrorKind>(
            ValueS::Bool(a.len() <= b.len()),
        ),
        eval_bin_s(ValueS::Str(a), BinOp::Gt, ValueS::Str(b)) == Ok::<ValueS, ErrorKind>(
            ValueS::Bool(a.len() > b.len()),
        ),
        eval_bin_s(ValueS::Str(a), BinOp::GtEq, ValueS::Str(b)) == Ok::<ValueS, ErrorKind>(
            ValueS::Bool(a.len() >= b.len()),
        ),
{
}

/// Division is defined exactly on a non-zero divisor (with the one 64-bit
/// overflow corner ruled out): division by zero is a fatal runtime error,
/// and otherwise the quotient truncates toward zero.
pub proof fn lemma_division(a: i64, b: i64)
    ensures
        b == 0 ==> eval_bin_s(ValueS::Int(a), BinOp::Div, ValueS::Int(b)) == Err::<
            ValueS,
            ErrorKind,
        >(ErrorKind::Runtime),
        a == i64::MIN && b == -1 ==> eval_bin_s(ValueS::Int(a), BinOp::Div, ValueS::Int(b))
            == Err::<ValueS, ErrorKind>(ErrorKind::Runtime),
        b != 0 && !(a == i64::MIN && b == -1) && a >= 0 && b > 0 ==> eval_bin_s(
            ValueS::Int(a),
            BinOp::Div,
            ValueS::Int(b),
        ) == Ok::<ValueS, ErrorKind>(ValueS::Int((a as int / b as int) as i64)),
{
    if b > 0 && a >= 0 {
        assert(0 <= a as int / b as int <= a as int) by (nonlinear_arith)
            requires
                a >= 0 && b > 0,
        ;
    }
}

/// A `return` that escapes a loop body ends the whole `while` loop at once:
/// when the condition held and the body produced an escaping value, the loop
/// statement itself produces that value, and no further iteration runs.
pub proof fn lemma_return_escapes_while(
    fns: Seq<FunctionS>,
    st: StateS,
    st1: StateS,
    st2: StateS,
    cond: ExprS,
    body: Seq<StmtS>,
    v: ValueS,
    fuel: nat,
)
    requires
        fuel > 0,
        eval_expr_s(fns, st, cond, (fuel - 1) as nat) == Ok::<(StateS, ValueS), AbortS>(
            (st1, ValueS::Bool(true)),
        ),
        exec_block_s(fns, st1, body, (fuel - 1) as nat) == Ok::<
            (StateS, Option<ValueS>),
            AbortS,
        >((st2, Some(v))),
    ensures
        exec_stmt_s(fns, st, StmtS::While { cond, body }, fuel) == Ok::<
            (StateS, Option<ValueS>),
            AbortS,
        >((st2, Some(v))),
{
}

/// A statement that produces an escaping return stops its block at once: the
/// statements after it never run, and the block hands the value upward
/// unchanged.
pub proof fn lemma_return_stops_block(
    fns: Seq<FunctionS>,
    st: StateS,
    ss: Seq<StmtS>,
    st1: StateS,
    v: ValueS,
    fuel: nat,
)
    requires
        fuel > 0,
        ss.len() > 0,
        exec_stmt_s(fns, st, ss[0], (fuel - 1) as nat) == Ok::<
            (StateS, Option<ValueS>),
            AbortS,
        >((st1, Some(v))),
    ensures
        exec_stmts_s(fns, st, ss, fuel) == Ok::<(StateS, Option<ValueS>), AbortS>(
            (st1, Some(v)),
        ),
{
}

/// The escaping value becomes the call's result: when a user function's body
/// produces an escaping return, the call evaluates to exactly that value,
/// with the call frame popped again.
pub proof fn lemma_return_ends_call(
    fns: Seq<FunctionS>,
    st: StateS,
    f: FunctionS,
    args: Seq<ValueS>,
    st2: StateS,
    v: ValueS,
    fuel: nat,
)
    requires
        fuel > 1,
        builtin_call_s(f.name, args, st.output) is None,
        lookup_func_s(fns, f.name) == Some(f),
        f.params.len() == args.len(),
        exec_stmts_s(
            fns,
            StateS { envs: st.envs.push(bind_params_s(f.params, args)), output: st.output },
            f.body,
            (fuel - 2) as nat,
        ) == Ok::<(StateS, Option<ValueS>), AbortS>((st2, Some(v))),
    ensures
        dispatch_call_s(fns, st, f.name, args, (fuel - 1) as nat) == Ok::<
            (StateS, ValueS),
            AbortS,
        >((pop_env_s(st2), v)),
{
    assert(StateS {
        envs: st.envs.push(bind_params_s(f.params, args)),
        ..st
    } == StateS { envs: st.envs.push(bind_params_s(f.params, args)), output: st.output });
}

/// A `return` inside a `while` loop inside a function ends the loop and the
/// call at once: when the loop condition held and some iteration's body
/// produced an escaping value, the call of the function evaluates to exactly
/// that value — for every sequence of trailing statements after the loop,
/// none of which runs — and the call frame is popped again.
pub proof fn lemma_return_in_while_ends_call(
    fns: Seq<FunctionS>,
    st: StateS,
    f: FunctionS,
    args: Seq<ValueS>,
    cond: ExprS,
    body: Seq<StmtS>,
    rest: Seq<StmtS>,
    st1: StateS,
    st2: StateS,
    v: ValueS,
    fuel: nat,
)
    requires
        fuel > 3,
        builtin_call_s(f.name, args, st.output) is None,
        lookup_func_s(fns, f.name) == Some(f),
        f.params.len() == args.len(),
        f.body == seq![StmtS::While { cond, body }] + rest,
        eval_expr_s(
            fns,
            StateS { envs: st.envs.push(bind_params_s(f.params, args)), output: st.output },
            cond,
            (fuel - 4) as nat,
        ) == Ok::<(StateS, ValueS), AbortS>((st1, ValueS::Bool(true))),
        exec_block_s(fns, st1, body, (fuel - 4) as nat) == Ok::<
            (StateS, Option<ValueS>),
            AbortS,
        >((st2, Some(v))),
    ensures
        dispatch_call_s(fns, st, f.name, args, (fuel - 1) as nat) == Ok::<
            (StateS, ValueS),
            AbortS,
        >((pop_env_s(st2), v)),
{
    let entry = StateS { envs: st.envs.push(bind_params_s(f.params, args)), output: st.output };
    lemma_return_escapes_while(fns, entry, st1, st2, cond, body, v, (fuel - 3) as nat);
    assert(f.body[0] == StmtS::While { cond, body });
    assert(f.body.len() > 0);
    lemma_return_stops_block(fns, entry, f.body, st2, v, (fuel - 2) as nat);
    lemma_return_ends_call(fns, st, f, args, st2, v, fuel);
}

/// Calling a user function with the wrong number of arguments is a fatal
/// runtime error raised before any of its body runs: the failure state is
/// the caller's own, so no frame remains pushed and nothing was printed.
pub proof fn lemma_call_argc(
    fns: Seq<FunctionS>,
    st: StateS,
    f: FunctionS,
    args: Seq<ValueS>,
    fuel: nat,
)
    requires
        fuel > 0,
        builtin_call_s(f.name, args, st.output) is None,
        lookup_func_s(fns, f.name) == Some(f),
        f.params.len() != args.len(),
    ensures
        dispatch_call_s(fns, st, f.name, args, fuel) == Err::<(StateS, ValueS), AbortS>(
            (st, ErrorKind::Runtime),
        ),
{
}

/// Assigning to a bound name always succeeds, whatever the new value's
/// runtime tag, and afterwards the name reads back as exactly that value.
pub proof fn lemma_assign_then_lookup(envs: Seq<FrameS>, name: Seq<char>, v: ValueS)
    requires
        env_lookup_s(envs, name) is Some,
    ensures
        frames_assign_s(envs, name, v) matches Some(e2) && env_lookup_s(e2, name) == Some(v),
    decreases envs,
{
    if envs.len() > 0 {
        if frame_lookup_s(envs.last(), name) is Some {
            let pushed = envs.last().push((name, v));
            assert(pushed.last() == (name, v));
            let e2 = envs.update(envs.len() - 1, pushed);
            assert(e2.last() == pushed);
            assert(frame_lookup_s(pushed, name) == Some(v));
        } else {
            lemma_assign_then_lookup(envs.drop_last(), name, v);
            let e2pre = frames_assign_s(envs.drop_last(), name, v)->Some_0;
            let e2 = e2pre.push(envs.last());
            assert(e2.last() == envs.last());
            assert(e2.drop_last() =~= e2pre);
        }
    }
}

/// Assignment never re-checks the declared type: when the name is bound
/// anywhere on the scope stack and the right-hand side evaluates to a value
/// of any runtime tag whatsoever — matching the declared type or not — the
/// assignment statement completes normally and rebinds the name to that
/// value. Only a declaration's initializer is held against its type.
pub proof fn lemma_assignment_ignores_declared_type(
    fns: Seq<FunctionS>,
    st: StateS,
    st1: StateS,
    name: Seq<char>,
    expr: ExprS,
    v: ValueS,
    ty: crate::ast::Type,
    fuel: nat,
)
    requires
        fuel > 0,
        eval_expr_s(fns, st, expr, (fuel - 1) as nat) == Ok::<(StateS, ValueS), AbortS>((st1, v)),
        env_lookup_s(st1.envs, name) is Some,
        !value_matches_type_s(v, ty),
    ensures
        exec_stmt_s(fns, st, StmtS::Assign { name, expr }, fuel) matches Ok(p) && p.1 is None
            && env_lookup_s(p.0.envs, name) == Some(v) && p.0.output == st1.output,
{
    lemma_assign_then_lookup(st1.envs, name, v);
}

/// `range(a, b)` is defined exactly on `0 <= a <= b`, where it returns the
/// list of integers from `a` up to but not including `b`; a negative lower
/// bound or a crossed pair is a fatal runtime error.
pub proof fn lemma_range_two_args(a: i64, b: i64)
    ensures
        0 <= a <= b ==> range_builtin_s(seq![ValueS::Int(a), ValueS::Int(b)]) == Ok::<
            ValueS,
            ErrorKind,
        >(ValueS::List(range_vals_s(a as int, b as int))),
        a < 0 || b < a ==> range_builtin_s(seq![ValueS::Int(a), ValueS::Int(b)]) == Err::<
            ValueS,
            ErrorKind,
        >(ErrorKind::Runtime),
{
}

} // verus!
