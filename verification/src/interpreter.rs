//! The tree-walking evaluator. It owns the environment stack and the output
//! lines; the program's function definitions are consulted read-only.
//!
//! Every method is proved to return exactly what the corresponding semantic
//! function in `semantics` says, for the same step budget: the state after
//! a successful call is the semantic state, a returned error carries the
//! semantic error's category, and nothing else can happen.

use vstd::prelude::*;
use vstd::string::{StrSliceExecFns, StringExecFns};
use crate::ast::{
    exprs_view, functions_view, lemma_exprs_view_index, lemma_exprs_view_len,
    lemma_functions_view_index, lemma_functions_view_len, lemma_params_view_index,
    lemma_params_view_len, lemma_stmts_view_index, lemma_stmts_view_len, params_view, stmts_view,
    BinOp, Expr, ExprS, Function, FunctionS, Program, Stmt, StmtS, Type,
};
use crate::error::{Error, ErrorKind};
use crate::lexer::str_eq;
use crate::render::render_value;
use crate::semantics::{
    bind_params_s, define_s, dispatch_call_s, eval_bin_s, eval_expr_s, eval_exprs_s,
    env_lookup_s, exec_block_s, exec_elifs_s, exec_stmt_s, exec_stmts_s, for_loop_s,
    foreach_items_s, foreach_vals_s, frame_lookup_s, frames_assign_s, init_state_s,
    lookup_func_s, pop_env_s, push_env_s, top_stmts_s, AbortS, FrameS, StateS,
};
use crate::value::{
    lemma_values_view_index, lemma_values_view_len,
    lemma_values_view_push, lines_view, opt_val_matches, res_val_matches, value_matches_type_s,
    value_view, values_view, Value, ValueS,
};

verus! {

/// The mirror of one executable scope frame.
pub open spec fn frame_view(s: Seq<(String, Value)>) -> FrameS
    decreases s,
{
    if s.len() == 0 {
        Seq::empty()
    } else {
        frame_view(s.drop_last()).push((s.last().0@, value_view(s.last().1)))
    }
}

/// Views keep a frame's length.
pub proof fn lemma_frame_view_len(s: Seq<(String, Value)>)
    ensures
        frame_view(s).len() == s.len(),
    decreases s,
{
    if s.len() > 0 {
        lemma_frame_view_len(s.drop_last());
    }
}

/// Views distribute over a frame's entries.
pub proof fn lemma_frame_view_index(s: Seq<(String, Value)>, i: int)
    requires
        0 <= i < s.len(),
    ensures
        frame_view(s).len() == s.len(),
        frame_view(s)[i] == (s[i].0@, value_view(s[i].1)),
    decreases s,
{
    lemma_frame_view_len(s);
    if i < s.len() - 1 {
        lemma_frame_view_index(s.drop_last(), i);
    }
}

/// Appending one binding appends its mirror.
pub proof fn lemma_frame_view_push(s: Seq<(String, Value)>, x: (String, Value))
    ensures
        frame_view(s.push(x)) == frame_view(s).push((x.0@, value_view(x.1))),
{
    assert(s.push(x).drop_last() =~= s);
    assert(s.push(x).last() == x);
}

/// The mirror of the whole environment stack.
pub open spec fn envs_view(s: Seq<Vec<(String, Value)>>) -> Seq<FrameS>
    decreases s,
{
    if s.len() == 0 {
        Seq::empty()
    } else {
        envs_view(s.drop_last()).push(frame_view(s.last()@))
    }
}

/// Views keep the stack's depth.
pub proof fn lemma_envs_view_len(s: Seq<Vec<(String, Value)>>)
    ensures
        envs_view(s).len() == s.len(),
    decreases s,
{
    if s.len() > 0 {
        lemma_envs_view_len(s.drop_last());
    }
}

/// Views distribute over the stack's frames.
pub proof fn lemma_envs_view_index(s: Seq<Vec<(String, Value)>>, i: int)
    requires
        0 <= i < s.len(),
    ensures
        envs_view(s).len() == s.len(),
        envs_view(s)[i] == frame_view(s[i]@),
    decreases s,
{
    lemma_envs_view_len(s);
    if i < s.len() - 1 {
        lemma_envs_view_index(s.drop_last(), i);
    }
}

/// Pushing one frame pushes its mirror.
pub proof fn lemma_envs_view_push(s: Seq<Vec<(String, Value)>>, x: Vec<(String, Value)>)
    ensures
        envs_view(s.push(x)) == envs_view(s).push(frame_view(x@)),
{
    assert(s.push(x).drop_last() =~= s);
    assert(s.push(x).last() == x);
}

/// Replacing one frame replaces its mirror.
pub proof fn lemma_envs_view_update(s: Seq<Vec<(String, Value)>>, i: int, x: Vec<(String, Value)>)
    requires
        0 <= i < s.len(),
    ensures
        envs_view(s.update(i, x)) =~= envs_view(s).update(i, frame_view(x@)),
{
    lemma_envs_view_len(s);
    lemma_envs_view_len(s.update(i, x));
    assert forall|k: int| 0 <= k < s.len() implies envs_view(s.update(i, x))[k] == envs_view(
        s,
    ).update(i, frame_view(x@))[k] by {
        lemma_envs_view_index(s.update(i, x), k);
        if k != i {
            lemma_envs_view_index(s, k);
        }
    }
}

/// Whether an executable expression result agrees with the semantics: on
/// success the state and value mirror the semantic ones, on failure the
/// category does.
pub open spec fn expr_res_matches(
    r: Result<Value, Error>,
    st_after: StateS,
    s: Result<(StateS, ValueS), AbortS>,
) -> bool {
    match s {
        Ok(p) => r matches Ok(v) && v@ == p.1 && st_after == p.0,
        Err(a) => r matches Err(e) && e.kind == a.1 && st_after == a.0,
    }
}

/// Whether an executable expression-list result agrees with the semantics.
pub open spec fn exprs_res_matches(
    r: Result<Vec<Value>, Error>,
    st_after: StateS,
    s: Result<(StateS, Seq<ValueS>), AbortS>,
) -> bool {
    match s {
        Ok(p) => r matches Ok(vs) && values_view(vs@) == p.1 && st_after == p.0,
        Err(a) => r matches Err(e) && e.kind == a.1 && st_after == a.0,
    }
}

/// Whether an executable statement result agrees with the semantics.
pub open spec fn stmt_res_matches(
    r: Result<Option<Value>, Error>,
    st_after: StateS,
    s: Result<(StateS, Option<ValueS>), AbortS>,
) -> bool {
    match s {
        Ok(p) => r matches Ok(o) && opt_val_matches(o, p.1) && st_after == p.0,
        Err(a) => r matches Err(e) && e.kind == a.1 && st_after == a.0,
    }
}

/// The evaluator. One instance carries one run's state: the stack of scope
/// frames and everything the run has printed.
pub struct Interpreter {
    env_stack: Vec<Vec<(String, Value)>>,
    output: Vec<String>,
}

impl View for Interpreter {
    type V = StateS;

    closed spec fn view(&self) -> StateS {
        StateS { envs: envs_view(self.env_stack@), output: lines_view(self.output@) }
    }
}

/// Errors lifted along the spine of `eval_exprs_s`: once some prefix fails,
/// the whole list fails the same way.
proof fn lemma_exprs_err_lift(
    fns: Seq<FunctionS>,
    st: StateS,
    es: Seq<ExprS>,
    j: int,
    fuel: nat,
)
    requires
        0 <= j <= es.len(),
        fuel >= es.len() - j,
        eval_exprs_s(fns, st, es.take(j), (fuel - (es.len() - j)) as nat) is Err,
    ensures
        eval_exprs_s(fns, st, es, fuel) == eval_exprs_s(
            fns,
            st,
            es.take(j),
            (fuel - (es.len() - j)) as nat,
        ),
    decreases es.len() - j,
{
    if j == es.len() {
        assert(es.take(j) =~= es);
    } else {
        let f1 = (fuel - (es.len() - j - 1)) as nat;
        assert(es.take(j + 1).drop_last() =~= es.take(j));
        assert(eval_exprs_s(fns, st, es.take(j + 1), f1) == eval_exprs_s(
            fns,
            st,
            es.take(j),
            (fuel - (es.len() - j)) as nat,
        ));
        lemma_exprs_err_lift(fns, st, es, j + 1, fuel);
    }
}

/// Assigning where frame `i` is the innermost frame that knows the name.
proof fn lemma_frames_assign_found(envs: Seq<FrameS>, name: Seq<char>, v: ValueS, i: int)
    requires
        0 <= i < envs.len(),
        frame_lookup_s(envs[i], name) is Some,
        forall|j: int| i < j < envs.len() ==> frame_lookup_s(#[trigger] envs[j], name) is None,
    ensures
        frames_assign_s(envs, name, v) == Some(envs.update(i, envs[i].push((name, v)))),
    decreases envs.len(),
{
    if i == envs.len() - 1 {
        assert(envs.update(i, envs[i].push((name, v))) =~= envs.update(
            envs.len() - 1,
            envs.last().push((name, v)),
        ));
    } else {
        let pre = envs.drop_last();
        assert(forall|j: int| i < j < pre.len() ==> frame_lookup_s(#[trigger] pre[j], name)
            is None);
        lemma_frames_assign_found(pre, name, v, i);
        assert(frames_assign_s(envs, name, v) == Some(
            pre.update(i, pre[i].push((name, v))).push(envs.last()),
        ));
        assert(pre.update(i, pre[i].push((name, v))).push(envs.last()) =~= envs.update(
            i,
            envs[i].push((name, v)),
        ));
    }
}

/// Assigning when no frame knows the name fails.
proof fn lemma_frames_assign_none(envs: Seq<FrameS>, name: Seq<char>, v: ValueS)
    requires
        forall|j: int| 0 <= j < envs.len() ==> frame_lookup_s(#[trigger] envs[j], name) is None,
    ensures
        frames_assign_s(envs, name, v) is None,
    decreases envs,
{
    if envs.len() > 0 {
        let pre = envs.drop_last();
        assert(forall|j: int| 0 <= j < pre.len() ==> pre[j] == envs[j]);
        lemma_frames_assign_none(pre, name, v);
    }
}

/// Looks one name up in one frame, innermost binding first.
#[verifier::loop_isolation(false)]
fn frame_get(frame: &Vec<(String, Value)>, name: &str) -> (r: Option<Value>)
    ensures
        opt_val_matches(r, frame_lookup_s(frame_view(frame@), name@)),
{
    let ghost w = frame_view(frame@);
    proof {
        lemma_frame_view_len(frame@);
    }
    let mut i: usize = frame.len();
    proof {
        assert(w.take(frame@.len() as int) =~= w);
    }
    while i > 0
        invariant
            i <= frame@.len(),
            frame_lookup_s(w, name@) == frame_lookup_s(w.take(i as int), name@),
        decreases i,
    {
        i = i - 1;
        proof {
            lemma_frame_view_index(frame@, i as int);
            assert(w.take(i as int + 1).drop_last() =~= w.take(i as int));
            assert(w.take(i as int + 1).last() == w[i as int]);
        }
        if str_eq(frame[i].0.as_str(), name) {
            return Some(frame[i].1.clone());
        }
    }
    proof {
        assert(w.take(0int) =~= Seq::<(Seq<char>, ValueS)>::empty());
    }
    None
}

/// Whether one frame binds the name at all.
#[verifier::loop_isolation(false)]
fn frame_has(frame: &Vec<(String, Value)>, name: &str) -> (r: bool)
    ensures
        r == (frame_lookup_s(frame_view(frame@), name@) is Some),
{
    let found = frame_get(frame, name);
    match found {
        Some(_) => true,
        None => false,
    }
}

impl Interpreter {
    /// A fresh evaluator: one empty global scope and no output.
    pub fn new() -> (r: Interpreter)
        ensures
            r@ == init_state_s(),
    {
        let mut env_stack: Vec<Vec<(String, Value)>> = Vec::new();
        let ghost pre = env_stack@;
        env_stack.push(Vec::new());
        proof {
            lemma_envs_view_push(pre, env_stack@.last());
            assert(envs_view(pre) == Seq::<FrameS>::empty());
            assert(env_stack@.last()@ =~= Seq::<(String, Value)>::empty());
            assert(frame_view(env_stack@.last()@) == Seq::<(Seq<char>, ValueS)>::empty());
        }
        let r = Interpreter { env_stack, output: Vec::new() };
        proof {
            assert(r@.envs =~~= init_state_s().envs);
            assert(r@.output =~~= init_state_s().output);
            assert(r@ =~= init_state_s());
        }
        r
    }

    /// Everything the run has printed so far, one line per `print` call.
    pub fn output_lines(&self) -> (r: &Vec<String>)
        ensures
            lines_view(r@) == self@.output,
    {
        &self.output
    }

    /// Enters a new scope.
    fn push_env(&mut self)
        ensures
            final(self)@ == push_env_s(old(self)@),
    {
        let ghost prev = self.env_stack@;
        self.env_stack.push(Vec::new());
        proof {
            lemma_envs_view_push(prev, self.env_stack@.last());
            assert(final(self)@ == push_env_s(old(self)@));
        }
    }

    /// Leaves the innermost scope.
    fn pop_env(&mut self)
        ensures
            final(self)@ == pop_env_s(old(self)@),
    {
        let ghost prev = self.env_stack@;
        let popped = self.env_stack.pop();
        proof {
            lemma_envs_view_len(prev);
            if prev.len() > 0 {
                assert(self.env_stack@ =~= prev.drop_last());
                assert(envs_view(prev) == envs_view(prev.drop_last()).push(
                    frame_view(prev.last()@),
                ));
                assert(envs_view(self.env_stack@) =~~= envs_view(prev).drop_last());
            }
        }
    }

    /// Binds a name in the innermost scope, shadowing any earlier binding of
    /// the same name there.
    fn define_var(&mut self, name: String, value: Value)
        ensures
            final(self)@ == define_s(old(self)@, name@, value@),
    {
        let ghost prev = self.env_stack@;
        let ghost namev = name@;
        let ghost valv = value_view(value);
        let n = self.env_stack.len();
        if n == 0 {
            proof {
                lemma_envs_view_len(prev);
            }
            return;
        }
        proof {
            lemma_envs_view_len(prev);
            lemma_envs_view_index(prev, n - 1);
        }
        let ghost oldframe = self.env_stack@[n - 1]@;
        self.env_stack[n - 1].push((name, value));
        proof {
            assert(self.env_stack@ == prev.update(n - 1, self.env_stack@[n - 1 as int]));
            lemma_frame_view_push(oldframe, self.env_stack@[n - 1 as int]@.last());
            lemma_envs_view_update(prev, n - 1, self.env_stack@[n - 1 as int]);
            assert(envs_view(prev).last() == frame_view(oldframe)) by {
                lemma_envs_view_index(prev, n - 1);
            }
            assert(envs_view(self.env_stack@) =~~= envs_view(prev).update(
                n - 1,
                envs_view(prev).last().push((namev, valv)),
            ));
        }
    }

    /// Assigns to an existing binding, searching scopes from innermost to
    /// outermost; assigning an undeclared name is a fatal name error.
    #[verifier::loop_isolation(false)]
    fn assign_var(&mut self, name: &str, value: Value) -> (r: Result<(), Error>)
        ensures
            match frames_assign_s(old(self)@.envs, name@, value@) {
                Some(envs2) => r is Ok && final(self)@ == (StateS {
                    envs: envs2,
                    output: old(self)@.output,
                }),
                None => r matches Err(e) && e.kind == ErrorKind::Name && final(self)@ == old(
                    self,
                )@,
            },
    {
        let ghost prev = self.env_stack@;
        let ghost w = envs_view(prev);
        let ghost namev = name@;
        let ghost valv = value_view(value);
        proof {
            lemma_envs_view_len(prev);
        }
        let mut i: usize = self.env_stack.len();
        while i > 0
            invariant
                i <= prev.len(),
                self.env_stack@ == prev,
                self@.output == old(self)@.output,
                forall|j: int| i <= j < w.len() ==> frame_lookup_s(#[trigger] w[j], namev)
                    is None,
            decreases i,
        {
            i = i - 1;
            proof {
                lemma_envs_view_index(prev, i as int);
            }
            if frame_has(&self.env_stack[i], name) {
                let ghost oldframe = self.env_stack@[i as int]@;
                self.env_stack[i].push((String::from_str(name), value));
                proof {
                    lemma_frame_view_push(oldframe, self.env_stack@[i as int]@.last());
                    lemma_envs_view_update(prev, i as int, self.env_stack@[i as int]);
                    lemma_frames_assign_found(w, namev, valv, i as int);
                    assert(envs_view(self.env_stack@) =~~= w.update(
                        i as int,
                        w[i as int].push((namev, valv)),
                    ));
                    assert(self@ =~= (StateS {
                        envs: w.update(i as int, w[i as int].push((namev, valv))),
                        output: old(self)@.output,
                    }));
                }
                return Ok(());
            }
        }
        proof {
            lemma_frames_assign_none(w, namev, valv);
        }
        Err(Error::with_subject(ErrorKind::Name, "assignment to undeclared variable", name))
    }

    /// Reads a variable, searching scopes from innermost to outermost.
    #[verifier::loop_isolation(false)]
    fn get_var(&self, name: &str) -> (r: Option<Value>)
        ensures
            opt_val_matches(r, env_lookup_s(self@.envs, name@)),
    {
        let ghost w = envs_view(self.env_stack@);
        proof {
            lemma_envs_view_len(self.env_stack@);
        }
        let mut i: usize = self.env_stack.len();
        proof {
            assert(w.take(self.env_stack@.len() as int) =~= w);
        }
        while i > 0
            invariant
                i <= self.env_stack@.len(),
                env_lookup_s(w, name@) == env_lookup_s(w.take(i as int), name@),
            decreases i,
        {
            i = i - 1;
            proof {
                lemma_envs_view_index(self.env_stack@, i as int);
                assert(w.take(i as int + 1).drop_last() =~= w.take(i as int));
                assert(w.take(i as int + 1).last() == w[i as int]);
            }
            let found = frame_get(&self.env_stack[i], name);
            if let Some(v) = found {
                return Some(v);
            }
        }
        proof {
            assert(w.take(0int) =~= Seq::<FrameS>::empty());
        }
        None
    }

    /// Whether a value's runtime tag matches a declared static type.
    fn value_matches_type(value: &Value, ty: &Type) -> (r: bool)
        ensures
            r == value_matches_type_s(value@, *ty),
    {
        match (value, ty) {
            (Value::Int(_), Type::Int) => true,
            (Value::Bool(_), Type::Bool) => true,
            (Value::Str(_), Type::Str) => true,
            (Value::List(_), Type::List) => true,
            _ => false,
        }
    }

    /// Applies one binary operator to two values.
    fn eval_bin(&self, left: Value, op: &BinOp, right: Value) -> (r: Result<Value, Error>)
        ensures
            res_val_matches(r, eval_bin_s(left@, *op, right@)),
    {
        match op {
            BinOp::Add => match (left, right) {
                (Value::Int(a), Value::Int(b)) => match a.checked_add(b) {
                    Some(v) => Ok(Value::Int(v)),
                    None => Err(Error::new(ErrorKind::Runtime, "'+' overflowed")),
                },
                (Value::Str(a), Value::Str(b)) => Ok(Value::Str(a.concat(b.as_str()))),
                _ => Err(Error::new(ErrorKind::Type, "type error in '+'")),
            },
            BinOp::Sub => match (left, right) {
                (Value::Int(a), Value::Int(b)) => match a.checked_sub(b) {
                    Some(v) => Ok(Value::Int(v)),
                    None => Err(Error::new(ErrorKind::Runtime, "'-' overflowed")),
                },
                _ => Err(Error::new(ErrorKind::Type, "'-' wants integers")),
            },
            BinOp::Mul => match (left, right) {
                (Value::Int(a), Value::Int(b)) => match a.checked_mul(b) {
                    Some(v) => Ok(Value::Int(v)),
                    None => Err(Error::new(ErrorKind::Runtime, "'*' overflowed")),
                },
                _ => Err(Error::new(ErrorKind::Type, "'*' wants integers")),
            },
            BinOp::Div => match (left, right) {
                (Value::Int(a), Value::Int(b)) => match a.checked_div(b) {
                    Some(v) => Ok(Value::Int(v)),
                    None => Err(Error::new(ErrorKind::Runtime, "division by zero or overflow")),
                },
                _ => Err(Error::new(ErrorKind::Type, "'/' wants integers")),
            },
            BinOp::Eq => match (left, right) {
                (Value::Int(a), Value::Int(b)) => Ok(Value::Bool(a == b)),
                (Value::Bool(a), Value::Bool(b)) => Ok(Value::Bool(a == b)),
                (Value::Str(a), Value::Str(b)) => Ok(Value::Bool(a == b)),
                _ => Err(Error::new(ErrorKind::Type, "type error in '=='")),
            },
            BinOp::NotEq => match (left, right) {
                (Value::Int(a), Value::Int(b)) => Ok(Value::Bool(a != b)),
                (Value::Bool(a), Value::Bool(b)) => Ok(Value::Bool(a != b)),
                (Value::Str(a), Value::Str(b)) => Ok(Value::Bool(a != b)),
                _ => Err(Error::new(ErrorKind::Type, "type error in '!='")),
            },
            BinOp::Lt => match (left, right) {
                (Value::Int(a), Value::Int(b)) => Ok(Value::Bool(a < b)),
                (Value::Str(a), Value::Str(b)) => Ok(
                    Value::Bool(a.as_str().unicode_len() < b.as_str().unicode_len()),
                ),
                _ => Err(Error::new(ErrorKind::Type, "type error in '<'")),
            },
            BinOp::LtEq => match (left, right) {
                (Value::Int(a), Value::Int(b)) => Ok(Value::Bool(a <= b)),
                (Value::Str(a), Value::Str(b)) => Ok(
                    Value::Bool(a.as_str().unicode_len() <= b.as_str().unicode_len()),
                ),
                _ => Err(Error::new(ErrorKind::Type, "type error in '<='")),
            },
            BinOp::Gt => match (left, right) {
                (Value::Int(a), Value::Int(b)) => Ok(Value::Bool(a > b)),
                (Value::Str(a), Value::Str(b)) => Ok(
                    Value::Bool(a.as_str().unicode_len() > b.as_str().unicode_len()),
                ),
                _ => Err(Error::new(ErrorKind::Type, "type error in '>'")),
            },
            BinOp::GtEq => match (left, right) {
                (Value::Int(a), Value::Int(b)) => Ok(Value::Bool(a >= b)),
                (Value::Str(a), Value::Str(b)) => Ok(
                    Value::Bool(a.as_str().unicode_len() >= b.as_str().unicode_len()),
                ),
                _ => Err(Error::new(ErrorKind::Type, "type error in '>='")),
            },
        }
    }

    /// Evaluates one expression.
    #[verifier::loop_isolation(false)]
    fn eval_expr(&mut self, funcs: &Vec<Function>, e: &Expr, fuel: u64) -> (r: Result<
        Value,
        Error,
    >)
        ensures
            expr_res_matches(
                r,
                final(self)@,
                eval_expr_s(functions_view(funcs@), old(self)@, e@, fuel as nat),
            ),
        decreases fuel, 1nat,
    {
        if fuel == 0 {
            return Err(Error::new(ErrorKind::Resource, "the step budget is exhausted"));
        }
        let fl = fuel - 1;
        match e {
            Expr::Int(n) => Ok(Value::Int(*n)),
            Expr::Bool(b) => Ok(Value::Bool(*b)),
            Expr::Str(s) => Ok(Value::Str(s.clone())),
            Expr::Var(name) => match self.get_var(name.as_str()) {
                Some(v) => Ok(v),
                None => Err(
                    Error::with_subject(ErrorKind::Name, "undefined variable", name.as_str()),
                ),
            },
            Expr::Binary { left, op, right } => {
                let lv = match self.eval_expr(funcs, left, fl) {
                    Ok(v) => v,
                    Err(er) => {
                        return Err(er);
                    },
                };
                let rv = match self.eval_expr(funcs, right, fl) {
                    Ok(v) => v,
                    Err(er) => {
                        return Err(er);
                    },
                };
                self.eval_bin(lv, op, rv)
            },
            Expr::ListLiteral(items) => match self.eval_exprs(funcs, items, fl) {
                Ok(vals) => Ok(Value::List(vals)),
                Err(er) => Err(er),
            },
            Expr::Call { callee, args } => self.eval_call(funcs, callee, args, fuel),
        }
    }

    /// Evaluates a list of expressions, left to right.
    #[verifier::loop_isolation(false)]
    fn eval_exprs(&mut self, funcs: &Vec<Function>, es: &Vec<Expr>, fuel: u64) -> (r: Result<
        Vec<Value>,
        Error,
    >)
        ensures
            exprs_res_matches(
                r,
                final(self)@,
                eval_exprs_s(functions_view(funcs@), old(self)@, exprs_view(es@), fuel as nat),
            ),
        decreases fuel, 0nat,
    {
        let ghost fv = functions_view(funcs@);
        let ghost esv = exprs_view(es@);
        let ghost st0 = self@;
        proof {
            lemma_exprs_view_len(es@);
        }
        let n = es.len();
        if fuel <= n as u64 {
            proof {
                lemma_spine_low_fuel(fv, st0, esv, fuel as nat);
            }
            return Err(Error::new(ErrorKind::Resource, "the step budget is exhausted"));
        }
        let mut out: Vec<Value> = Vec::new();
        let mut j: usize = 0;
        proof {
            assert(esv.take(0int) =~= Seq::<ExprS>::empty());
        }
        while j < n
            invariant
                j <= n,
                eval_exprs_s(fv, st0, esv.take(j as int), (fuel - (n - j)) as nat) == Ok::<
                    _,
                    AbortS,
                >((self@, values_view(out@))),
            decreases n - j,
        {
            let efuel = fuel - ((n - j) as u64);
            proof {
                lemma_exprs_view_index(es@, j as int);
                assert(esv.take(j as int + 1).drop_last() =~= esv.take(j as int));
                assert(esv.take(j as int + 1).last() == esv[j as int]);
            }
            let v = match self.eval_expr(funcs, &es[j], efuel) {
                Ok(v) => v,
                Err(er) => {
                    proof {
                        lemma_exprs_err_lift(fv, st0, esv, j as int + 1, fuel as nat);
                    }
                    return Err(er);
                },
            };
            let ghost prevout = out@;
            out.push(v);
            proof {
                lemma_values_view_push(prevout, out@.last());
            }
            j = j + 1;
        }
        proof {
            assert(esv.take(n as int) =~= esv);
        }
        Ok(out)
    }

    /// Evaluates a call expression: the arguments first, then the builtin
    /// registry, then a user-defined function of the same name.
    #[verifier::loop_isolation(false)]
    fn eval_call(&mut self, funcs: &Vec<Function>, callee: &String, args: &Vec<Expr>, fuel: u64) -> (r:
        Result<Value, Error>)
        ensures
            expr_res_matches(
                r,
                final(self)@,
                eval_expr_s(
                    functions_view(funcs@),
                    old(self)@,
                    ExprS::Call { callee: callee@, args: exprs_view(args@) },
                    fuel as nat,
                ),
            ),
        decreases fuel, 0nat,
    {
        let ghost fv = functions_view(funcs@);
        if fuel == 0 {
            return Err(Error::new(ErrorKind::Resource, "the step budget is exhausted"));
        }
        let fl = fuel - 1;
        let vals = match self.eval_exprs(funcs, args, fl) {
            Ok(vs) => vs,
            Err(er) => {
                return Err(er);
            },
        };
        // Dispatch: builtins first, then user-defined functions.
        if fl == 0 {
            return Err(Error::new(ErrorKind::Resource, "the step budget is exhausted"));
        }
        let fl2 = fl - 1;
        let ghost st1 = self@;
        match crate::stdlib::call_builtin(callee.as_str(), &vals, &mut self.output) {
            Ok(Some(v)) => {
                proof {
                    let dp = dispatch_call_s(
                        fv,
                        st1,
                        callee@,
                        values_view(vals@),
                        (fuel - 1) as nat,
                    );
                    assert(eval_expr_s(
                        fv,
                        old(self)@,
                        ExprS::Call { callee: callee@, args: exprs_view(args@) },
                        fuel as nat,
                    ) == dp);
                    assert(self@ =~= (StateS {
                        envs: st1.envs,
                        output: lines_view(self.output@),
                    }));
                    assert(dp == Ok::<(StateS, ValueS), AbortS>((self@, v@)));
                }
                return Ok(v);
            },
            Ok(None) => {},
            Err(er) => {
                return Err(er);
            },
        }
        // A user-defined function: the last definition of the name wins.
        proof {
            lemma_functions_view_len(funcs@);
        }
        let mut i: usize = funcs.len();
        proof {
            assert(fv.take(funcs@.len() as int) =~= fv);
        }
        while i > 0
            invariant
                i <= funcs@.len(),
                self@ == st1,
                lookup_func_s(fv, callee@) == lookup_func_s(fv.take(i as int), callee@),
            decreases i,
        {
            i = i - 1;
            proof {
                lemma_functions_view_index(funcs@, i as int);
                assert(fv.take(i as int + 1).drop_last() =~= fv.take(i as int));
                assert(fv.take(i as int + 1).last() == fv[i as int]);
            }
            if str_eq(funcs[i].name.as_str(), callee.as_str()) {
                proof {
                    assert(lookup_func_s(fv, callee@) == Some(fv[i as int]));
                }
                return self.call_function(funcs, i, vals, fl2);
            }
        }
        proof {
            assert(fv.take(0int) =~= Seq::<FunctionS>::empty());
        }
        Err(Error::with_subject(ErrorKind::Name, "unknown function", callee.as_str()))
    }

    /// Runs user-defined function number `idx`: the argument count must match
    /// the parameter count exactly; the parameters are bound in a fresh frame
    /// that sees nothing of the caller's scope; the first escaping return —
    /// or the empty value — is the result.
    #[verifier::loop_isolation(false)]
    fn call_function(&mut self, funcs: &Vec<Function>, idx: usize, args: Vec<Value>, fuel: u64) -> (r:
        Result<Value, Error>)
        requires
            idx < funcs@.len(),
        ensures
            ({
                let fv = functions_view(funcs@);
                let f = fv[idx as int];
                if f.params.len() != values_view(args@).len() {
                    r matches Err(e) && e.kind == ErrorKind::Runtime && final(self)@ == old(
                        self,
                    )@
                } else {
                    let st1 = StateS {
                        envs: old(self)@.envs.push(bind_params_s(f.params, values_view(args@))),
                        output: old(self)@.output,
                    };
                    match exec_stmts_s(fv, st1, f.body, fuel as nat) {
                        Ok(p) => r matches Ok(v) && final(self)@ == pop_env_s(p.0) && (match p.1 {
                            Some(w) => v@ == w,
                            None => v@ == ValueS::Unit,
                        }),
                        Err(a) => r matches Err(e) && e.kind == a.1 && final(self)@ == a.0,
                    }
                }
            }),
        decreases fuel, 2nat,
    {
        let ghost fv = functions_view(funcs@);
        let func = &funcs[idx];
        proof {
            lemma_functions_view_index(funcs@, idx as int);
            lemma_params_view_len(func.params@);
            lemma_values_view_len(args@);
        }
        if func.params.len() != args.len() {
            let mut m = String::from_str("function '");
            m.append(func.name.as_str());
            m.append("' expected ");
            m.append(crate::render::u64_to_string(func.params.len() as u64).as_str());
            m.append(" arguments, got ");
            m.append(crate::render::u64_to_string(args.len() as u64).as_str());
            return Err(Error { kind: ErrorKind::Runtime, msg: m });
        }
        let ghost pv = params_view(func.params@);
        let ghost av = values_view(args@);
        let mut frame: Vec<(String, Value)> = Vec::new();
        let mut j: usize = 0;
        proof {
            assert(pv.take(0int) =~= Seq::<(Seq<char>, Type)>::empty());
            assert(av.take(0int) =~= Seq::<ValueS>::empty());
        }
        while j < func.params.len()
            invariant
                j <= func.params@.len(),
                frame_view(frame@) == bind_params_s(pv.take(j as int), av.take(j as int)),
            decreases func.params@.len() - j,
        {
            proof {
                lemma_params_view_index(func.params@, j as int);
                lemma_values_view_index(args@, j as int);
                assert(pv.take(j as int + 1).drop_last() =~= pv.take(j as int));
                assert(pv.take(j as int + 1).last() == pv[j as int]);
                assert(av.take(j as int + 1).drop_last() =~= av.take(j as int));
                assert(av.take(j as int + 1).last() == av[j as int]);
            }
            let ghost prevframe = frame@;
            let pname = func.params[j].0.clone();
            let aval = args[j].clone();
            frame.push((pname, aval));
            proof {
                lemma_frame_view_push(prevframe, frame@.last());
            }
            j = j + 1;
        }
        proof {
            assert(pv.take(func.params@.len() as int) =~= pv);
            assert(av.take(args@.len() as int) =~= av);
        }
        let ghost prevstack = self.env_stack@;
        self.env_stack.push(frame);
        proof {
            lemma_envs_view_push(prevstack, self.env_stack@.last());
        }
        let out = match self.exec_stmts(funcs, &func.body, fuel) {
            Ok(Some(v)) => v,
            Ok(None) => Value::Unit,
            Err(er) => {
                return Err(er);
            },
        };
        self.pop_env();
        Ok(out)
    }

    /// Runs one statement; `Ok(Some(v))` signals a `return` escaping upward.
    #[verifier::loop_isolation(false)]
    #[verifier::rlimit(100)]
    fn exec_stmt(&mut self, funcs: &Vec<Function>, stmt: &Stmt, fuel: u64) -> (r: Result<
        Option<Value>,
        Error,
    >)
        ensures
            stmt_res_matches(
                r,
                final(self)@,
                exec_stmt_s(functions_view(funcs@), old(self)@, stmt@, fuel as nat),
            ),
        decreases fuel, 3nat,
    {
        let ghost fv = functions_view(funcs@);
        if fuel == 0 {
            return Err(Error::new(ErrorKind::Resource, "the step budget is exhausted"));
        }
        let fl = fuel - 1;
        match stmt {
            Stmt::VarDecl { name, ty, init } => {
                let v = match self.eval_expr(funcs, init, fl) {
                    Ok(v) => v,
                    Err(er) => {
                        return Err(er);
                    },
                };
                if !Self::value_matches_type(&v, ty) {
                    let shown = render_value(&v);
                    return Err(
                        Error::with_subject(
                            ErrorKind::Type,
                            "type error: the declared type does not match the initializer",
                            shown.as_str(),
                        ),
                    );
                }
                self.define_var(name.clone(), v);
                Ok(None)
            },
            Stmt::ExprStmt(e) => match self.eval_expr(funcs, e, fl) {
                Ok(_) => Ok(None),
                Err(er) => Err(er),
            },
            Stmt::Assign { name, expr } => {
                let v = match self.eval_expr(funcs, expr, fl) {
                    Ok(v) => v,
                    Err(er) => {
                        return Err(er);
                    },
                };
                match self.assign_var(name.as_str(), v) {
                    Ok(_) => Ok(None),
                    Err(er) => Err(er),
                }
            },
            Stmt::Return(opt) => match opt {
                Some(e) => match self.eval_expr(funcs, e, fl) {
                    Ok(v) => Ok(Some(v)),
                    Err(er) => Err(er),
                },
                None => Ok(Some(Value::Unit)),
            },
            Stmt::Branch { cond, then_branch, else_if_branches, else_branch } => {
                let cv = match self.eval_expr(funcs, cond, fl) {
                    Ok(v) => v,
                    Err(er) => {
                        return Err(er);
                    },
                };
                match cv {
                    Value::Bool(true) => self.exec_block(funcs, then_branch, fl),
                    Value::Bool(false) => self.exec_elifs(funcs, stmt, fl),
                    _ => Err(Error::new(ErrorKind::Type, "an 'if' condition must be a boolean")),
                }
            },
            Stmt::ElseIfBranch { .. } => Err(
                Error::new(ErrorKind::Syntax, "an 'elif' arm outside its 'if'"),
            ),
            Stmt::While { cond, body } => {
                let ghost st0 = old(self)@;
                let ghost sv = stmt@;
                let mut f = fuel;
                loop
                    invariant
                        f <= fuel,
                        exec_stmt_s(fv, st0, sv, fuel as nat) == exec_stmt_s(fv, self@, sv, f as nat),
                        sv == stmt@,
                    decreases f,
                {
                    if f == 0 {
                        return Err(
                            Error::new(ErrorKind::Resource, "the step budget is exhausted"),
                        );
                    }
                    let lf = f - 1;
                    let cv = match self.eval_expr(funcs, cond, lf) {
                        Ok(v) => v,
                        Err(er) => {
                            return Err(er);
                        },
                    };
                    match cv {
                        Value::Bool(false) => {
                            return Ok(None);
                        },
                        Value::Bool(true) => {},
                        _ => {
                            return Err(
                                Error::new(
                                    ErrorKind::Type,
                                    "a 'while' condition must be a boolean",
                                ),
                            );
                        },
                    }
                    match self.exec_block(funcs, body, lf) {
                        Ok(Some(v)) => {
                            return Ok(Some(v));
                        },
                        Ok(None) => {},
                        Err(er) => {
                            return Err(er);
                        },
                    }
                    f = lf;
                }
            },
            Stmt::For { init, cond, step, body } => {
                let ghost sv = stmt@;
                self.push_env();
                if let Some(b) = init {
                    match self.exec_stmt(funcs, b, fl) {
                        Ok(_) => {},
                        Err(er) => {
                            return Err(er);
                        },
                    }
                }
                let ghost st_loop = self@;
                let mut f = fl;
                loop
                    invariant
                        f <= fl,
                        sv == stmt@,
                        sv is For,
                        for_loop_s(fv, st_loop, sv, fl as nat) == for_loop_s(fv, self@, sv, f as nat),
                    decreases f,
                {
                    if f == 0 {
                        return Err(
                            Error::new(ErrorKind::Resource, "the step budget is exhausted"),
                        );
                    }
                    let lf = f - 1;
                    let keep_going = match cond {
                        Some(c) => {
                            let cv = match self.eval_expr(funcs, c, lf) {
                                Ok(v) => v,
                                Err(er) => {
                                    return Err(er);
                                },
                            };
                            match cv {
                                Value::Bool(b) => b,
                                _ => {
                                    return Err(
                                        Error::new(
                                            ErrorKind::Type,
                                            "a 'for' condition must be a boolean",
                                        ),
                                    );
                                },
                            }
                        },
                        None => true,
                    };
                    if !keep_going {
                        self.pop_env();
                        return Ok(None);
                    }
                    match self.exec_block(funcs, body, lf) {
                        Ok(Some(v)) => {
                            self.pop_env();
                            return Ok(Some(v));
                        },
                        Ok(None) => {},
                        Err(er) => {
                            return Err(er);
                        },
                    }
                    if let Some(b2) = step {
                        match self.exec_stmt(funcs, b2, lf) {
                            Ok(_) => {},
                            Err(er) => {
                                return Err(er);
                            },
                        }
                    }
                    f = lf;
                }
            },
            Stmt::ForEach { var_name, iter_expr, body } => {
                let ghost sv = stmt@;
                let itv = match self.eval_expr(funcs, iter_expr, fl) {
                    Ok(v) => v,
                    Err(er) => {
                        return Err(er);
                    },
                };
                let items = match Self::foreach_materialize(itv) {
                    Ok(vs) => vs,
                    Err(er) => {
                        return Err(er);
                    },
                };
                self.push_env();
                let ghost st_loop = self@;
                let ghost itemsv = values_view(items@);
                proof {
                    lemma_values_view_len(items@);
                }
                let mut f = fl;
                let mut i: usize = 0;
                loop
                    invariant
                        f <= fl,
                        sv == stmt@,
                        sv is ForEach,
                        i <= items@.len(),
                        itemsv == values_view(items@),
                        itemsv.len() == items@.len(),
                        foreach_vals_s(fv, st_loop, sv, itemsv, 0, fl as nat) == foreach_vals_s(
                            fv,
                            self@,
                            sv,
                            itemsv,
                            i as int,
                            f as nat,
                        ),
                    decreases f,
                {
                    if f == 0 {
                        return Err(
                            Error::new(ErrorKind::Resource, "the step budget is exhausted"),
                        );
                    }
                    let lf = f - 1;
                    if i >= items.len() {
                        self.pop_env();
                        return Ok(None);
                    }
                    proof {
                        lemma_values_view_index(items@, i as int);
                    }
                    let item = items[i].clone();
                    self.define_var(var_name.clone(), item);
                    match self.exec_block(funcs, body, lf) {
                        Ok(Some(v)) => {
                            self.pop_env();
                            return Ok(Some(v));
                        },
                        Ok(None) => {},
                        Err(er) => {
                            return Err(er);
                        },
                    }
                    i = i + 1;
                    f = lf;
                }
            },
        }
    }

    /// What a for-each loop walks over, materialised as a list of values.
    #[verifier::loop_isolation(false)]
    fn foreach_materialize(v: Value) -> (r: Result<Vec<Value>, Error>)
        ensures
            match foreach_items_s(v@) {
                Ok(ws) => r matches Ok(out) && values_view(out@) == ws,
                Err(k) => r matches Err(e) && e.kind == k,
            },
    {
        match v {
            Value::Int(n) => {
                if n < 0 {
                    return Err(
                        Error::new(ErrorKind::Runtime, "for-each over a negative integer"),
                    );
                }
                let ghost target = Seq::new(n as nat, |i: int| ValueS::Int(i as i64));
                let mut out: Vec<Value> = Vec::new();
                let mut i: i64 = 0;
                while i < n
                    invariant
                        0 <= i <= n,
                        out@.len() == i,
                        values_view(out@) =~= target.take(i as int),
                    decreases n - i,
                {
                    let ghost prevout = out@;
                    out.push(Value::Int(i));
                    proof {
                        lemma_values_view_push(prevout, out@.last());
                        assert(values_view(out@) =~= target.take(i as int + 1));
                    }
                    i = i + 1;
                }
                proof {
                    assert(target.take(n as int) =~= target);
                }
                Ok(out)
            },
            Value::Str(s) => {
                let ghost target = Seq::new(s@.len(), |i: int| ValueS::Str(s@.subrange(i, i + 1)));
                let len = s.as_str().unicode_len();
                let mut out: Vec<Value> = Vec::new();
                let mut i: usize = 0;
                while i < len
                    invariant
                        0 <= i <= len,
                        len == s@.len(),
                        out@.len() == i,
                        values_view(out@) =~= target.take(i as int),
                    decreases len - i,
                {
                    let ghost prevout = out@;
                    let piece = String::from_str(s.as_str().substring_char(i, i + 1));
                    out.push(Value::Str(piece));
                    proof {
                        lemma_values_view_push(prevout, out@.last());
                        assert(values_view(out@) =~= target.take(i as int + 1));
                    }
                    i = i + 1;
                }
                proof {
                    assert(target.take(len as int) =~= target);
                }
                Ok(out)
            },
            Value::List(items) => Ok(items),
            _ => Err(
                Error::new(ErrorKind::Runtime, "for-each wants an integer, string or list"),
            ),
        }
    }

    /// Tries the `elif` arms of a branch whose main condition was false,
    /// then the `else` block.
    #[verifier::loop_isolation(false)]
    fn exec_elifs(&mut self, funcs: &Vec<Function>, stmt: &Stmt, fuel: u64) -> (r: Result<
        Option<Value>,
        Error,
    >)
        requires
            stmt@ is Branch,
        ensures
            stmt_res_matches(
                r,
                final(self)@,
                exec_elifs_s(functions_view(funcs@), old(self)@, stmt@, 0, fuel as nat),
            ),
        decreases fuel, 2nat,
    {
        let ghost fv = functions_view(funcs@);
        let ghost sv = stmt@;
        let ghost st0 = old(self)@;
        match stmt {
            Stmt::Branch { cond, then_branch, else_if_branches, else_branch } => {
                proof {
                    lemma_stmts_view_len(else_if_branches@);
                }
                let mut f = fuel;
                let mut i: usize = 0;
                loop
                    invariant
                        f <= fuel,
                        sv == stmt@,
                        sv is Branch,
                        i <= else_if_branches@.len(),
                        sv->Branch_else_if_branches == stmts_view(else_if_branches@),
                        sv->Branch_else_branch == stmts_view(else_branch@),
                        sv->Branch_else_if_branches.len() == else_if_branches@.len(),
                        exec_elifs_s(fv, st0, sv, 0, fuel as nat) == exec_elifs_s(
                            fv,
                            self@,
                            sv,
                            i as int,
                            f as nat,
                        ),
                    decreases f,
                {
                    if f == 0 {
                        return Err(
                            Error::new(ErrorKind::Resource, "the step budget is exhausted"),
                        );
                    }
                    let lf = f - 1;
                    if i >= else_if_branches.len() {
                        if else_branch.len() > 0 {
                            proof {
                                lemma_stmts_view_len(else_branch@);
                            }
                            return self.exec_block(funcs, else_branch, lf);
                        }
                        proof {
                            lemma_stmts_view_len(else_branch@);
                        }
                        return Ok(None);
                    }
                    proof {
                        lemma_stmts_view_index(else_if_branches@, i as int);
                    }
                    match &else_if_branches[i] {
                        Stmt::ElseIfBranch { cond: c2, then_branch: tb } => {
                            let cv = match self.eval_expr(funcs, c2, lf) {
                                Ok(v) => v,
                                Err(er) => {
                                    return Err(er);
                                },
                            };
                            match cv {
                                Value::Bool(true) => {
                                    return self.exec_block(funcs, tb, lf);
                                },
                                Value::Bool(false) => {},
                                _ => {
                                    return Err(
                                        Error::new(
                                            ErrorKind::Type,
                                            "an 'elif' condition must be a boolean",
                                        ),
                                    );
                                },
                            }
                        },
                        _ => {
                            return Err(
                                Error::new(ErrorKind::Syntax, "a branch arm that is not 'elif'"),
                            );
                        },
                    }
                    i = i + 1;
                    f = lf;
                }
            },
            _ => Err(Error::new(ErrorKind::Syntax, "not a branch statement")),
        }
    }

    /// Runs the statements of a block in order, stopping at the first
    /// escaping return or error.
    #[verifier::loop_isolation(false)]
    fn exec_stmts(&mut self, funcs: &Vec<Function>, body: &Vec<Stmt>, fuel: u64) -> (r: Result<
        Option<Value>,
        Error,
    >)
        ensures
            stmt_res_matches(
                r,
                final(self)@,
                exec_stmts_s(functions_view(funcs@), old(self)@, stmts_view(body@), fuel as nat),
            ),
        decreases fuel, 1nat,
    {
        let ghost fv = functions_view(funcs@);
        let ghost ssv = stmts_view(body@);
        let ghost st0 = old(self)@;
        proof {
            lemma_stmts_view_len(body@);
        }
        let n = body.len();
        let mut f = fuel;
        let mut j: usize = 0;
        proof {
            assert(ssv.skip(0int) =~= ssv);
        }
        loop
            invariant
                f <= fuel,
                j <= n,
                n == body@.len(),
                ssv.len() == n,
                exec_stmts_s(fv, st0, ssv, fuel as nat) == exec_stmts_s(
                    fv,
                    self@,
                    ssv.skip(j as int),
                    f as nat,
                ),
            decreases f,
        {
            if f == 0 {
                return Err(Error::new(ErrorKind::Resource, "the step budget is exhausted"));
            }
            let lf = f - 1;
            if j >= n {
                return Ok(None);
            }
            proof {
                lemma_stmts_view_index(body@, j as int);
                assert(ssv.skip(j as int)[0] == ssv[j as int]);
                assert(ssv.skip(j as int).drop_first() =~= ssv.skip(j as int + 1));
            }
            match self.exec_stmt(funcs, &body[j], lf) {
                Ok(None) => {},
                Ok(Some(v)) => {
                    return Ok(Some(v));
                },
                Err(er) => {
                    return Err(er);
                },
            }
            j = j + 1;
            f = lf;
        }
    }

    /// Runs a block `{ ... }` in a fresh scope, popped again on the way out.
    #[verifier::loop_isolation(false)]
    fn exec_block(&mut self, funcs: &Vec<Function>, body: &Vec<Stmt>, fuel: u64) -> (r: Result<
        Option<Value>,
        Error,
    >)
        ensures
            stmt_res_matches(
                r,
                final(self)@,
                exec_block_s(functions_view(funcs@), old(self)@, stmts_view(body@), fuel as nat),
            ),
        decreases fuel, 2nat,
    {
        if fuel == 0 {
            return Err(Error::new(ErrorKind::Resource, "the step budget is exhausted"));
        }
        let fl = fuel - 1;
        self.push_env();
        let out = match self.exec_stmts(funcs, body, fl) {
            Ok(o) => o,
            Err(er) => {
                return Err(er);
            },
        };
        self.pop_env();
        Ok(out)
    }

    /// Runs a whole program: its function definitions are registered, then
    /// each top-level statement runs in order against the global scope. A
    /// top-level `return` is discarded; the first error, including an
    /// exhausted step budget, aborts the run. On success the evaluator holds
    /// the run's final state — in particular, everything it printed.
    #[verifier::loop_isolation(false)]
    pub fn run(&mut self, program: &Program, fuel: u64) -> (r: Result<(), Error>)
        ensures
            match top_stmts_s(
                program@.functions,
                old(self)@,
                program@.stmts,
                fuel as nat,
            ) {
                Ok(st) => r is Ok && final(self)@ == st,
                Err(a) => r matches Err(e) && e.kind == a.1 && final(self)@ == a.0,
            },
    {
        let ghost fv = functions_view(program.functions@);
        let ghost ssv = stmts_view(program.stmts@);
        let ghost st0 = old(self)@;
        proof {
            lemma_stmts_view_len(program.stmts@);
        }
        let funcs = &program.functions;
        let n = program.stmts.len();
        let mut f = fuel;
        let mut j: usize = 0;
        proof {
            assert(ssv.skip(0int) =~= ssv);
        }
        loop
            invariant
                f <= fuel,
                j <= n,
                n == program.stmts@.len(),
                ssv.len() == n,
                fv == functions_view(program.functions@),
                ssv == stmts_view(program.stmts@),
                top_stmts_s(fv, st0, ssv, fuel as nat) == top_stmts_s(
                    fv,
                    self@,
                    ssv.skip(j as int),
                    f as nat,
                ),
            decreases f,
        {
            if f == 0 {
                return Err(Error::new(ErrorKind::Resource, "the step budget is exhausted"));
            }
            let lf = f - 1;
            if j >= n {
                return Ok(());
            }
            proof {
                lemma_stmts_view_index(program.stmts@, j as int);
                assert(ssv.skip(j as int)[0] == ssv[j as int]);
                assert(ssv.skip(j as int).drop_first() =~= ssv.skip(j as int + 1));
            }
            match self.exec_stmt(funcs, &program.stmts[j], lf) {
                Ok(_) => {},
                Err(er) => {
                    return Err(er);
                },
            }
            j = j + 1;
            f = lf;
        }
    }
}

/// Too little budget for even the spine of an argument list: the semantics
/// reports exhaustion before it evaluates anything.
proof fn lemma_spine_low_fuel(fns: Seq<FunctionS>, st: StateS, es: Seq<ExprS>, fuel: nat)
    requires
        fuel <= es.len(),
    ensures
        eval_exprs_s(fns, st, es, fuel) == Err::<(StateS, Seq<ValueS>), AbortS>(
            (st, ErrorKind::Resource),
        ),
    decreases fuel,
{
    if fuel > 0 {
        lemma_spine_low_fuel(fns, st, es.drop_last(), (fuel - 1) as nat);
    }
}

} // verus!
