//! Runtime values. A value is a tagged union of the five shapes the language
//! can compute; copying one duplicates its contents, so no two variables ever
//! alias.

use vstd::prelude::*;
use crate::ast::Type;
use crate::error::{Error, ErrorKind};

verus! {

/// A runtime value.
#[derive(Debug)]
pub enum Value {
    /// 64-bit signed integer.
    Int(i64),
    /// Boolean.
    Bool(bool),
    /// String.
    Str(String),
    /// List of values, ordered.
    List(Vec<Value>),
    /// The empty value: the result of a statement, a call that never
    /// returns a value, or a bare `return`.
    Unit,
}

/// Spec mirror of `Value`.
#[verifier::ext_equal]
pub enum ValueS {
    Int(i64),
    Bool(bool),
    Str(Seq<char>),
    List(Seq<ValueS>),
    Unit,
}

/// The mirror of one value.
pub open spec fn value_view(v: Value) -> ValueS
    decreases v,
{
    match v {
        Value::Int(n) => ValueS::Int(n),
        Value::Bool(b) => ValueS::Bool(b),
        Value::Str(s) => ValueS::Str(s@),
        Value::List(items) => ValueS::List(values_view(items@)),
        Value::Unit => ValueS::Unit,
    }
}

/// The mirrors of a sequence of values, in order.
pub open spec fn values_view(s: Seq<Value>) -> Seq<ValueS>
    decreases s,
{
    if s.len() == 0 {
        Seq::empty()
    } else {
        values_view(s.drop_last()).push(value_view(s.last()))
    }
}

impl View for Value {
    type V = ValueS;

    open spec fn view(&self) -> ValueS {
        value_view(*self)
    }
}

/// Views keep the length of a value sequence.
pub proof fn lemma_values_view_len(s: Seq<Value>)
    ensures
        values_view(s).len() == s.len(),
    decreases s,
{
    if s.len() > 0 {
        lemma_values_view_len(s.drop_last());
    }
}

/// Views distribute over indexing: the mirror of the `i`th value is the `i`th
/// mirror.
pub proof fn lemma_values_view_index(s: Seq<Value>, i: int)
    requires
        0 <= i < s.len(),
    ensures
        values_view(s).len() == s.len(),
        values_view(s)[i] == value_view(s[i]),
    decreases s,
{
    lemma_values_view_len(s);
    if i < s.len() - 1 {
        lemma_values_view_index(s.drop_last(), i);
    }
}

impl Clone for Value {
    /// Copying a value duplicates its contents.
    #[verifier::loop_isolation(false)]
    fn clone(&self) -> (r: Value)
        ensures
            r@ == self@,
        decreases *self,
    {
        match self {
            Value::Int(n) => Value::Int(*n),
            Value::Bool(b) => Value::Bool(*b),
            Value::Str(s) => Value::Str(s.clone()),
            Value::List(items) => {
                let mut out: Vec<Value> = Vec::new();
                let mut i: usize = 0;
                while i < items.len()
                    invariant
                        i <= items.len(),
                        out@.len() == i,
                        values_view(out@) == values_view(items@.take(i as int)),
                    decreases items.len() - i,
                {
                    let ghost prev = out@;
                    proof {
                        assert(self->List_0 == *items);
                        assert(decreases_to!(*self => self->List_0));
                        assert(decreases_to!(*items => items@[i as int]));
                    }
                    let dup = items[i].clone();
                    out.push(dup);
                    proof {
                        let t1 = items@.take(i as int + 1);
                        assert(t1.drop_last() =~= items@.take(i as int));
                        assert(t1.last() == items@[i as int]);
                        assert(out@.drop_last() =~= prev);
                        assert(values_view(out@) == values_view(prev).push(value_view(out@.last())));
                        assert(values_view(t1) == values_view(t1.drop_last()).push(value_view(t1.last())));
                    }
                    i = i + 1;
                }
                proof {
                    assert(items@.take(items@.len() as int) =~= items@);
                }
                Value::List(out)
            },
            Value::Unit => Value::Unit,
        }
    }
}

/// Duplicates every value of a list, in order.
#[verifier::loop_isolation(false)]
pub fn clone_values(items: &Vec<Value>) -> (r: Vec<Value>)
    ensures
        values_view(r@) == values_view(items@),
        r@.len() == items@.len(),
{
    let mut out: Vec<Value> = Vec::new();
    let mut i: usize = 0;
    while i < items.len()
        invariant
            i <= items.len(),
            out@.len() == i,
            values_view(out@) == values_view(items@.take(i as int)),
        decreases items.len() - i,
    {
        let ghost prev = out@;
        proof {
            lemma_values_view_index(items@, i as int);
        }
        let dup = items[i].clone();
        out.push(dup);
        proof {
            let t1 = items@.take(i as int + 1);
            assert(t1.drop_last() =~= items@.take(i as int));
            assert(t1.last() == items@[i as int]);
            assert(out@.drop_last() =~= prev);
            assert(values_view(out@) == values_view(prev).push(value_view(out@.last())));
            assert(values_view(t1) == values_view(t1.drop_last()).push(value_view(t1.last())));
        }
        i = i + 1;
    }
    proof {
        assert(items@.take(items@.len() as int) =~= items@);
    }
    out
}

/// Appending one value appends its mirror.
pub proof fn lemma_values_view_push(s: Seq<Value>, x: Value)
    ensures
        values_view(s.push(x)) == values_view(s).push(value_view(x)),
{
    assert(s.push(x).drop_last() =~= s);
    assert(s.push(x).last() == x);
}

/// Whether an executable result agrees with a semantic one: a computed value
/// mirrors the value the semantics names, or a returned error carries the
/// category the semantics names.
pub open spec fn res_val_matches(r: Result<Value, Error>, s: Result<ValueS, ErrorKind>) -> bool {
    match (r, s) {
        (Ok(v), Ok(vs)) => v@ == vs,
        (Err(e), Err(k)) => e.kind == k,
        _ => false,
    }
}

/// Whether an optional executable value mirrors an optional semantic one.
pub open spec fn opt_val_matches(o: Option<Value>, s: Option<ValueS>) -> bool {
    match (o, s) {
        (Some(v), Some(vs)) => v@ == vs,
        (None, None) => true,
        _ => false,
    }
}

/// The mirrors of a sequence of text lines, in order.
pub open spec fn lines_view(s: Seq<String>) -> Seq<Seq<char>>
    decreases s,
{
    if s.len() == 0 {
        Seq::empty()
    } else {
        lines_view(s.drop_last()).push(s.last()@)
    }
}

/// Views keep the length of a line sequence.
pub proof fn lemma_lines_view_len(s: Seq<String>)
    ensures
        lines_view(s).len() == s.len(),
    decreases s,
{
    if s.len() > 0 {
        lemma_lines_view_len(s.drop_last());
    }
}

/// Views distribute over indexing for line sequences.
pub proof fn lemma_lines_view_index(s: Seq<String>, i: int)
    requires
        0 <= i < s.len(),
    ensures
        lines_view(s).len() == s.len(),
        lines_view(s)[i] == s[i]@,
    decreases s,
{
    lemma_lines_view_len(s);
    if i < s.len() - 1 {
        lemma_lines_view_index(s.drop_last(), i);
    }
}

/// Appending one line appends its mirror.
pub proof fn lemma_lines_view_push(s: Seq<String>, x: String)
    ensures
        lines_view(s.push(x)) == lines_view(s).push(x@),
{
    assert(s.push(x).drop_last() =~= s);
    assert(s.push(x).last() == x);
}

/// Whether a value's runtime tag matches a declared static type. This is the
/// single type check the language performs, at the moment of declaration.
pub open spec fn value_matches_type_s(v: ValueS, ty: Type) -> bool {
    match (v, ty) {
        (ValueS::Int(_), Type::Int) => true,
        (ValueS::Bool(_), Type::Bool) => true,
        (ValueS::Str(_), Type::Str) => true,
        (ValueS::List(_), Type::List) => true,
        _ => false,
    }
}

} // verus!
