//! The builtin registry. The evaluator consults it by name on every call
//! expression, before user-defined functions; a name it does not recognise
//! defers to user-function lookup.
//!
//! `print` appends one rendered line to the run's output; every other builtin
//! is a pure function of its arguments. List helpers copy: they return a new
//! list and never mutate their argument.

use vstd::prelude::*;
use vstd::string::{StrSliceExecFns, StringExecFns};
use crate::error::{Error, ErrorKind};
use crate::lexer::{digit_val, digits_val_s, is_digit_char, lemma_digits_val_mono};
use crate::render::{render_value, render_value_s};
use crate::value::{
    clone_values, lemma_lines_view_push, lemma_values_view_index, lemma_values_view_len,
    lemma_values_view_push, lines_view, res_val_matches, value_view, values_view, Value, ValueS,
};

verus! {

/// One line as `print` writes it: the arguments' top-level renderings joined
/// by single spaces.
pub open spec fn print_line_s(args: Seq<ValueS>) -> Seq<char>
    decreases args,
{
    if args.len() == 0 {
        Seq::empty()
    } else if args.len() == 1 {
        render_value_s(args[0])
    } else {
        print_line_s(args.drop_last()) + " "@ + render_value_s(args.last())
    }
}

/// What `len` returns: the character count of a string or the element count
/// of a list; anything else is a type error, any other argument count a
/// runtime error.
pub open spec fn len_builtin_s(args: Seq<ValueS>) -> Result<ValueS, ErrorKind> {
    if args.len() != 1 {
        Err(ErrorKind::Runtime)
    } else {
        match args[0] {
            ValueS::Str(s) => if s.len() <= i64::MAX {
                Ok(ValueS::Int(s.len() as i64))
            } else {
                Err(ErrorKind::Runtime)
            },
            ValueS::List(items) => if items.len() <= i64::MAX {
                Ok(ValueS::Int(items.len() as i64))
            } else {
                Err(ErrorKind::Runtime)
            },
            _ => Err(ErrorKind::Type),
        }
    }
}

/// The total of a prefix of integer list elements, added left to right with
/// 64-bit overflow checking; a non-integer element is a type error, an
/// overflow a runtime error.
pub open spec fn sum_vals_s(items: Seq<ValueS>) -> Result<i64, ErrorKind>
    decreases items,
{
    if items.len() == 0 {
        Ok(0i64)
    } else {
        match sum_vals_s(items.drop_last()) {
            Ok(acc) => match items.last() {
                ValueS::Int(n) => match acc.checked_add(n) {
                    Some(v) => Ok(v),
                    None => Err(ErrorKind::Runtime),
                },
                _ => Err(ErrorKind::Type),
            },
            Err(k) => Err(k),
        }
    }
}

/// What `sum` returns: the total of a list of integers.
pub open spec fn sum_builtin_s(args: Seq<ValueS>) -> Result<ValueS, ErrorKind> {
    if args.len() != 1 {
        Err(ErrorKind::Runtime)
    } else {
        match args[0] {
            ValueS::List(items) => match sum_vals_s(items) {
                Ok(total) => Ok(ValueS::Int(total)),
                Err(k) => Err(k),
            },
            _ => Err(ErrorKind::Type),
        }
    }
}

/// The integers from `a` up to but not including `b`, as list elements.
pub open spec fn range_vals_s(a: int, b: int) -> Seq<ValueS> {
    Seq::new((b - a) as nat, |i: int| ValueS::Int((a + i) as i64))
}

/// What `range` returns: `range(n)` is the list `[0 .. n-1]`, `range(a, b)`
/// the list `[a .. b-1]`. A negative lower bound, or an upper bound below
/// the lower, is a runtime error; non-integer bounds are a type error.
pub open spec fn range_builtin_s(args: Seq<ValueS>) -> Result<ValueS, ErrorKind> {
    if args.len() == 1 {
        match args[0] {
            ValueS::Int(n) => if n < 0 {
                Err(ErrorKind::Runtime)
            } else {
                Ok(ValueS::List(range_vals_s(0, n as int)))
            },
            _ => Err(ErrorKind::Type),
        }
    } else if args.len() == 2 {
        match (args[0], args[1]) {
            (ValueS::Int(a), ValueS::Int(b)) => if a < 0 || b < a {
                Err(ErrorKind::Runtime)
            } else {
                Ok(ValueS::List(range_vals_s(a as int, b as int)))
            },
            _ => Err(ErrorKind::Type),
        }
    } else {
        Err(ErrorKind::Runtime)
    }
}

/// What `push` returns: a new list, the first argument with the second
/// appended; the original list is untouched.
pub open spec fn push_builtin_s(args: Seq<ValueS>) -> Result<ValueS, ErrorKind> {
    if args.len() != 2 {
        Err(ErrorKind::Runtime)
    } else {
        match args[0] {
            ValueS::List(items) => Ok(ValueS::List(items.push(args[1]))),
            _ => Err(ErrorKind::Type),
        }
    }
}

/// What `head` returns: the first element of a non-empty list; an empty list
/// is a runtime error.
pub open spec fn head_builtin_s(args: Seq<ValueS>) -> Result<ValueS, ErrorKind> {
    if args.len() != 1 {
        Err(ErrorKind::Runtime)
    } else {
        match args[0] {
            ValueS::List(items) => if items.len() == 0 {
                Err(ErrorKind::Runtime)
            } else {
                Ok(items[0])
            },
            _ => Err(ErrorKind::Type),
        }
    }
}

/// What `tail` returns: a new list holding everything but the first element
/// of a non-empty list; an empty list is a runtime error.
pub open spec fn tail_builtin_s(args: Seq<ValueS>) -> Result<ValueS, ErrorKind> {
    if args.len() != 1 {
        Err(ErrorKind::Runtime)
    } else {
        match args[0] {
            ValueS::List(items) => if items.len() == 0 {
                Err(ErrorKind::Runtime)
            } else {
                Ok(ValueS::List(items.drop_first()))
            },
            _ => Err(ErrorKind::Type),
        }
    }
}

/// What `str` returns: the argument rendered as text, exactly as `print`
/// would show it.
pub open spec fn str_builtin_s(args: Seq<ValueS>) -> Result<ValueS, ErrorKind> {
    if args.len() != 1 {
        Err(ErrorKind::Runtime)
    } else {
        Ok(ValueS::Str(render_value_s(args[0])))
    }
}

/// Whether every character of `s` is a decimal digit.
pub open spec fn all_digits_s(s: Seq<char>) -> bool
    decreases s,
{
    s.len() == 0 || (is_digit_char(s.last()) && all_digits_s(s.drop_last()))
}

/// `all_digits_s` says exactly that each position holds a digit.
pub proof fn lemma_all_digits(s: Seq<char>)
    ensures
        all_digits_s(s) <==> (forall|k: int| 0 <= k < s.len() ==> is_digit_char(#[trigger] s[k])),
    decreases s,
{
    if s.len() > 0 {
        lemma_all_digits(s.drop_last());
        assert(forall|k: int| 0 <= k < s.len() - 1 ==> s.drop_last()[k] == s[k]);
        if is_digit_char(s.last()) && all_digits_s(s.drop_last()) {
            assert(forall|k: int| 0 <= k < s.len() ==> is_digit_char(#[trigger] s[k])) by {
                assert(forall|k: int| 0 <= k < s.len() - 1 ==> is_digit_char(#[trigger] s.drop_last()[k]));
                assert(s[s.len() - 1] == s.last());
            }
        }
    }
}

/// A string read as a 64-bit integer: an optional sign, then one or more
/// digits, the whole string, and a value that fits; anything else is `None`.
pub open spec fn parse_int_s(s: Seq<char>) -> Option<i64> {
    if s.len() == 0 {
        None
    } else {
        let neg = s[0] == '-';
        let digits = if s[0] == '-' || s[0] == '+' {
            s.drop_first()
        } else {
            s
        };
        if digits.len() == 0 {
            None
        } else if !all_digits_s(digits) {
            None
        } else {
            let v = digits_val_s(digits);
            if neg {
                if -v >= i64::MIN {
                    Some((-v) as i64)
                } else {
                    None
                }
            } else {
                if v <= i64::MAX {
                    Some(v as i64)
                } else {
                    None
                }
            }
        }
    }
}

/// What `int` returns: an integer unchanged, a boolean as 0 or 1, a string
/// parsed as a decimal integer (a failed parse is a runtime error); anything
/// else is a type error.
pub open spec fn int_builtin_s(args: Seq<ValueS>) -> Result<ValueS, ErrorKind> {
    if args.len() != 1 {
        Err(ErrorKind::Runtime)
    } else {
        match args[0] {
            ValueS::Int(n) => Ok(ValueS::Int(n)),
            ValueS::Bool(b) => Ok(ValueS::Int(if b {
                1i64
            } else {
                0i64
            })),
            ValueS::Str(s) => match parse_int_s(s) {
                Some(n) => Ok(ValueS::Int(n)),
                None => Err(ErrorKind::Runtime),
            },
            _ => Err(ErrorKind::Type),
        }
    }
}

/// The builtin registry: what a builtin call does to the output lines and
/// what it returns, or `None` when the name is no builtin and user functions
/// should be consulted.
pub open spec fn builtin_call_s(name: Seq<char>, args: Seq<ValueS>, out: Seq<Seq<char>>) -> Option<
    Result<(Seq<Seq<char>>, ValueS), ErrorKind>,
> {
    if name == "print"@ {
        Some(Ok((out.push(print_line_s(args)), ValueS::Unit)))
    } else if name == "len"@ {
        Some(pure_out(len_builtin_s(args), out))
    } else if name == "sum"@ {
        Some(pure_out(sum_builtin_s(args), out))
    } else if name == "range"@ {
        Some(pure_out(range_builtin_s(args), out))
    } else if name == "push"@ {
        Some(pure_out(push_builtin_s(args), out))
    } else if name == "head"@ {
        Some(pure_out(head_builtin_s(args), out))
    } else if name == "tail"@ {
        Some(pure_out(tail_builtin_s(args), out))
    } else if name == "str"@ {
        Some(pure_out(str_builtin_s(args), out))
    } else if name == "int"@ {
        Some(pure_out(int_builtin_s(args), out))
    } else {
        None
    }
}

/// Lifts a pure builtin result beside an unchanged output.
pub open spec fn pure_out(r: Result<ValueS, ErrorKind>, out: Seq<Seq<char>>) -> Result<
    (Seq<Seq<char>>, ValueS),
    ErrorKind,
> {
    match r {
        Ok(v) => Ok((out, v)),
        Err(k) => Err(k),
    }
}

/// Renders one `print` line: the arguments joined by single spaces.
#[verifier::loop_isolation(false)]
fn print_line(args: &Vec<Value>) -> (r: String)
    ensures
        r@ == print_line_s(values_view(args@)),
{
    let ghost w = values_view(args@);
    let mut out = String::new();
    let mut i: usize = 0;
    while i < args.len()
        invariant
            i <= args.len(),
            out@ == print_line_s(w.take(i as int)),
        decreases args.len() - i,
    {
        proof {
            lemma_values_view_index(args@, i as int);
            assert(decreases_to!(*args => args@[i as int]));
        }
        if i > 0 {
            out.append(" ");
        }
        let piece = render_value(&args[i]);
        out.append(piece.as_str());
        proof {
            let t1 = w.take(i as int + 1);
            assert(t1.drop_last() =~= w.take(i as int));
            assert(t1.last() == w[i as int]);
            assert(w.take(0int) =~= Seq::<ValueS>::empty());
            assert(out@ =~= print_line_s(t1));
        }
        i = i + 1;
    }
    proof {
        lemma_values_view_len(args@);
        assert(w.take(args@.len() as int) =~= w);
    }
    out
}

/// The `len` builtin.
fn len_builtin(args: &Vec<Value>) -> (r: Result<Value, Error>)
    ensures
        res_val_matches(r, len_builtin_s(values_view(args@))),
{
    proof {
        lemma_values_view_len(args@);
    }
    if args.len() != 1 {
        return Err(Error::new(ErrorKind::Runtime, "len(x) expects exactly 1 argument"));
    }
    proof {
        lemma_values_view_index(args@, 0int);
    }
    match &args[0] {
        Value::Str(s) => {
            let l = s.as_str().unicode_len();
            if (l as u64) <= 9223372036854775807u64 {
                Ok(Value::Int(l as i64))
            } else {
                Err(Error::new(ErrorKind::Runtime, "len(x): length does not fit in an integer"))
            }
        },
        Value::List(items) => {
            proof {
                lemma_values_view_len(items@);
            }
            let l = items.len();
            if (l as u64) <= 9223372036854775807u64 {
                Ok(Value::Int(l as i64))
            } else {
                Err(Error::new(ErrorKind::Runtime, "len(x): length does not fit in an integer"))
            }
        },
        _ => Err(Error::new(ErrorKind::Type, "len(x) wants a string or a list")),
    }
}

/// The `sum` builtin.
#[verifier::loop_isolation(false)]
fn sum_builtin(args: &Vec<Value>) -> (r: Result<Value, Error>)
    ensures
        res_val_matches(r, sum_builtin_s(values_view(args@))),
{
    proof {
        lemma_values_view_len(args@);
    }
    if args.len() != 1 {
        return Err(Error::new(ErrorKind::Runtime, "sum(xs) expects exactly 1 argument"));
    }
    proof {
        lemma_values_view_index(args@, 0int);
    }
    match &args[0] {
        Value::List(items) => {
            let ghost w = values_view(items@);
            let mut total: i64 = 0;
            let mut i: usize = 0;
            while i < items.len()
                invariant
                    i <= items.len(),
                    sum_vals_s(w.take(i as int)) == Ok::<i64, ErrorKind>(total),
                decreases items.len() - i,
            {
                proof {
                    lemma_values_view_index(items@, i as int);
                    let t1 = w.take(i as int + 1);
                    assert(t1.drop_last() =~= w.take(i as int));
                    assert(t1.last() == w[i as int]);
                }
                let n = match &items[i] {
                    Value::Int(n) => *n,
                    _ => {
                        proof {
                            lemma_values_view_len(items@);
                            lemma_sum_vals_err(w, i as int + 1);
                        }
                        return Err(
                            Error::new(ErrorKind::Type, "sum(xs) wants a list of integers"),
                        );
                    },
                };
                total = match total.checked_add(n) {
                    Some(v) => v,
                    None => {
                        proof {
                            lemma_values_view_len(items@);
                            lemma_sum_vals_err(w, i as int + 1);
                        }
                        return Err(Error::new(ErrorKind::Runtime, "sum(xs) overflowed"));
                    },
                };
                i = i + 1;
            }
            proof {
                lemma_values_view_len(items@);
                assert(w.take(items@.len() as int) =~= w);
            }
            Ok(Value::Int(total))
        },
        _ => Err(Error::new(ErrorKind::Type, "sum(xs) wants a list")),
    }
}

/// Once a prefix of the list fails to sum, the whole list fails the same way.
proof fn lemma_sum_vals_err(items: Seq<ValueS>, i: int)
    requires
        0 <= i <= items.len(),
        sum_vals_s(items.take(i)) is Err,
    ensures
        sum_vals_s(items) == sum_vals_s(items.take(i)),
    decreases items.len() - i,
{
    if i < items.len() {
        let t1 = items.take(i + 1);
        assert(t1.drop_last() =~= items.take(i));
        lemma_sum_vals_err(items, i + 1);
    } else {
        assert(items.take(i) =~= items);
    }
}

/// The `range` builtin.
#[verifier::loop_isolation(false)]
fn range_builtin(args: &Vec<Value>) -> (r: Result<Value, Error>)
    ensures
        res_val_matches(r, range_builtin_s(values_view(args@))),
{
    proof {
        lemma_values_view_len(args@);
    }
    let (lo, hi) = if args.len() == 1 {
        proof {
            lemma_values_view_index(args@, 0int);
        }
        match &args[0] {
            Value::Int(n) => {
                if *n < 0 {
                    return Err(Error::new(ErrorKind::Runtime, "range(n): n must be >= 0"));
                }
                (0i64, *n)
            },
            _ => {
                return Err(Error::new(ErrorKind::Type, "range(n): n must be an integer"));
            },
        }
    } else if args.len() == 2 {
        proof {
            lemma_values_view_index(args@, 0int);
            lemma_values_view_index(args@, 1int);
        }
        match (&args[0], &args[1]) {
            (Value::Int(a), Value::Int(b)) => {
                if *a < 0 || *b < *a {
                    return Err(
                        Error::new(ErrorKind::Runtime, "range(a, b): wants 0 <= a and a <= b"),
                    );
                }
                (*a, *b)
            },
            _ => {
                return Err(Error::new(ErrorKind::Type, "range(a, b): bounds must be integers"));
            },
        }
    } else {
        return Err(Error::new(ErrorKind::Runtime, "range expects 1 or 2 arguments"));
    };
    let mut items: Vec<Value> = Vec::new();
    let mut i: i64 = lo;
    while i < hi
        invariant
            lo <= i <= hi,
            values_view(items@) =~= range_vals_s(lo as int, i as int),
        decreases hi - i,
    {
        let ghost prev = items@;
        items.push(Value::Int(i));
        proof {
            lemma_values_view_push(prev, Value::Int(i));
            assert(values_view(items@) =~= range_vals_s(lo as int, i as int + 1));
        }
        i = i + 1;
    }
    Ok(Value::List(items))
}

/// The `push` builtin.
fn push_builtin(args: &Vec<Value>) -> (r: Result<Value, Error>)
    ensures
        res_val_matches(r, push_builtin_s(values_view(args@))),
{
    proof {
        lemma_values_view_len(args@);
    }
    if args.len() != 2 {
        return Err(Error::new(ErrorKind::Runtime, "push(list, value) expects exactly 2 arguments"));
    }
    proof {
        lemma_values_view_index(args@, 0int);
        lemma_values_view_index(args@, 1int);
    }
    match &args[0] {
        Value::List(items) => {
            let mut out = clone_values(items);
            let ghost prev = out@;
            let dup = args[1].clone();
            out.push(dup);
            proof {
                lemma_values_view_push(prev, out@.last());
            }
            Ok(Value::List(out))
        },
        _ => Err(Error::new(ErrorKind::Type, "push(list, value): first argument must be a list")),
    }
}

/// The `head` builtin.
fn head_builtin(args: &Vec<Value>) -> (r: Result<Value, Error>)
    ensures
        res_val_matches(r, head_builtin_s(values_view(args@))),
{
    proof {
        lemma_values_view_len(args@);
    }
    if args.len() != 1 {
        return Err(Error::new(ErrorKind::Runtime, "head(list) expects exactly 1 argument"));
    }
    proof {
        lemma_values_view_index(args@, 0int);
    }
    match &args[0] {
        Value::List(items) => {
            if items.len() == 0 {
                proof {
                    lemma_values_view_len(items@);
                }
                return Err(Error::new(ErrorKind::Runtime, "head([]): empty list"));
            }
            proof {
                lemma_values_view_index(items@, 0int);
            }
            Ok(items[0].clone())
        },
        _ => Err(Error::new(ErrorKind::Type, "head(list): argument must be a list")),
    }
}

/// The `tail` builtin.
fn tail_builtin(args: &Vec<Value>) -> (r: Result<Value, Error>)
    ensures
        res_val_matches(r, tail_builtin_s(values_view(args@))),
{
    proof {
        lemma_values_view_len(args@);
    }
    if args.len() != 1 {
        return Err(Error::new(ErrorKind::Runtime, "tail(list) expects exactly 1 argument"));
    }
    proof {
        lemma_values_view_index(args@, 0int);
    }
    match &args[0] {
        Value::List(items) => {
            proof {
                lemma_values_view_len(items@);
            }
            if items.len() == 0 {
                return Err(Error::new(ErrorKind::Runtime, "tail([]): empty list"));
            }
            let ghost w = values_view(items@);
            let mut out: Vec<Value> = Vec::new();
            let mut i: usize = 1;
            while i < items.len()
                invariant
                    1 <= i <= items.len(),
                    w == values_view(items@),
                    w.len() == items@.len(),
                    values_view(out@) =~= w.subrange(1, i as int),
                decreases items.len() - i,
            {
                let ghost prev = out@;
                proof {
                    lemma_values_view_index(items@, i as int);
                }
                let dup = items[i].clone();
                out.push(dup);
                proof {
                    lemma_values_view_push(prev, out@.last());
                    assert(values_view(out@) =~= w.subrange(1, i as int + 1));
                }
                i = i + 1;
            }
            proof {
                assert(w.subrange(1, w.len() as int) =~= w.drop_first());
            }
            Ok(Value::List(out))
        },
        _ => Err(Error::new(ErrorKind::Type, "tail(list): argument must be a list")),
    }
}

/// The `str` builtin.
fn str_builtin(args: &Vec<Value>) -> (r: Result<Value, Error>)
    ensures
        res_val_matches(r, str_builtin_s(values_view(args@))),
{
    proof {
        lemma_values_view_len(args@);
    }
    if args.len() != 1 {
        return Err(Error::new(ErrorKind::Runtime, "str(x) expects exactly 1 argument"));
    }
    proof {
        lemma_values_view_index(args@, 0int);
    }
    Ok(Value::Str(render_value(&args[0])))
}

/// Reads a whole string slice as a 64-bit integer, as `parse_int_s` says.
#[verifier::loop_isolation(false)]
fn parse_int_str(s: &str) -> (r: Option<i64>)
    ensures
        r == parse_int_s(s@),
{
    let len = s.unicode_len();
    if len == 0 {
        return None;
    }
    let c0 = s.get_char(0);
    let neg = c0 == '-';
    let start: usize = if c0 == '-' || c0 == '+' {
        1
    } else {
        0
    };
    let ghost digits = if s@[0] == '-' || s@[0] == '+' {
        s@.drop_first()
    } else {
        s@
    };
    proof {
        assert(digits =~= s@.subrange(start as int, len as int));
    }
    if len == start {
        return None;
    }
    let mut val: i64 = 0;
    let mut i: usize = start;
    while i < len
        invariant
            start <= i <= len,
            forall|k: int| 0 <= k < i - start ==> is_digit_char(digits[k]),
            !neg ==> val == digits_val_s(digits.take(i - start)) && val >= 0,
            neg ==> val == -digits_val_s(digits.take(i - start)) && val <= 0,
        decreases len - i,
    {
        let c = s.get_char(i);
        let cu = c as u32;
        if !(48 <= cu && cu <= 57) {
            proof {
                assert(0 <= i - start < digits.len());
                assert(!is_digit_char(digits[i - start]));
                lemma_all_digits(digits);
                assert(parse_int_s(s@) is None);
            }
            return None;
        }
        let d = (cu - 48) as i64;
        proof {
            let t1 = digits.take(i + 1 - start);
            assert(t1.drop_last() =~= digits.take(i - start));
            assert(t1.last() == digits[i - start]);
            assert(digit_val(digits[i - start]) == d as int);
        }
        if neg {
            let wide: i128 = (val as i128) * 10 - (d as i128);
            if wide < -9223372036854775808i128 {
                proof {
                    overflow_case(digits, i + 1 - start, neg, s@, start as int);
                }
                return None;
            }
            val = wide as i64;
        } else {
            let wide: i128 = (val as i128) * 10 + (d as i128);
            if wide > 9223372036854775807i128 {
                proof {
                    overflow_case(digits, i + 1 - start, neg, s@, start as int);
                }
                return None;
            }
            val = wide as i64;
        }
        i = i + 1;
    }
    proof {
        assert(digits.take(digits.len() as int) =~= digits);
        lemma_all_digits(digits);
    }
    Some(val)
}

/// When some prefix of the digit run already exceeds the 64-bit range, the
/// whole string fails to parse.
proof fn overflow_case(digits: Seq<char>, j: int, neg: bool, s: Seq<char>, start: int)
    requires
        0 < j <= digits.len(),
        s.len() > 0,
        neg == (s[0] == '-'),
        digits == (if s[0] == '-' || s[0] == '+' {
            s.drop_first()
        } else {
            s
        }),
        forall|k: int| 0 <= k < j ==> is_digit_char(digits[k]),
        !neg ==> digits_val_s(digits.take(j)) > i64::MAX,
        neg ==> digits_val_s(digits.take(j)) > -(i64::MIN as int),
    ensures
        parse_int_s(s) is None,
{
    lemma_all_digits(digits);
    if all_digits_s(digits) {
        lemma_digits_val_mono(digits, j, digits.len() as int);
        assert(digits.take(digits.len() as int) =~= digits);
        assert(digits_val_s(digits) >= digits_val_s(digits.take(j)));
    }
}

/// The `int` builtin.
fn int_builtin(args: &Vec<Value>) -> (r: Result<Value, Error>)
    ensures
        res_val_matches(r, int_builtin_s(values_view(args@))),
{
    proof {
        lemma_values_view_len(args@);
    }
    if args.len() != 1 {
        return Err(Error::new(ErrorKind::Runtime, "int(x) expects exactly 1 argument"));
    }
    proof {
        lemma_values_view_index(args@, 0int);
    }
    match &args[0] {
        Value::Int(n) => Ok(Value::Int(*n)),
        Value::Bool(b) => Ok(Value::Int(if *b {
            1
        } else {
            0
        })),
        Value::Str(s) => match parse_int_str(s.as_str()) {
            Some(n) => Ok(Value::Int(n)),
            None => Err(Error::new(ErrorKind::Runtime, "int(x): cannot parse string as integer")),
        },
        _ => Err(Error::new(ErrorKind::Type, "int(x) wants an integer, boolean or string")),
    }
}

/// Consults the builtin registry: `Ok(Some(v))` when `name` is a builtin and
/// the call succeeded (with `out` extended by whatever it printed),
/// `Ok(None)` when `name` is no builtin at all, and the builtin's error when
/// it failed.
pub fn call_builtin(name: &str, args: &Vec<Value>, out: &mut Vec<String>) -> (r: Result<
    Option<Value>,
    Error,
>)
    ensures
        match builtin_call_s(name@, values_view(args@), lines_view(old(out)@)) {
            Some(Ok((o2, v))) => r matches Ok(Some(val)) && val@ == v && lines_view(final(out)@)
                == o2,
            Some(Err(k)) => r matches Err(e) && e.kind == k && final(out)@ == old(out)@,
            None => r matches Ok(None) && final(out)@ == old(out)@,
        },
{
    if crate::lexer::str_eq(name, "print") {
        let line = print_line(args);
        let ghost prev = out@;
        out.push(line);
        proof {
            lemma_lines_view_push(prev, out@.last());
        }
        return Ok(Some(Value::Unit));
    }
    let pure: Result<Value, Error> = if crate::lexer::str_eq(name, "len") {
        len_builtin(args)
    } else if crate::lexer::str_eq(name, "sum") {
        sum_builtin(args)
    } else if crate::lexer::str_eq(name, "range") {
        range_builtin(args)
    } else if crate::lexer::str_eq(name, "push") {
        push_builtin(args)
    } else if crate::lexer::str_eq(name, "head") {
        head_builtin(args)
    } else if crate::lexer::str_eq(name, "tail") {
        tail_builtin(args)
    } else if crate::lexer::str_eq(name, "str") {
        str_builtin(args)
    } else if crate::lexer::str_eq(name, "int") {
        int_builtin(args)
    } else {
        return Ok(None);
    };
    match pure {
        Ok(v) => Ok(Some(v)),
        Err(e) => Err(e),
    }
}

} // verus!
