//! Rendering of runtime values as text: decimal numerals, and the one
//! human-readable form used both by the `print` builtin and by the `str`
//! builtin. Lists are rendered as `[e1, e2, ...]` with their string elements
//! quoted; a string at top level is rendered as its raw characters.

use vstd::prelude::*;
use vstd::string::StringExecFns;
use crate::value::{Value, ValueS, values_view, lemma_values_view_index, lemma_values_view_len};

verus! {

/// The decimal digit character for `d` (which must lie in 0..9).
pub open spec fn dec_digit(d: int) -> Seq<char> {
    if d == 0 {
        "0"@
    } else if d == 1 {
        "1"@
    } else if d == 2 {
        "2"@
    } else if d == 3 {
        "3"@
    } else if d == 4 {
        "4"@
    } else if d == 5 {
        "5"@
    } else if d == 6 {
        "6"@
    } else if d == 7 {
        "7"@
    } else if d == 8 {
        "8"@
    } else {
        "9"@
    }
}

/// The decimal numeral of a natural number, most significant digit first,
/// without leading zeros (except for the numeral `0` itself).
pub open spec fn dec_nat(n: nat) -> Seq<char>
    decreases n,
{
    if n < 10 {
        dec_digit(n as int)
    } else {
        dec_nat(n / 10) + dec_digit((n % 10) as int)
    }
}

/// The decimal numeral of an integer: a `-` sign for negatives, then the
/// numeral of the magnitude.
pub open spec fn dec_int(n: int) -> Seq<char> {
    if n < 0 {
        "-"@ + dec_nat((-n) as nat)
    } else {
        dec_nat(n as nat)
    }
}

/// How one value reads at top level: integers as decimal numerals, booleans
/// as `true`/`false`, strings as their raw characters, the empty value as
/// `()`, and lists bracketed with comma-separated elements.
pub open spec fn render_value_s(v: ValueS) -> Seq<char>
    decreases v, 0nat,
{
    match v {
        ValueS::Int(n) => dec_int(n as int),
        ValueS::Bool(b) => if b {
            "true"@
        } else {
            "false"@
        },
        ValueS::Str(s) => s,
        ValueS::List(items) => "["@ + render_items_s(items) + "]"@,
        ValueS::Unit => "()"@,
    }
}

/// How one value reads as a list element: as at top level, except that a
/// string is wrapped in double quotes.
pub open spec fn render_item_s(v: ValueS) -> Seq<char>
    decreases v, 1nat,
{
    match v {
        ValueS::Str(s) => "\""@ + s + "\""@,
        ValueS::List(items) => "["@ + render_items_s(items) + "]"@,
        _ => render_value_s(v),
    }
}

/// List elements joined by `, `, in order.
pub open spec fn render_items_s(items: Seq<ValueS>) -> Seq<char>
    decreases items, 0nat,
{
    if items.len() == 0 {
        Seq::empty()
    } else if items.len() == 1 {
        render_item_s(items[0])
    } else {
        render_items_s(items.drop_last()) + ", "@ + render_item_s(items.last())
    }
}

/// The digit character for `d` as a string slice.
fn digit_str(d: u64) -> (r: &'static str)
    requires
        d < 10,
    ensures
        r@ == dec_digit(d as int),
{
    if d == 0 {
        "0"
    } else if d == 1 {
        "1"
    } else if d == 2 {
        "2"
    } else if d == 3 {
        "3"
    } else if d == 4 {
        "4"
    } else if d == 5 {
        "5"
    } else if d == 6 {
        "6"
    } else if d == 7 {
        "7"
    } else if d == 8 {
        "8"
    } else {
        "9"
    }
}

/// The decimal numeral of an unsigned 64-bit number.
pub fn u64_to_string(n: u64) -> (r: String)
    ensures
        r@ == dec_nat(n as nat),
    decreases n,
{
    if n < 10 {
        String::from_str(digit_str(n))
    } else {
        let mut s = u64_to_string(n / 10);
        s.append(digit_str(n % 10));
        s
    }
}

/// The decimal numeral of a signed 64-bit integer.
pub fn int_to_string(n: i64) -> (r: String)
    ensures
        r@ == dec_int(n as int),
{
    if n >= 0 {
        u64_to_string(n as u64)
    } else {
        let mag: u64 = if n == i64::MIN {
            9223372036854775808u64
        } else {
            (-n) as u64
        };
        let mut s = String::from_str("-");
        s.append(u64_to_string(mag).as_str());
        s
    }
}

/// Renders one value as it reads at top level.
#[verifier::loop_isolation(false)]
pub fn render_value(v: &Value) -> (r: String)
    ensures
        r@ == render_value_s(v@),
    decreases *v, 0nat,
{
    match v {
        Value::Int(n) => int_to_string(*n),
        Value::Bool(b) => {
            if *b {
                String::from_str("true")
            } else {
                String::from_str("false")
            }
        },
        Value::Str(s) => s.clone(),
        Value::List(items) => {
            proof {
                assert(decreases_to!(*v => v->List_0));
            }
            render_list(items)
        },
        Value::Unit => String::from_str("()"),
    }
}

/// Renders one value as it reads inside a list.
#[verifier::loop_isolation(false)]
fn render_item(v: &Value) -> (r: String)
    ensures
        r@ == render_item_s(v@),
    decreases *v, 1nat,
{
    match v {
        Value::Str(s) => {
            let mut out = String::from_str("\"");
            out.append(s.as_str());
            out.append("\"");
            out
        },
        Value::List(items) => {
            proof {
                assert(decreases_to!(*v => v->List_0));
            }
            render_list(items)
        },
        _ => render_value(v),
    }
}

/// Renders a whole list, brackets included.
#[verifier::loop_isolation(false)]
fn render_list(items: &Vec<Value>) -> (r: String)
    ensures
        r@ == "["@ + render_items_s(values_view(items@)) + "]"@,
    decreases *items, 0nat,
{
    let ghost w = values_view(items@);
    let mut out = String::from_str("[");
    let mut i: usize = 0;
    while i < items.len()
        invariant
            i <= items.len(),
            out@ == "["@ + render_items_s(w.take(i as int)),
        decreases items.len() - i,
    {
        proof {
            lemma_values_view_index(items@, i as int);
            assert(decreases_to!(*items => items@[i as int]));
        }
        if i > 0 {
            out.append(", ");
        }
        let piece = render_item(&items[i]);
        out.append(piece.as_str());
        proof {
            let t1 = w.take(i as int + 1);
            assert(t1.drop_last() =~= w.take(i as int));
            assert(t1.last() == w[i as int]);
            if i == 0 {
                assert(w.take(0int) =~= Seq::<ValueS>::empty());
                assert(render_items_s(w.take(0int)) == Seq::<char>::empty());
                assert(out@ =~= "["@ + render_items_s(t1));
            } else {
                assert(out@ =~= "["@ + render_items_s(t1));
            }
        }
        i = i + 1;
    }
    out.append("]");
    proof {
        lemma_values_view_len(items@);
        assert(w.take(items@.len() as int) =~= w);
    }
    out
}

} // verus!
