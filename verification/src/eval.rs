//! The evaluator: walks an expression tree against one record.
//!
//! Evaluation never fails. A condition matches only when the named field is
//! present, holds text, and the operator's relation holds between that text
//! and *any* of the condition's values; a missing field, a non-text field,
//! or a failed numeric reading make the condition false (fail-closed).

use vstd::prelude::*;
use vstd::string::StrSliceExecFns;
use crate::expr::{Expr, Operator, SpecExpr, expr_view};
use crate::num::{is_digits, digits_val, digits_lt};
use crate::record::{Record, SpecField, FieldValue, lookup};
use crate::text::str_eq;

verus! {

/// The relation one operator demands between field text `a` and one
/// candidate value `v`.
pub open spec fn op_matches(op: Operator, a: Seq<char>, v: Seq<char>) -> bool {
    match op {
        Operator::Eq => a == v,
        Operator::OneOf => a == v,
        Operator::Gt => is_digits(a) && is_digits(v) && digits_val(a) > digits_val(v),
        Operator::Lt => is_digits(a) && is_digits(v) && digits_val(a) < digits_val(v),
        Operator::Gte => is_digits(a) && is_digits(v) && digits_val(a) >= digits_val(v),
        Operator::Lte => is_digits(a) && is_digits(v) && digits_val(a) <= digits_val(v),
        Operator::StartsWith => v.len() <= a.len() && a.subrange(0, v.len() as int) == v,
        Operator::EndsWith => v.len() <= a.len() && a.subrange(
            a.len() - v.len(),
            a.len() as int,
        ) == v,
        Operator::Contains => exists|p: int|
            0 <= p <= a.len() - v.len() && #[trigger] a.subrange(p, p + v.len()) == v,
    }
}

/// What a condition decides for a field value: only text can match, and it
/// must match some candidate value.
pub open spec fn cond_matches(op: Operator, values: Seq<Seq<char>>, fv: Option<SpecField>) -> bool {
    match fv {
        Some(SpecField::Text(a)) => exists|k: int|
            0 <= k < values.len() && op_matches(op, a, #[trigger] values[k]),
        Some(SpecField::Other) => false,
        None => false,
    }
}

/// Whether an expression tree matches a record.
pub open spec fn eval_expr(e: SpecExpr, rec: Seq<(Seq<char>, SpecField)>) -> bool
    decreases e,
{
    match e {
        SpecExpr::Cond { field, op, values } => cond_matches(op, values, lookup(rec, field)),
        SpecExpr::Not(i) => !eval_expr(*i, rec),
        SpecExpr::And(l, r) => eval_expr(*l, rec) && eval_expr(*r, rec),
        SpecExpr::Or(l, r) => eval_expr(*l, rec) || eval_expr(*r, rec),
    }
}

/// Whether `v` matches `a` at offset `p`.
#[verifier::loop_isolation(false)]
fn match_at(a: &str, p: usize, v: &str) -> (r: bool)
    requires
        p + v@.len() <= a@.len(),
        a@.len() <= usize::MAX,
    ensures
        r == (a@.subrange(p as int, p + v@.len()) == v@),
{
    let nv: usize = v.unicode_len();
    let mut k: usize = 0;
    while k < nv
        invariant
            k <= nv,
            nv == v@.len(),
            p + nv <= a@.len(),
            forall|m: int| 0 <= m < k ==> a@[p + m] == v@[m],
        decreases nv - k,
    {
        if a.get_char(p + k) != v.get_char(k) {
            proof {
                assert(a@.subrange(p as int, p + v@.len())[k as int] != v@[k as int]);
            }
            return false;
        }
        k = k + 1;
    }
    proof {
        assert(a@.subrange(p as int, p + v@.len()) =~= v@);
    }
    true
}

/// Whether the text `a` is a non-empty run of ASCII digits.
fn all_digits(a: &str) -> (r: bool)
    ensures
        r == is_digits(a@),
{
    let n: usize = a.unicode_len();
    if n == 0 {
        return false;
    }
    let mut k: usize = 0;
    while k < n
        invariant
            k <= n,
            n == a@.len(),
            forall|m: int| 0 <= m < k ==> crate::num::is_digit(#[trigger] a@[m]),
        decreases n - k,
    {
        let c = a.get_char(k);
        if !('0' <= c && c <= '9') {
            return false;
        }
        k = k + 1;
    }
    true
}

/// Whether field text `a` and candidate `v` stand in the relation `op`
/// demands.
#[verifier::loop_isolation(false)]
fn op_match(op: Operator, a: &str, v: &str) -> (r: bool)
    ensures
        r == op_matches(op, a@, v@),
{
    match op {
        Operator::Eq => str_eq(a, v),
        Operator::OneOf => str_eq(a, v),
        Operator::Gt => all_digits(a) && all_digits(v) && digits_lt(v, a),
        Operator::Lt => all_digits(a) && all_digits(v) && digits_lt(a, v),
        Operator::Gte => all_digits(a) && all_digits(v) && !digits_lt(a, v),
        Operator::Lte => all_digits(a) && all_digits(v) && !digits_lt(v, a),
        Operator::StartsWith => {
            let na: usize = a.unicode_len();
            let nv: usize = v.unicode_len();
            nv <= na && match_at(a, 0, v)
        },
        Operator::EndsWith => {
            let na: usize = a.unicode_len();
            let nv: usize = v.unicode_len();
            nv <= na && match_at(a, na - nv, v)
        },
        Operator::Contains => {
            let na: usize = a.unicode_len();
            let nv: usize = v.unicode_len();
            if nv > na {
                return false;
            }
            let mut p: usize = 0;
            while p < na - nv
                invariant
                    p <= na - nv,
                    forall|q: int|
                        0 <= q < p ==> #[trigger] a@.subrange(q, q + v@.len()) != v@,
                decreases na - nv - p,
            {
                if match_at(a, p, v) {
                    proof {
                        assert(a@.subrange(p as int, p + v@.len()) == v@);
                    }
                    return true;
                }
                p = p + 1;
            }
            if match_at(a, p, v) {
                proof {
                    assert(a@.subrange(p as int, p + v@.len()) == v@);
                }
                true
            } else {
                false
            }
        },
    }
}

/// Evaluates an expression tree against one record. Never fails: data-shape
/// mismatches make the enclosing condition false.
#[verifier::loop_isolation(false)]
pub fn evaluate(expr: &Expr, record: &Record) -> (b: bool)
    ensures
        b == eval_expr(expr_view(*expr), record@),
    decreases *expr,
{
    match expr {
        Expr::Condition(field, op, values) => {
            match record.get(field.as_str()) {
                None => false,
                Some(FieldValue::Other) => false,
                Some(FieldValue::Text(a)) => {
                    let ghost vals = values.deep_view();
                    let mut k: usize = 0;
                    while k < values.len()
                        invariant
                            k <= values.len(),
                            vals == values.deep_view(),
                            vals.len() == values.len(),
                            lookup(record@, field@) == Some(SpecField::Text(a@)),
                            forall|m: int| 0 <= m < k ==> !op_matches(*op, a@, #[trigger] vals[m]),
                        decreases values.len() - k,
                    {
                        if op_match(*op, a.as_str(), values[k].as_str()) {
                            proof {
                                assert(op_matches(*op, a@, vals[k as int]));
                            }
                            return true;
                        }
                        k = k + 1;
                    }
                    false
                },
            }
        },
        Expr::Not(i) => !evaluate(i, record),
        Expr::And(l, r) => evaluate(l, record) && evaluate(r, record),
        Expr::Or(l, r) => evaluate(l, record) || evaluate(r, record),
    }
}

} // verus!
