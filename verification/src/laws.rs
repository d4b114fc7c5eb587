//! Laws of the evaluator, stated and proved once for all inputs.

use vstd::prelude::*;
use crate::expr::{Operator, SpecExpr};
use crate::eval::eval_expr;
use crate::record::{SpecField, lookup};

verus! {

/// Double negation changes nothing: `Not(Not(e))` evaluates as `e`
/// does, on every record.
pub proof fn lemma_not_not(e: SpecExpr, rec: Seq<(Seq<char>, SpecField)>)
    ensures
        eval_expr(SpecExpr::Not(Box::new(SpecExpr::Not(Box::new(e)))), rec) == eval_expr(e, rec),
{
    reveal_with_fuel(eval_expr, 3);
}

/// Missing-field closure: a condition naming a field absent from the
/// record is false, whatever its operator and values.
pub proof fn lemma_missing_field_false(
    field: Seq<char>,
    op: Operator,
    values: Seq<Seq<char>>,
    rec: Seq<(Seq<char>, SpecField)>,
)
    requires
        lookup(rec, field) is None,
    ensures
        !eval_expr(SpecExpr::Cond { field, op, values }, rec),
{
}

/// A field holding a non-text value matches no condition either.
pub proof fn lemma_non_text_field_false(
    field: Seq<char>,
    op: Operator,
    values: Seq<Seq<char>>,
    rec: Seq<(Seq<char>, SpecField)>,
)
    requires
        lookup(rec, field) == Some(SpecField::Other),
    ensures
        !eval_expr(SpecExpr::Cond { field, op, values }, rec),
{
}

/// Any-of semantics: an equality condition matches exactly the records
/// whose field holds text equal to some one of the condition's values.
pub proof fn lemma_eq_any_of(
    field: Seq<char>,
    values: Seq<Seq<char>>,
    rec: Seq<(Seq<char>, SpecField)>,
)
    ensures
        eval_expr(SpecExpr::Cond { field, op: Operator::Eq, values }, rec) == (match lookup(
            rec,
            field,
        ) {
            Some(SpecField::Text(a)) => exists|k: int| 0 <= k < values.len() && a == #[trigger] values[k],
            _ => false,
        }),
{
}

} // verus!
