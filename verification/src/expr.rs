//! The expression tree a query string compiles to, its mathematical view,
//! and the canonical textual rendering of a tree.

use vstd::prelude::*;
use vstd::string::StringExecFns;
use crate::text::{is_alnum_char, is_ws_char, is_item_char};

verus! {

/// Comparison kind carried by a [`Condition`](Expr::Condition). A pure tag.
#[derive(Clone, Copy, Debug, PartialEq, Eq, Structural)]
pub enum Operator {
    Eq,
    Gt,
    Lt,
    Gte,
    Lte,
    StartsWith,
    EndsWith,
    Contains,
    OneOf,
}

/// A parsed query: a boolean tree over field conditions.
///
/// A `Condition(field, operator, values)` compares one named record field
/// against one or more literal values; it matches when the relation holds
/// against any of the values.
#[derive(Debug, PartialEq)]
pub enum Expr {
    Condition(String, Operator, Vec<String>),
    Not(Box<Expr>),
    And(Box<Expr>, Box<Expr>),
    Or(Box<Expr>, Box<Expr>),
}

/// Mathematical view of an [`Expr`]: the same tree over character sequences.
#[verifier::ext_equal]
pub enum SpecExpr {
    Cond { field: Seq<char>, op: Operator, values: Seq<Seq<char>> },
    Not(Box<SpecExpr>),
    And(Box<SpecExpr>, Box<SpecExpr>),
    Or(Box<SpecExpr>, Box<SpecExpr>),
}

/// View of an expression tree as a [`SpecExpr`].
pub open spec fn expr_view(e: Expr) -> SpecExpr
    decreases e,
{
    match e {
        Expr::Condition(f, op, vs) => SpecExpr::Cond { field: f@, op, values: vs.deep_view() },
        Expr::Not(i) => SpecExpr::Not(Box::new(expr_view(*i))),
        Expr::And(l, r) => SpecExpr::And(Box::new(expr_view(*l)), Box::new(expr_view(*r))),
        Expr::Or(l, r) => SpecExpr::Or(Box::new(expr_view(*l)), Box::new(expr_view(*r))),
    }
}

/// A scalar token: a non-empty alphanumeric run.
pub open spec fn wf_scalar(v: Seq<char>) -> bool {
    v.len() > 0 && forall|k: int| 0 <= k < v.len() ==> is_alnum_char(#[trigger] v[k])
}

/// A list item: non-empty, free of `,` and `]`, and not opening with
/// whitespace (leading whitespace would be stripped on re-parsing).
pub open spec fn wf_item(v: Seq<char>) -> bool {
    v.len() > 0 && !is_ws_char(v[0]) && forall|k: int| 0 <= k < v.len() ==> is_item_char(
        #[trigger] v[k],
    )
}

/// The trees the parser can produce: fields and scalar values are
/// alphanumeric runs, a `OneOf` condition carries well-formed list items,
/// and every other condition carries exactly one scalar value.
pub open spec fn wf_expr(e: SpecExpr) -> bool
    decreases e,
{
    match e {
        SpecExpr::Cond { field, op, values } => wf_scalar(field) && (if op == Operator::OneOf {
            values.len() >= 1 && forall|k: int| 0 <= k < values.len() ==> wf_item(
                #[trigger] values[k],
            )
        } else {
            values.len() == 1 && wf_scalar(values[0])
        }),
        SpecExpr::Not(i) => wf_expr(*i),
        SpecExpr::And(l, r) => wf_expr(*l) && wf_expr(*r),
        SpecExpr::Or(l, r) => wf_expr(*l) && wf_expr(*r),
    }
}

/// Every condition of the tree carries at least one value.
pub open spec fn has_values(e: SpecExpr) -> bool
    decreases e,
{
    match e {
        SpecExpr::Cond { field, op, values } => values.len() >= 1,
        SpecExpr::Not(i) => has_values(*i),
        SpecExpr::And(l, r) => has_values(*l) && has_values(*r),
        SpecExpr::Or(l, r) => has_values(*l) && has_values(*r),
    }
}

pub proof fn lemma_wf_has_values(e: SpecExpr)
    requires
        wf_expr(e),
    ensures
        has_values(e),
    decreases e,
{
    match e {
        SpecExpr::Cond { field, op, values } => {},
        SpecExpr::Not(i) => lemma_wf_has_values(*i),
        SpecExpr::And(l, r) => {
            lemma_wf_has_values(*l);
            lemma_wf_has_values(*r);
        },
        SpecExpr::Or(l, r) => {
            lemma_wf_has_values(*l);
            lemma_wf_has_values(*r);
        },
    }
}

/// The token that names an operator in query text.
pub open spec fn op_token(op: Operator) -> Seq<char> {
    match op {
        Operator::Eq => seq!['=', '='],
        Operator::Gt => seq!['>'],
        Operator::Lt => seq!['<'],
        Operator::Gte => seq!['>', '='],
        Operator::Lte => seq!['<', '='],
        Operator::StartsWith => seq!['@', 'S', 'W'],
        Operator::EndsWith => seq!['@', 'E', 'W'],
        Operator::Contains => seq!['@', 'C', 'T'],
        Operator::OneOf => seq!['@', 'O', 'O'],
    }
}

/// Canonical text of a value list body: the items joined by `,`.
pub open spec fn render_items(values: Seq<Seq<char>>) -> Seq<char>
    decreases values.len(),
{
    if values.len() == 0 {
        Seq::empty()
    } else if values.len() == 1 {
        values[0]
    } else {
        values[0] + seq![','] + render_items(values.drop_first())
    }
}

/// Canonical text of an expression tree. Re-parsing this text yields a
/// structurally equal tree whenever the tree is [`wf_expr`].
pub open spec fn render_expr(e: SpecExpr) -> Seq<char>
    decreases e,
{
    match e {
        SpecExpr::Cond { field, op, values } => if op == Operator::OneOf {
            field + seq![' '] + op_token(op) + seq![' ', '['] + render_items(values) + seq![']']
        } else {
            field + seq![' '] + op_token(op) + seq![' '] + values[0]
        },
        SpecExpr::Not(i) => seq!['~', ' ', '('] + render_expr(*i) + seq![')'],
        SpecExpr::And(l, r) => seq!['('] + render_expr(*l) + seq![')', ' ', '&', ' ', '(']
            + render_expr(*r) + seq![')'],
        SpecExpr::Or(l, r) => seq!['('] + render_expr(*l) + seq![')', ' ', '|', ' ', '(']
            + render_expr(*r) + seq![')'],
    }
}

/// The token that names `op` in query text.
pub fn op_str(op: Operator) -> (r: &'static str)
    ensures
        r@ == op_token(op),
{
    proof {
        reveal_strlit("==");
        reveal_strlit(">");
        reveal_strlit("<");
        reveal_strlit(">=");
        reveal_strlit("<=");
        reveal_strlit("@SW");
        reveal_strlit("@EW");
        reveal_strlit("@CT");
        reveal_strlit("@OO");
        assert("=="@ =~= seq!['=', '=']);
        assert(">"@ =~= seq!['>']);
        assert("<"@ =~= seq!['<']);
        assert(">="@ =~= seq!['>', '=']);
        assert("<="@ =~= seq!['<', '=']);
        assert("@SW"@ =~= seq!['@', 'S', 'W']);
        assert("@EW"@ =~= seq!['@', 'E', 'W']);
        assert("@CT"@ =~= seq!['@', 'C', 'T']);
        assert("@OO"@ =~= seq!['@', 'O', 'O']);
    }
    match op {
        Operator::Eq => "==",
        Operator::Gt => ">",
        Operator::Lt => "<",
        Operator::Gte => ">=",
        Operator::Lte => "<=",
        Operator::StartsWith => "@SW",
        Operator::EndsWith => "@EW",
        Operator::Contains => "@CT",
        Operator::OneOf => "@OO",
    }
}

/// Renders a tree back to canonical query text.
pub fn to_query_string(e: &Expr) -> (out: String)
    requires
        has_values(expr_view(*e)),
    ensures
        out@ == render_expr(expr_view(*e)),
    decreases *e,
{
    proof {
        reveal_strlit(" ");
        reveal_strlit("[");
        reveal_strlit("]");
        reveal_strlit(",");
        reveal_strlit("~ (");
        reveal_strlit(")");
        reveal_strlit("(");
        reveal_strlit(") & (");
        reveal_strlit(") | (");
        assert(" "@ =~= seq![' ']);
        assert("["@ =~= seq!['[']);
        assert("]"@ =~= seq![']']);
        assert(","@ =~= seq![',']);
        assert("~ ("@ =~= seq!['~', ' ', '(']);
        assert(")"@ =~= seq![')']);
        assert("("@ =~= seq!['(']);
        assert(") & ("@ =~= seq![')', ' ', '&', ' ', '(']);
        assert(") | ("@ =~= seq![')', ' ', '|', ' ', '(']);
    }
    match e {
        Expr::Condition(f, op, vs) => {
            let mut out = f.clone();
            out.append(" ");
            out.append(op_str(*op));
            if *op == Operator::OneOf {
                out.append(" ");
                out.append("[");
                let ghost views = vs.deep_view();
                let mut k: usize = 0;
                assert(views.len() >= 1);
                while k < vs.len()
                    invariant
                        1 <= views.len() == vs.len(),
                        k <= vs.len(),
                        views == vs.deep_view(),
                        out@ == f@ + seq![' '] + op_token(*op) + seq![' ', '['] + render_items(
                            views.take(k as int),
                        ),
                    decreases vs.len() - k,
                {
                    if k > 0 {
                        out.append(",");
                    }
                    out.append(vs[k].as_str());
                    proof {
                        reveal_strlit(",");
                        assert(","@ =~= seq![',']);
                        assert(views[k as int] == vs@[k as int]@);
                        if k == 0 {
                            assert(views.take(1) =~= seq![views[0]]);
                            assert(render_items(views.take(1)) == views[0]);
                        } else {
                            lemma_render_items_take(views, k as int);
                        }
                        assert(out@ =~= f@ + seq![' '] + op_token(*op) + seq![' ', '[']
                            + render_items(views.take(k as int + 1)));
                    }
                    k = k + 1;
                }
                out.append("]");
                proof {
                    assert(views.take(views.len() as int) =~= views);
                    assert(out@ =~= render_expr(expr_view(*e)));
                }
                out
            } else {
                out.append(" ");
                out.append(vs[0].as_str());
                proof {
                    assert(vs.deep_view()[0] == vs@[0]@);
                    assert(out@ =~= render_expr(expr_view(*e)));
                }
                out
            }
        },
        Expr::Not(i) => {
            let mut out = String::from_str("~ (");
            out.append(to_query_string(i).as_str());
            out.append(")");
            proof {
                assert(out@ =~= render_expr(expr_view(*e)));
            }
            out
        },
        Expr::And(l, r) => {
            let mut out = String::from_str("(");
            out.append(to_query_string(l).as_str());
            out.append(") & (");
            out.append(to_query_string(r).as_str());
            out.append(")");
            proof {
                assert(out@ =~= render_expr(expr_view(*e)));
            }
            out
        },
        Expr::Or(l, r) => {
            let mut out = String::from_str("(");
            out.append(to_query_string(l).as_str());
            out.append(") | (");
            out.append(to_query_string(r).as_str());
            out.append(")");
            proof {
                assert(out@ =~= render_expr(expr_view(*e)));
            }
            out
        },
    }
}

/// Extending a take by one item appends `,item` once at least one item is
/// already rendered.
pub proof fn lemma_render_items_take(values: Seq<Seq<char>>, k: int)
    requires
        1 <= k < values.len(),
    ensures
        render_items(values.take(k + 1)) == render_items(values.take(k)) + seq![','] + values[k],
    decreases k,
{
    if k == 1 {
        assert(values.take(2).drop_first() =~= seq![values[1]]);
        assert(values.take(1) =~= seq![values[0]]);
        assert(render_items(values.take(2)) == values.take(2)[0] + seq![','] + render_items(
            values.take(2).drop_first(),
        ));
        assert(render_items(values.take(2)) =~= values[0] + seq![','] + values[1]);
        assert(render_items(values.take(1)) + seq![','] + values[1] =~= values[0] + seq![',']
            + values[1]);
    } else {
        lemma_render_items_take(values.drop_first(), k - 1);
        assert(values.take(k + 1).drop_first() =~= values.drop_first().take(k));
        assert(values.take(k).drop_first() =~= values.drop_first().take(k - 1));
        assert(values.take(k + 1)[0] == values[0]);
        assert(values.take(k)[0] == values[0]);
        assert(values.drop_first()[k - 1] == values[k]);
        assert(render_items(values.take(k + 1)) == values[0] + seq![','] + render_items(
            values.drop_first().take(k),
        ));
        assert(render_items(values.take(k)) == values[0] + seq![','] + render_items(
            values.drop_first().take(k - 1),
        ));
        assert(values[0] + seq![','] + (render_items(values.drop_first().take(k - 1)) + seq![',']
            + values[k]) =~= (values[0] + seq![','] + render_items(values.drop_first().take(k - 1)))
            + seq![','] + values[k]);
    }
}

} // verus!
