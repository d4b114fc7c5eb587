//! Round-trip law: a parsed query renders back to canonical text that
//! parses to the structurally equal tree.
//!
//! Two halves: every tree the parser produces is well-formed
//! ([`lemma_parse_query_wf`]), and every well-formed tree's rendering
//! parses back to it ([`lemma_render_parses`]). Together they give the
//! round trip ([`lemma_parse_round_trip`]).

use vstd::prelude::*;
use crate::text::{is_alnum_char, is_item_char, is_ws_char};
use crate::expr::{Operator, SpecExpr, expr_view, wf_expr, wf_item, wf_scalar, render_expr,
    render_items, op_token, to_query_string, lemma_wf_has_values};
use crate::parse::parse_query;
use crate::parse::{ws_count, alnum_count, item_count, lemma_ws_count, lemma_alnum_count,
    lemma_item_count, lemma_ws_count_exact, lemma_alnum_count_exact, lemma_item_count_exact,
    sp_operator, sp_items, sp_condition, sp_paren, sp_binary, sp_logical, spec_parse_query};

verus! {

/// Every item list the parser accepts consists of well-formed items and
/// ends strictly beyond where it began.
proof fn lemma_items_wf(s: Seq<char>, i: int)
    requires
        0 <= i <= s.len(),
    ensures
        sp_items(s, i) matches Some((items, j)) ==> {
            &&& items.len() >= 1
            &&& forall|k: int| 0 <= k < items.len() ==> wf_item(#[trigger] items[k])
            &&& i < j <= s.len()
        },
    decreases s.len() - i,
{
    lemma_ws_count(s, i);
    let j = i + ws_count(s, i);
    lemma_item_count(s, j);
    let k = j + item_count(s, j);
    if k != j && k <= s.len() {
        assert(wf_item(s.subrange(j, k))) by {
            assert(forall|m: int| j <= m < k ==> is_item_char(#[trigger] s[m]));
            assert(s.subrange(j, k)[0] == s[j]);
            assert(!is_ws_char(s[j]));
            assert(forall|m: int| 0 <= m < k - j ==> is_item_char(#[trigger] s.subrange(j, k)[m]));
        }
        if k < s.len() && s[k] == ',' {
            lemma_items_wf(s, k + 1);
        }
    }
}

/// Every condition the parser accepts is well-formed and ends strictly
/// beyond where it began.
proof fn lemma_condition_wf(s: Seq<char>, i: int)
    requires
        0 <= i <= s.len(),
    ensures
        sp_condition(s, i) matches Some((e, j)) ==> wf_expr(e) && i < j <= s.len(),
{
    lemma_alnum_count(s, i);
    let fe = i + alnum_count(s, i);
    if fe != i && fe <= s.len() {
        let field = s.subrange(i, fe);
        assert(wf_scalar(field)) by {
            assert(forall|m: int| i <= m < fe ==> is_alnum_char(#[trigger] s[m]));
            assert(forall|m: int| 0 <= m < fe - i ==> is_alnum_char(#[trigger] field[m]));
        }
        lemma_ws_count(s, fe);
        let w1 = fe + ws_count(s, fe);
        if w1 != fe {
            if w1 + 3 <= s.len() && s[w1] == '@' && s[w1 + 1] == 'O' && s[w1 + 2] == 'O' {
                lemma_ws_count(s, w1 + 3);
                let w2 = (w1 + 3) + ws_count(s, w1 + 3);
                if w2 != w1 + 3 && w2 < s.len() && s[w2] == '[' {
                    lemma_items_wf(s, w2 + 1);
                    match sp_items(s, w2 + 1) {
                        Option::Some((items, je)) => {
                            assert(wf_expr(
                                SpecExpr::Cond { field, op: Operator::OneOf, values: items },
                            ));
                        },
                        Option::None => {},
                    }
                }
            }
            match sp_operator(s, w1) {
                Option::Some((neg, op, oe)) => {
                    lemma_ws_count(s, oe);
                    let w2 = oe + ws_count(s, oe);
                    if w2 != oe {
                        lemma_alnum_count(s, w2);
                        let ve = w2 + alnum_count(s, w2);
                        if ve != w2 && ve <= s.len() {
                            let v = s.subrange(w2, ve);
                            assert(wf_scalar(v)) by {
                                assert(forall|m: int| w2 <= m < ve ==> is_alnum_char(
                                    #[trigger] s[m],
                                ));
                                assert(forall|m: int| 0 <= m < ve - w2 ==> is_alnum_char(
                                    #[trigger] v[m],
                                ));
                            }
                            assert(wf_item(v)) by {
                                assert(is_alnum_char(v[0]));
                            }
                            assert(seq![v][0] == v);
                            assert(wf_expr(SpecExpr::Cond { field, op, values: seq![v] }));
                        }
                    }
                },
                Option::None => {},
            }
        }
    }
}

/// Every tree `sp_logical` accepts is well-formed and ends strictly beyond
/// where it began; likewise for its parenthesized and binary helpers.
proof fn lemma_paren_wf(s: Seq<char>, i: int)
    requires
        0 <= i <= s.len(),
    ensures
        sp_paren(s, i) matches Some((e, j)) ==> wf_expr(e) && i < j <= s.len(),
    decreases s.len() - i, 1int,
{
    if 0 <= i < s.len() && s[i] == '(' {
        lemma_logical_wf(s, i + 1);
    }
}

proof fn lemma_binary_wf(s: Seq<char>, i: int, c: char)
    requires
        0 <= i <= s.len(),
    ensures
        sp_binary(s, i, c) matches Some((l, r, j)) ==> wf_expr(l) && wf_expr(r) && i < j
            <= s.len(),
    decreases s.len() - i, 2int,
{
    lemma_paren_wf(s, i);
    match sp_paren(s, i) {
        Option::Some((l, j)) => {
            if i < j && j <= s.len() {
                lemma_ws_count(s, j);
                let j2 = j + ws_count(s, j);
                if j2 < s.len() && s[j2] == c {
                    lemma_ws_count(s, j2 + 1);
                    let j3 = (j2 + 1) + ws_count(s, j2 + 1);
                    if j3 <= s.len() {
                        lemma_paren_wf(s, j3);
                    }
                }
            }
        },
        Option::None => {},
    }
}

proof fn lemma_logical_wf(s: Seq<char>, i: int)
    requires
        0 <= i <= s.len(),
    ensures
        sp_logical(s, i) matches Some((e, j)) ==> wf_expr(e) && i < j <= s.len(),
    decreases s.len() - i, 3int,
{
    lemma_binary_wf(s, i, '&');
    lemma_binary_wf(s, i, '|');
    if i < s.len() && s[i] == '~' && ws_count(s, i + 1) > 0 && i + 1 + ws_count(s, i + 1)
        <= s.len() {
        lemma_ws_count(s, i + 1);
        lemma_paren_wf(s, i + 1 + ws_count(s, i + 1));
    }
    lemma_condition_wf(s, i);
    lemma_paren_wf(s, i);
}

/// Every tree a whole-query parse produces is well-formed.
pub proof fn lemma_parse_query_wf(q: Seq<char>)
    ensures
        spec_parse_query(q) matches Some(e) ==> wf_expr(e),
{
    lemma_logical_wf(q, 0);
}

/// The text `t` stands in `s` at position `i`.
pub open spec fn text_at(s: Seq<char>, i: int, t: Seq<char>) -> bool {
    0 <= i && i + t.len() <= s.len() && forall|k: int|
        0 <= k < t.len() ==> s[i + k] == #[trigger] t[k]
}

proof fn lemma_text_char(s: Seq<char>, i: int, t: Seq<char>, k: int)
    requires
        text_at(s, i, t),
        0 <= k < t.len(),
    ensures
        s[i + k] == t[k],
{
    assert(t[k] == t[k]);
}

proof fn lemma_text_at_concat(s: Seq<char>, i: int, a: Seq<char>, b: Seq<char>)
    requires
        text_at(s, i, a + b),
    ensures
        text_at(s, i, a),
        text_at(s, i + a.len(), b),
{
    assert forall|k: int| 0 <= k < a.len() implies s[i + k] == #[trigger] a[k] by {
        assert((a + b)[k] == a[k]);
    }
    assert forall|k: int| 0 <= k < b.len() implies s[i + a.len() + k] == #[trigger] b[k] by {
        assert((a + b)[a.len() + k] == b[k]);
    }
}

/// A scalar token bounded by a non-alphanumeric character (or the end)
/// is read whole, and as itself.
proof fn lemma_scalar_token(s: Seq<char>, i: int, t: Seq<char>)
    requires
        text_at(s, i, t),
        wf_scalar(t),
        i + t.len() == s.len() || !is_alnum_char(s[i + t.len()]),
    ensures
        alnum_count(s, i) == t.len(),
        s.subrange(i, i + t.len()) == t,
{
    assert forall|m: int| i <= m < i + t.len() implies is_alnum_char(#[trigger] s[m]) by {
        lemma_text_char(s, i, t, m - i);
    }
    lemma_alnum_count_exact(s, i, t.len() as int);
    assert forall|m: int| 0 <= m < t.len() implies s.subrange(i, i + t.len())[m] == t[m] by {
        lemma_text_char(s, i, t, m);
    }
    assert(s.subrange(i, i + t.len()) =~= t);
}

/// A list item bounded by `,` or `]` is read whole, with no whitespace
/// stripped, and as itself.
proof fn lemma_item_token(s: Seq<char>, i: int, t: Seq<char>)
    requires
        text_at(s, i, t),
        wf_item(t),
        i + t.len() < s.len(),
        !is_item_char(s[i + t.len()]),
    ensures
        ws_count(s, i) == 0,
        item_count(s, i) == t.len(),
        s.subrange(i, i + t.len()) == t,
{
    lemma_text_char(s, i, t, 0);
    assert(!is_ws_char(s[i]));
    assert forall|m: int| i <= m < i + t.len() implies is_item_char(#[trigger] s[m]) by {
        lemma_text_char(s, i, t, m - i);
    }
    lemma_item_count_exact(s, i, t.len() as int);
    assert forall|m: int| 0 <= m < t.len() implies s.subrange(i, i + t.len())[m] == t[m] by {
        lemma_text_char(s, i, t, m);
    }
    assert(s.subrange(i, i + t.len()) =~= t);
}

/// One space bounded by a non-whitespace character is exactly one unit of
/// whitespace.
proof fn lemma_one_ws(s: Seq<char>, i: int)
    requires
        0 <= i,
        i + 1 < s.len(),
        s[i] == ' ',
        !is_ws_char(s[i + 1]),
    ensures
        ws_count(s, i) == 1,
{
    lemma_ws_count_exact(s, i, 1);
}

/// The rendering of well-formed items, followed by `]`, parses back to
/// exactly those items.
proof fn lemma_items_parse(s: Seq<char>, i: int, values: Seq<Seq<char>>)
    requires
        values.len() >= 1,
        forall|k: int| 0 <= k < values.len() ==> wf_item(#[trigger] values[k]),
        text_at(s, i, render_items(values)),
        i + render_items(values).len() < s.len(),
        s[i + render_items(values).len()] == ']',
    ensures
        sp_items(s, i) == Some((values, i + render_items(values).len() + 1)),
    decreases values.len(),
{
    let ri = render_items(values);
    let t = values[0];
    if values.len() == 1 {
        assert(ri == t);
        assert(!is_item_char(s[i + t.len()]));
        lemma_item_token(s, i, t);
        assert(seq![s.subrange(i, i + t.len())] =~= values);
    } else {
        let rest = render_items(values.drop_first());
        assert(ri == t + seq![','] + rest);
        lemma_text_at_concat(s, i, t + seq![','], rest);
        lemma_text_at_concat(s, i, t, seq![',']);
        lemma_text_char(s, i + t.len(), seq![','], 0);
        assert(s[i + t.len()] == ',');
        lemma_item_token(s, i, t);
        assert forall|k: int| 0 <= k < values.drop_first().len() implies wf_item(
            #[trigger] values.drop_first()[k],
        ) by {
            assert(values.drop_first()[k] == values[k + 1]);
        }
        lemma_items_parse(s, i + t.len() + 1, values.drop_first());
        assert(seq![s.subrange(i, i + t.len())] + values.drop_first() =~= values);
    }
}

/// The rendering of a well-formed condition parses back to it.
proof fn lemma_render_cond_parses(s: Seq<char>, i: int, e: SpecExpr)
    requires
        wf_expr(e),
        e matches SpecExpr::Cond { .. },
        text_at(s, i, render_expr(e)),
        i + render_expr(e).len() == s.len() || !is_alnum_char(s[i + render_expr(e).len()]),
    ensures
        sp_condition(s, i) == Some((e, i + render_expr(e).len())),
{
    let r = render_expr(e);
    match e {
        SpecExpr::Cond { field, op, values } => {
            let fl = field.len() as int;
            if op == Operator::OneOf {
                let ri = render_items(values);
                assert(r == field + seq![' '] + seq!['@', 'O', 'O'] + seq![' ', '['] + ri + seq![
                    ']',
                ]) by {
                    assert(op_token(op) =~= seq!['@', 'O', 'O']);
                }
                lemma_text_at_concat(
                    s,
                    i,
                    field + seq![' '] + seq!['@', 'O', 'O'] + seq![' ', '['] + ri,
                    seq![']'],
                );
                lemma_text_at_concat(
                    s,
                    i,
                    field + seq![' '] + seq!['@', 'O', 'O'] + seq![' ', '['],
                    ri,
                );
                lemma_text_at_concat(s, i, field + seq![' '] + seq!['@', 'O', 'O'], seq![' ', '[']);
                lemma_text_at_concat(s, i, field + seq![' '], seq!['@', 'O', 'O']);
                lemma_text_at_concat(s, i, field, seq![' ']);
                lemma_text_char(s, i + fl, seq![' '], 0);
                lemma_text_char(s, i + fl + 1, seq!['@', 'O', 'O'], 0);
                lemma_text_char(s, i + fl + 1, seq!['@', 'O', 'O'], 1);
                lemma_text_char(s, i + fl + 1, seq!['@', 'O', 'O'], 2);
                lemma_text_char(s, i + fl + 4, seq![' ', '['], 0);
                lemma_text_char(s, i + fl + 4, seq![' ', '['], 1);
                lemma_scalar_token(s, i, field);
                let fe = i + fl;
                lemma_one_ws(s, fe);
                let w1 = fe + 1;
                assert(s[w1] == '@' && s[w1 + 1] == 'O' && s[w1 + 2] == 'O');
                lemma_one_ws(s, w1 + 3);
                let w2 = w1 + 4;
                assert(s[w2] == '[');
                lemma_text_char(s, i, r, i + r.len() - 1 - i);
                lemma_items_parse(s, w2 + 1, values);
                assert(sp_condition(s, i) == Some((e, i + r.len())));
            } else {
                let tk = op_token(op);
                let v = values[0];
                assert(r == field + seq![' '] + tk + seq![' '] + v);
                lemma_text_at_concat(s, i, field + seq![' '] + tk + seq![' '], v);
                lemma_text_at_concat(s, i, field + seq![' '] + tk, seq![' ']);
                lemma_text_at_concat(s, i, field + seq![' '], tk);
                lemma_text_at_concat(s, i, field, seq![' ']);
                lemma_text_char(s, i + fl, seq![' '], 0);
                lemma_scalar_token(s, i, field);
                let fe = i + fl;
                let w1 = fe + 1;
                assert(!is_ws_char(tk[0]));
                lemma_text_char(s, w1, tk, 0);
                lemma_one_ws(s, fe);
                if tk.len() >= 2 {
                    lemma_text_char(s, w1, tk, 1);
                }
                if tk.len() >= 3 {
                    lemma_text_char(s, w1, tk, 2);
                }
                let oe = w1 + tk.len();
                lemma_text_char(s, oe, seq![' '], 0);
                assert(s[oe] == ' ');
                assert(v.len() >= 1 && is_alnum_char(v[0]));
                lemma_text_char(s, oe + 1, v, 0);
                lemma_one_ws(s, oe);
                let w2 = oe + 1;
                lemma_scalar_token(s, w2, v);
                assert(sp_operator(s, w1) == Some((false, op, oe)));
                assert(seq![s.subrange(w2, w2 + v.len())] =~= values);
                assert(sp_condition(s, i) == Some((e, i + r.len())));
            }
        },
        _ => {},
    }
}

/// The rendering of a well-formed tree, wrapped in parentheses, parses
/// back to it as a parenthesized expression.
proof fn lemma_render_paren_parses(s: Seq<char>, i: int, e: SpecExpr)
    requires
        wf_expr(e),
        text_at(s, i, seq!['('] + render_expr(e) + seq![')']),
    ensures
        sp_paren(s, i) == Some((e, i + render_expr(e).len() + 2)),
    decreases e, 1int,
{
    let r = render_expr(e);
    lemma_text_at_concat(s, i, seq!['('] + r, seq![')']);
    lemma_text_at_concat(s, i, seq!['('], r);
    lemma_text_char(s, i, seq!['('], 0);
    lemma_text_char(s, i + 1 + r.len(), seq![')'], 0);
    assert(s[i] == '(');
    assert(s[i + 1 + r.len()] == ')');
    lemma_render_parses(s, i + 1, e);
}

/// The rendering of a well-formed tree, bounded by a non-alphanumeric
/// character (or the end of input), parses back to the structurally equal
/// tree.
#[verifier::rlimit(100)]
pub proof fn lemma_render_parses(s: Seq<char>, i: int, e: SpecExpr)
    requires
        wf_expr(e),
        text_at(s, i, render_expr(e)),
        i + render_expr(e).len() == s.len() || !is_alnum_char(s[i + render_expr(e).len()]),
    ensures
        sp_logical(s, i) == Some((e, i + render_expr(e).len())),
    decreases e, 0int,
{
    let r = render_expr(e);
    match e {
        SpecExpr::Cond { field, op, values } => {
            assert(field.len() >= 1);
            assert(r[0] == field[0]) by {
                if op == Operator::OneOf {
                    assert(r == field + seq![' '] + op_token(op) + seq![' ', '['] + render_items(
                        values,
                    ) + seq![']']);
                } else {
                    assert(r == field + seq![' '] + op_token(op) + seq![' '] + values[0]);
                }
            }
            lemma_text_char(s, i, r, 0);
            assert(is_alnum_char(s[i]));
            assert(sp_paren(s, i) is None);
            assert(sp_binary(s, i, '&') is None);
            assert(sp_binary(s, i, '|') is None);
            lemma_render_cond_parses(s, i, e);
        },
        SpecExpr::Not(x) => {
            let rx = render_expr(*x);
            let p = seq!['('] + rx + seq![')'];
            assert(r =~= seq!['~', ' '] + p);
            lemma_text_at_concat(s, i, seq!['~', ' '], p);
            lemma_text_char(s, i, seq!['~', ' '], 0);
            lemma_text_char(s, i, seq!['~', ' '], 1);
            lemma_text_char(s, i + 2, p, 0);
            assert(s[i] == '~' && s[i + 1] == ' ' && s[i + 2] == '(');
            assert(sp_paren(s, i) is None);
            assert(sp_binary(s, i, '&') is None);
            assert(sp_binary(s, i, '|') is None);
            lemma_one_ws(s, i + 1);
            lemma_render_paren_parses(s, i + 2, *x);
            assert(sp_logical(s, i) == Some((e, i + r.len())));
        },
        SpecExpr::And(l, r2) => {
            let rl = render_expr(*l);
            let rr = render_expr(*r2);
            let pl = seq!['('] + rl + seq![')'];
            let pr = seq!['('] + rr + seq![')'];
            assert(r =~= pl + seq![' ', '&', ' '] + pr);
            lemma_text_at_concat(s, i, pl + seq![' ', '&', ' '], pr);
            lemma_text_at_concat(s, i, pl, seq![' ', '&', ' ']);
            let j = i + pl.len();
            lemma_text_char(s, j, seq![' ', '&', ' '], 0);
            lemma_text_char(s, j, seq![' ', '&', ' '], 1);
            lemma_text_char(s, j, seq![' ', '&', ' '], 2);
            lemma_text_char(s, j + 3, pr, 0);
            assert(s[j] == ' ' && s[j + 1] == '&' && s[j + 2] == ' ' && s[j + 3] == '(');
            lemma_render_paren_parses(s, i, *l);
            lemma_one_ws(s, j);
            lemma_one_ws(s, j + 2);
            lemma_render_paren_parses(s, j + 3, *r2);
            assert(sp_binary(s, i, '&') == Some((*l, *r2, i + r.len())));
            assert(sp_logical(s, i) == Some((e, i + r.len())));
        },
        SpecExpr::Or(l, r2) => {
            let rl = render_expr(*l);
            let rr = render_expr(*r2);
            let pl = seq!['('] + rl + seq![')'];
            let pr = seq!['('] + rr + seq![')'];
            assert(r =~= pl + seq![' ', '|', ' '] + pr);
            lemma_text_at_concat(s, i, pl + seq![' ', '|', ' '], pr);
            lemma_text_at_concat(s, i, pl, seq![' ', '|', ' ']);
            let j = i + pl.len();
            lemma_text_char(s, j, seq![' ', '|', ' '], 0);
            lemma_text_char(s, j, seq![' ', '|', ' '], 1);
            lemma_text_char(s, j, seq![' ', '|', ' '], 2);
            lemma_text_char(s, j + 3, pr, 0);
            assert(s[j] == ' ' && s[j + 1] == '|' && s[j + 2] == ' ' && s[j + 3] == '(');
            lemma_render_paren_parses(s, i, *l);
            lemma_one_ws(s, j);
            assert(sp_binary(s, i, '&') is None);
            lemma_one_ws(s, j + 2);
            lemma_render_paren_parses(s, j + 3, *r2);
            assert(sp_binary(s, i, '|') == Some((*l, *r2, i + r.len())));
            assert(sp_logical(s, i) == Some((e, i + r.len())));
        },
    }
}

/// Round trip: a tree parsed from query text renders to canonical text
/// that parses back to the structurally equal tree.
pub proof fn lemma_parse_round_trip(q: Seq<char>, e: SpecExpr)
    requires
        spec_parse_query(q) == Some(e),
    ensures
        wf_expr(e),
        spec_parse_query(render_expr(e)) == Some(e),
{
    lemma_parse_query_wf(q);
    let r = render_expr(e);
    assert(text_at(r, 0, r));
    lemma_render_parses(r, 0, e);
}

/// The canonical text of a query: parses it and renders the tree back.
/// Succeeds exactly on the valid queries, and the canonical text parses
/// to the same tree.
pub fn canonical_query(input: &str) -> (r: Option<String>)
    ensures
        match r {
            Some(text) => spec_parse_query(input@) matches Some(e) && text@ == render_expr(e)
                && spec_parse_query(text@) == Some(e),
            None => spec_parse_query(input@) is None,
        },
{
    match parse_query(input) {
        Ok(e) => {
            proof {
                lemma_parse_round_trip(input@, expr_view(e));
                lemma_wf_has_values(expr_view(e));
            }
            Some(to_query_string(&e))
        },
        Err(_) => None,
    }
}

} // verus!
