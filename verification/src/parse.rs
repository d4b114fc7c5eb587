//! The query parser: a recursive-descent reading of the grammar
//!
//! ```text
//! logical    := paren ws* "&" ws* paren
//!             | paren ws* "|" ws* paren
//!             | "~" ws+ paren
//!             | condition
//!             | paren
//! paren      := "(" logical ")"
//! condition  := field ws+ "@OO" ws+ value_list
//!             | field ws+ operator ws+ value
//! field      := alnum+
//! value      := alnum+
//! value_list := "[" item ("," item)* "]"
//! operator   := "==" | "!=" | ">=" | "<=" | ">" | "<" | "@SW" | "@EW" | "@CT" | "@OO"
//! ```
//!
//! Both operands of `&` and `|` must be parenthesized; `~` applies to a
//! parenthesized expression and requires whitespace after the tilde. A list
//! item is any non-empty run free of `,` and `]`, with leading whitespace
//! stripped. `field != v` is rewritten to `Not(Condition(field, Eq, [v]))`.
//! A successful parse must consume the whole input; trailing text is a
//! [`SyntaxError`].

use vstd::prelude::*;
use vstd::string::StrSliceExecFns;
use vstd::string::StringExecFns;
use crate::text::{is_alnum_char, is_item_char, is_ws_char, alnum_char, item_char, ws_char};
use crate::expr::{Expr, Operator, SpecExpr, expr_view};

verus! {

/// Malformed query text. `pos` is the number of leading characters that
/// form a parseable prefix, or zero when no prefix parses.
#[derive(Clone, Copy, Debug, PartialEq, Eq, Structural)]
pub struct SyntaxError {
    pub pos: usize,
}

/// Length of the whitespace run starting at `i`.
pub open spec fn ws_count(s: Seq<char>, i: int) -> nat
    decreases s.len() - i,
{
    if 0 <= i < s.len() && is_ws_char(s[i]) {
        (1 + ws_count(s, i + 1)) as nat
    } else {
        0
    }
}

/// Length of the alphanumeric run starting at `i`.
pub open spec fn alnum_count(s: Seq<char>, i: int) -> nat
    decreases s.len() - i,
{
    if 0 <= i < s.len() && is_alnum_char(s[i]) {
        (1 + alnum_count(s, i + 1)) as nat
    } else {
        0
    }
}

/// Length of the run of list-item characters starting at `i`.
pub open spec fn item_count(s: Seq<char>, i: int) -> nat
    decreases s.len() - i,
{
    if 0 <= i < s.len() && is_item_char(s[i]) {
        (1 + item_count(s, i + 1)) as nat
    } else {
        0
    }
}

pub proof fn lemma_ws_count(s: Seq<char>, i: int)
    requires
        0 <= i <= s.len(),
    ensures
        i + ws_count(s, i) <= s.len(),
        forall|k: int| i <= k < i + ws_count(s, i) ==> is_ws_char(#[trigger] s[k]),
        i + ws_count(s, i) == s.len() || !is_ws_char(s[i + ws_count(s, i)]),
    decreases s.len() - i,
{
    if i < s.len() && is_ws_char(s[i]) {
        lemma_ws_count(s, i + 1);
    }
}

pub proof fn lemma_alnum_count(s: Seq<char>, i: int)
    requires
        0 <= i <= s.len(),
    ensures
        i + alnum_count(s, i) <= s.len(),
        forall|k: int| i <= k < i + alnum_count(s, i) ==> is_alnum_char(#[trigger] s[k]),
        i + alnum_count(s, i) == s.len() || !is_alnum_char(s[i + alnum_count(s, i)]),
    decreases s.len() - i,
{
    if i < s.len() && is_alnum_char(s[i]) {
        lemma_alnum_count(s, i + 1);
    }
}

pub proof fn lemma_item_count(s: Seq<char>, i: int)
    requires
        0 <= i <= s.len(),
    ensures
        i + item_count(s, i) <= s.len(),
        forall|k: int| i <= k < i + item_count(s, i) ==> is_item_char(#[trigger] s[k]),
        i + item_count(s, i) == s.len() || !is_item_char(s[i + item_count(s, i)]),
    decreases s.len() - i,
{
    if i < s.len() && is_item_char(s[i]) {
        lemma_item_count(s, i + 1);
    }
}

/// A run of exactly `n` whitespace characters bounded by a non-whitespace
/// character (or the end) pins `ws_count` to `n`.
pub proof fn lemma_ws_count_exact(s: Seq<char>, i: int, n: int)
    requires
        0 <= i,
        0 <= n,
        i + n <= s.len(),
        forall|k: int| i <= k < i + n ==> is_ws_char(#[trigger] s[k]),
        i + n == s.len() || !is_ws_char(s[i + n]),
    ensures
        ws_count(s, i) == n,
    decreases n,
{
    if n > 0 {
        lemma_ws_count_exact(s, i + 1, n - 1);
    }
}

pub proof fn lemma_alnum_count_exact(s: Seq<char>, i: int, n: int)
    requires
        0 <= i,
        0 <= n,
        i + n <= s.len(),
        forall|k: int| i <= k < i + n ==> is_alnum_char(#[trigger] s[k]),
        i + n == s.len() || !is_alnum_char(s[i + n]),
    ensures
        alnum_count(s, i) == n,
    decreases n,
{
    if n > 0 {
        lemma_alnum_count_exact(s, i + 1, n - 1);
    }
}

pub proof fn lemma_item_count_exact(s: Seq<char>, i: int, n: int)
    requires
        0 <= i,
        0 <= n,
        i + n <= s.len(),
        forall|k: int| i <= k < i + n ==> is_item_char(#[trigger] s[k]),
        i + n == s.len() || !is_item_char(s[i + n]),
    ensures
        item_count(s, i) == n,
    decreases n,
{
    if n > 0 {
        lemma_item_count_exact(s, i + 1, n - 1);
    }
}

/// The operator token at `i`, with the tokens tried in the grammar's order;
/// the flag marks `!=`, which is read as negated equality.
pub open spec fn sp_operator(s: Seq<char>, i: int) -> Option<(bool, Operator, int)> {
    if i < 0 {
        None
    } else if i + 2 <= s.len() && s[i] == '=' && s[i + 1] == '=' {
        Some((false, Operator::Eq, i + 2))
    } else if i + 2 <= s.len() && s[i] == '!' && s[i + 1] == '=' {
        Some((true, Operator::Eq, i + 2))
    } else if i + 2 <= s.len() && s[i] == '>' && s[i + 1] == '=' {
        Some((false, Operator::Gte, i + 2))
    } else if i + 2 <= s.len() && s[i] == '<' && s[i + 1] == '=' {
        Some((false, Operator::Lte, i + 2))
    } else if i + 1 <= s.len() && s[i] == '>' {
        Some((false, Operator::Gt, i + 1))
    } else if i + 1 <= s.len() && s[i] == '<' {
        Some((false, Operator::Lt, i + 1))
    } else if i + 3 <= s.len() && s[i] == '@' && s[i + 1] == 'S' && s[i + 2] == 'W' {
        Some((false, Operator::StartsWith, i + 3))
    } else if i + 3 <= s.len() && s[i] == '@' && s[i + 1] == 'E' && s[i + 2] == 'W' {
        Some((false, Operator::EndsWith, i + 3))
    } else if i + 3 <= s.len() && s[i] == '@' && s[i + 1] == 'C' && s[i + 2] == 'T' {
        Some((false, Operator::Contains, i + 3))
    } else if i + 3 <= s.len() && s[i] == '@' && s[i + 1] == 'O' && s[i + 2] == 'O' {
        Some((false, Operator::OneOf, i + 3))
    } else {
        None
    }
}

/// The items of a bracketed value list, starting after the `[`; consumes
/// the closing `]`. Each item is a non-empty run free of `,` and `]`, with
/// leading whitespace stripped. At least one item is required: an empty
/// list is malformed.
pub open spec fn sp_items(s: Seq<char>, i: int) -> Option<(Seq<Seq<char>>, int)>
    decreases s.len() - i,
{
    if !(0 <= i <= s.len()) {
        None
    } else {
        let j = i + ws_count(s, i);
        let k = j + item_count(s, j);
        if k == j || k > s.len() {
            None
        } else if k < s.len() && s[k] == ',' {
            match sp_items(s, k + 1) {
                Some((rest, e)) => Some((seq![s.subrange(j, k)] + rest, e)),
                None => None,
            }
        } else if k < s.len() && s[k] == ']' {
            Some((seq![s.subrange(j, k)], k + 1))
        } else {
            None
        }
    }
}

/// A condition at `i`: `field ws+ "@OO" ws+ value_list`, or failing that,
/// `field ws+ operator ws+ value`; `!=` yields a negated equality.
pub open spec fn sp_condition(s: Seq<char>, i: int) -> Option<(SpecExpr, int)> {
    if !(0 <= i <= s.len()) {
        None
    } else {
        let fe = i + alnum_count(s, i);
        if fe == i || fe > s.len() {
            None
        } else {
            let field = s.subrange(i, fe);
            let w1 = fe + ws_count(s, fe);
            if w1 == fe {
                None
            } else {
                let list_branch = if w1 + 3 <= s.len() && s[w1] == '@' && s[w1 + 1] == 'O' && s[w1
                    + 2] == 'O' {
                    let w2 = (w1 + 3) + ws_count(s, w1 + 3);
                    if w2 == w1 + 3 {
                        None
                    } else if w2 < s.len() && s[w2] == '[' {
                        match sp_items(s, w2 + 1) {
                            Some((items, e)) => Some(
                                (
                                    SpecExpr::Cond {
                                        field,
                                        op: Operator::OneOf,
                                        values: items,
                                    },
                                    e,
                                ),
                            ),
                            None => None,
                        }
                    } else {
                        None
                    }
                } else {
                    None
                };
                if list_branch is Some {
                    list_branch
                } else {
                    match sp_operator(s, w1) {
                        None => None,
                        Some((neg, op, oe)) => {
                            let w2 = oe + ws_count(s, oe);
                            if w2 == oe {
                                None
                            } else {
                                let ve = w2 + alnum_count(s, w2);
                                if ve == w2 || ve > s.len() {
                                    None
                                } else {
                                    let v = s.subrange(w2, ve);
                                    let c = SpecExpr::Cond { field, op, values: seq![v] };
                                    Some(
                                        (
                                            if neg {
                                                SpecExpr::Not(Box::new(c))
                                            } else {
                                                c
                                            },
                                            ve,
                                        ),
                                    )
                                }
                            }
                        },
                    }
                }
            }
        }
    }
}

/// A parenthesized logical expression: `"(" logical ")"`.
pub open spec fn sp_paren(s: Seq<char>, i: int) -> Option<(SpecExpr, int)>
    decreases s.len() - i, 1int,
{
    if 0 <= i < s.len() && s[i] == '(' {
        match sp_logical(s, i + 1) {
            Some((e, j)) => if 0 <= j < s.len() && s[j] == ')' {
                Some((e, j + 1))
            } else {
                None
            },
            None => None,
        }
    } else {
        None
    }
}

/// Two parenthesized operands joined by the connective `c`, with optional
/// whitespace around the connective.
pub open spec fn sp_binary(s: Seq<char>, i: int, c: char) -> Option<(SpecExpr, SpecExpr, int)>
    decreases s.len() - i, 2int,
{
    if !(0 <= i <= s.len()) {
        None
    } else {
        match sp_paren(s, i) {
            None => None,
            Some((l, j)) => if !(i < j && j <= s.len()) {
                None
            } else {
                let j2 = j + ws_count(s, j);
                if j2 < s.len() && s[j2] == c {
                    let j3 = (j2 + 1) + ws_count(s, j2 + 1);
                    if j3 <= s.len() {
                        match sp_paren(s, j3) {
                            Some((r, j4)) => Some((l, r, j4)),
                            None => None,
                        }
                    } else {
                        None
                    }
                } else {
                    None
                }
            },
        }
    }
}

/// A logical expression at `i`, trying in order: conjunction, disjunction,
/// negation, a bare condition, and a parenthesized expression on its own.
pub open spec fn sp_logical(s: Seq<char>, i: int) -> Option<(SpecExpr, int)>
    decreases s.len() - i, 3int,
{
    if !(0 <= i <= s.len()) {
        None
    } else {
        match sp_binary(s, i, '&') {
            Some((l, r, j)) => Some((SpecExpr::And(Box::new(l), Box::new(r)), j)),
            None => match sp_binary(s, i, '|') {
                Some((l, r, j)) => Some((SpecExpr::Or(Box::new(l), Box::new(r)), j)),
                None => {
                    let not_branch = if i < s.len() && s[i] == '~' && ws_count(s, i + 1) > 0 && i + 1
                        + ws_count(s, i + 1) <= s.len() {
                        match sp_paren(s, i + 1 + ws_count(s, i + 1)) {
                            Some((e, j)) => Some((SpecExpr::Not(Box::new(e)), j)),
                            None => None,
                        }
                    } else {
                        None
                    };
                    if not_branch is Some {
                        not_branch
                    } else {
                        match sp_condition(s, i) {
                            Some((e, j)) => Some((e, j)),
                            None => sp_paren(s, i),
                        }
                    }
                },
            },
        }
    }
}

/// Position after the whitespace run starting at `i`.
fn skip_ws(s: &str, i: usize) -> (r: usize)
    requires
        i <= s@.len(),
    ensures
        r == i + ws_count(s@, i as int),
        i <= r <= s@.len(),
{
    let n: usize = s.unicode_len();
    let mut j: usize = i;
    while j < n && ws_char(s.get_char(j))
        invariant
            i <= j <= n,
            n == s@.len(),
            ws_count(s@, i as int) == j - i + ws_count(s@, j as int),
        decreases n - j,
    {
        proof {
            assert(ws_count(s@, j as int) == 1 + ws_count(s@, j + 1));
        }
        j = j + 1;
    }
    j
}

/// Position after the alphanumeric run starting at `i`.
fn skip_alnum(s: &str, i: usize) -> (r: usize)
    requires
        i <= s@.len(),
    ensures
        r == i + alnum_count(s@, i as int),
        i <= r <= s@.len(),
{
    let n: usize = s.unicode_len();
    let mut j: usize = i;
    while j < n && alnum_char(s.get_char(j))
        invariant
            i <= j <= n,
            n == s@.len(),
            alnum_count(s@, i as int) == j - i + alnum_count(s@, j as int),
        decreases n - j,
    {
        proof {
            assert(alnum_count(s@, j as int) == 1 + alnum_count(s@, j + 1));
        }
        j = j + 1;
    }
    j
}

/// Position after the run of list-item characters starting at `i`.
fn skip_item(s: &str, i: usize) -> (r: usize)
    requires
        i <= s@.len(),
    ensures
        r == i + item_count(s@, i as int),
        i <= r <= s@.len(),
{
    let n: usize = s.unicode_len();
    let mut j: usize = i;
    while j < n && item_char(s.get_char(j))
        invariant
            i <= j <= n,
            n == s@.len(),
            item_count(s@, i as int) == j - i + item_count(s@, j as int),
        decreases n - j,
    {
        proof {
            assert(item_count(s@, j as int) == 1 + item_count(s@, j + 1));
        }
        j = j + 1;
    }
    j
}

/// Reads the operator token at `i`.
fn p_operator(s: &str, i: usize) -> (r: Option<(bool, Operator, usize)>)
    requires
        i <= s@.len(),
    ensures
        match r {
            Some((neg, op, p)) => sp_operator(s@, i as int) == Some((neg, op, p as int)) && i < p
                <= s@.len(),
            None => sp_operator(s@, i as int) is None,
        },
{
    let n: usize = s.unicode_len();
    if n - i >= 2 && s.get_char(i) == '=' && s.get_char(i + 1) == '=' {
        Some((false, Operator::Eq, i + 2))
    } else if n - i >= 2 && s.get_char(i) == '!' && s.get_char(i + 1) == '=' {
        Some((true, Operator::Eq, i + 2))
    } else if n - i >= 2 && s.get_char(i) == '>' && s.get_char(i + 1) == '=' {
        Some((false, Operator::Gte, i + 2))
    } else if n - i >= 2 && s.get_char(i) == '<' && s.get_char(i + 1) == '=' {
        Some((false, Operator::Lte, i + 2))
    } else if n - i >= 1 && s.get_char(i) == '>' {
        Some((false, Operator::Gt, i + 1))
    } else if n - i >= 1 && s.get_char(i) == '<' {
        Some((false, Operator::Lt, i + 1))
    } else if n - i >= 3 && s.get_char(i) == '@' && s.get_char(i + 1) == 'S' && s.get_char(i + 2)
        == 'W' {
        Some((false, Operator::StartsWith, i + 3))
    } else if n - i >= 3 && s.get_char(i) == '@' && s.get_char(i + 1) == 'E' && s.get_char(i + 2)
        == 'W' {
        Some((false, Operator::EndsWith, i + 3))
    } else if n - i >= 3 && s.get_char(i) == '@' && s.get_char(i + 1) == 'C' && s.get_char(i + 2)
        == 'T' {
        Some((false, Operator::Contains, i + 3))
    } else if n - i >= 3 && s.get_char(i) == '@' && s.get_char(i + 1) == 'O' && s.get_char(i + 2)
        == 'O' {
        Some((false, Operator::OneOf, i + 3))
    } else {
        None
    }
}

/// Reads the items of a value list, starting after the `[`.
fn p_items(s: &str, i: usize) -> (r: Option<(Vec<String>, usize)>)
    requires
        i <= s@.len(),
    ensures
        match r {
            Some((items, p)) => sp_items(s@, i as int) == Some((items.deep_view(), p as int)) && i
                < p <= s@.len(),
            None => sp_items(s@, i as int) is None,
        },
    decreases s@.len() - i,
{
    let n: usize = s.unicode_len();
    let j: usize = skip_ws(s, i);
    let k: usize = skip_item(s, j);
    if k == j {
        None
    } else if k < n && s.get_char(k) == ',' {
        let item = String::from_str(s.substring_char(j, k));
        match p_items(s, k + 1) {
            Some((rest, e)) => {
                let ghost restv = rest.deep_view();
                let mut items = rest;
                items.insert(0, item);
                proof {
                    assert(items.deep_view() =~= seq![s@.subrange(j as int, k as int)] + restv);
                }
                Some((items, e))
            },
            None => None,
        }
    } else if k < n && s.get_char(k) == ']' {
        let item = String::from_str(s.substring_char(j, k));
        let mut items: Vec<String> = Vec::new();
        items.push(item);
        proof {
            assert(items.deep_view() =~= seq![s@.subrange(j as int, k as int)]);
        }
        Some((items, k + 1))
    } else {
        None
    }
}

/// Reads a condition at `i`.
fn p_condition(s: &str, i: usize) -> (r: Option<(Expr, usize)>)
    requires
        i <= s@.len(),
    ensures
        match r {
            Some((e, p)) => sp_condition(s@, i as int) == Some((expr_view(e), p as int)) && i < p
                <= s@.len(),
            None => sp_condition(s@, i as int) is None,
        },
{
    let n: usize = s.unicode_len();
    let fe: usize = skip_alnum(s, i);
    if fe == i {
        return None;
    }
    let field = String::from_str(s.substring_char(i, fe));
    let w1: usize = skip_ws(s, fe);
    if w1 == fe {
        return None;
    }
    if n - w1 >= 3 && s.get_char(w1) == '@' && s.get_char(w1 + 1) == 'O' && s.get_char(w1 + 2)
        == 'O' {
        let w2: usize = skip_ws(s, w1 + 3);
        if w2 > w1 + 3 && w2 < n && s.get_char(w2) == '[' {
            match p_items(s, w2 + 1) {
                Some((items, e)) => {
                    let cond = Expr::Condition(field, Operator::OneOf, items);
                    return Some((cond, e));
                },
                None => {},
            }
        }
    }
    match p_operator(s, w1) {
        None => None,
        Some((neg, op, oe)) => {
            let w2: usize = skip_ws(s, oe);
            if w2 == oe {
                None
            } else {
                let ve: usize = skip_alnum(s, w2);
                if ve == w2 {
                    None
                } else {
                    let value = String::from_str(s.substring_char(w2, ve));
                    let mut values: Vec<String> = Vec::new();
                    values.push(value);
                    proof {
                        assert(values.deep_view() =~= seq![s@.subrange(w2 as int, ve as int)]);
                    }
                    let cond = Expr::Condition(field, op, values);
                    proof {
                        assert(sp_operator(s@, w1 as int) == Some((neg, op, oe as int)));
                        assert(ws_count(s@, oe as int) == w2 - oe);
                        assert(alnum_count(s@, w2 as int) == ve - w2);
                        assert(expr_view(cond) == (SpecExpr::Cond {
                            field: s@.subrange(i as int, fe as int),
                            op,
                            values: seq![s@.subrange(w2 as int, ve as int)],
                        }));
                    }
                    if neg {
                        Some((Expr::Not(Box::new(cond)), ve))
                    } else {
                        Some((cond, ve))
                    }
                }
            }
        },
    }
}

/// Reads a parenthesized logical expression at `i`.
fn p_paren(s: &str, i: usize) -> (r: Option<(Expr, usize)>)
    requires
        i <= s@.len(),
    ensures
        match r {
            Some((e, p)) => sp_paren(s@, i as int) == Some((expr_view(e), p as int)) && i < p
                <= s@.len(),
            None => sp_paren(s@, i as int) is None,
        },
    decreases s@.len() - i, 1int,
{
    let n: usize = s.unicode_len();
    if i < n && s.get_char(i) == '(' {
        match p_logical(s, i + 1) {
            Some((e, j)) => {
                if j < n && s.get_char(j) == ')' {
                    Some((e, j + 1))
                } else {
                    None
                }
            },
            None => None,
        }
    } else {
        None
    }
}

/// Reads `paren ws* c ws* paren` at `i`.
fn p_binary(s: &str, i: usize, c: char) -> (r: Option<(Expr, Expr, usize)>)
    requires
        i <= s@.len(),
    ensures
        match r {
            Some((l, rr, p)) => sp_binary(s@, i as int, c) == Some(
                (expr_view(l), expr_view(rr), p as int),
            ) && i < p <= s@.len(),
            None => sp_binary(s@, i as int, c) is None,
        },
    decreases s@.len() - i, 2int,
{
    let n: usize = s.unicode_len();
    match p_paren(s, i) {
        None => None,
        Some((l, j)) => {
            let j2: usize = skip_ws(s, j);
            if j2 < n && s.get_char(j2) == c {
                let j3: usize = skip_ws(s, j2 + 1);
                match p_paren(s, j3) {
                    Some((rr, j4)) => Some((l, rr, j4)),
                    None => None,
                }
            } else {
                None
            }
        },
    }
}

/// Reads a logical expression at `i`.
fn p_logical(s: &str, i: usize) -> (r: Option<(Expr, usize)>)
    requires
        i <= s@.len(),
    ensures
        match r {
            Some((e, p)) => sp_logical(s@, i as int) == Some((expr_view(e), p as int)) && i < p
                <= s@.len(),
            None => sp_logical(s@, i as int) is None,
        },
    decreases s@.len() - i, 3int,
{
    let n: usize = s.unicode_len();
    match p_binary(s, i, '&') {
        Some((l, r, j)) => {
            return Some((Expr::And(Box::new(l), Box::new(r)), j));
        },
        None => {},
    }
    match p_binary(s, i, '|') {
        Some((l, r, j)) => {
            return Some((Expr::Or(Box::new(l), Box::new(r)), j));
        },
        None => {},
    }
    if i < n && s.get_char(i) == '~' {
        let w: usize = skip_ws(s, i + 1);
        if w > i + 1 {
            match p_paren(s, w) {
                Some((e, j)) => {
                    return Some((Expr::Not(Box::new(e)), j));
                },
                None => {},
            }
        }
    }
    match p_condition(s, i) {
        Some((e, j)) => Some((e, j)),
        None => p_paren(s, i),
    }
}

/// Parses a whole query string into an expression tree.
///
/// Succeeds exactly on the syntactically valid queries: the grammar must
/// derive the whole input. On failure the error's `pos` is the length of
/// the longest parseable prefix, or zero when no prefix parses.
pub fn parse_query(input: &str) -> (r: Result<Expr, SyntaxError>)
    ensures
        match r {
            Ok(e) => spec_parse_query(input@) == Some(expr_view(e)),
            Err(err) => spec_parse_query(input@) is None && match sp_logical(input@, 0) {
                Some((e, j)) => err.pos == j,
                None => err.pos == 0,
            },
        },
{
    let n: usize = input.unicode_len();
    match p_logical(input, 0) {
        Some((e, j)) => {
            if j == n {
                Ok(e)
            } else {
                Err(SyntaxError { pos: j })
            }
        },
        None => Err(SyntaxError { pos: 0 }),
    }
}

/// A whole query: a logical expression that consumes the entire input.
pub open spec fn spec_parse_query(q: Seq<char>) -> Option<SpecExpr> {
    match sp_logical(q, 0) {
        Some((e, j)) => if j == q.len() {
            Some(e)
        } else {
            None
        },
        None => None,
    }
}

} // verus!
