//! Grammar tests: what parses, what is rejected, and the round trip.

use rs_masscode::expr::{to_query_string, Expr, Operator};
use rs_masscode::parse::parse_query;
use rs_masscode::roundtrip::canonical_query;

fn cond(field: &str, op: Operator, values: &[&str]) -> Expr {
    Expr::Condition(
        field.to_string(),
        op,
        values.iter().map(|v| v.to_string()).collect(),
    )
}

#[test]
fn parses_bare_condition() {
    let e = parse_query("name == scripts").unwrap();
    assert_eq!(e, cond("name", Operator::Eq, &["scripts"]));
}

#[test]
fn parses_parenthesized_condition() {
    let e = parse_query("(name @SW s)").unwrap();
    assert_eq!(e, cond("name", Operator::StartsWith, &["s"]));
}

#[test]
fn parses_all_operators() {
    assert_eq!(parse_query("a == b").unwrap(), cond("a", Operator::Eq, &["b"]));
    assert_eq!(parse_query("a > 5").unwrap(), cond("a", Operator::Gt, &["5"]));
    assert_eq!(parse_query("a < 5").unwrap(), cond("a", Operator::Lt, &["5"]));
    assert_eq!(parse_query("a >= 5").unwrap(), cond("a", Operator::Gte, &["5"]));
    assert_eq!(parse_query("a <= 5").unwrap(), cond("a", Operator::Lte, &["5"]));
    assert_eq!(parse_query("a @SW b").unwrap(), cond("a", Operator::StartsWith, &["b"]));
    assert_eq!(parse_query("a @EW b").unwrap(), cond("a", Operator::EndsWith, &["b"]));
    assert_eq!(parse_query("a @CT b").unwrap(), cond("a", Operator::Contains, &["b"]));
    assert_eq!(parse_query("a @OO b").unwrap(), cond("a", Operator::OneOf, &["b"]));
}

#[test]
fn rewrites_not_equal() {
    let e = parse_query("a != b").unwrap();
    assert_eq!(e, Expr::Not(Box::new(cond("a", Operator::Eq, &["b"]))));
}

#[test]
fn parses_value_list() {
    let e = parse_query("tagsIds @OO [t1,t2]").unwrap();
    assert_eq!(e, cond("tagsIds", Operator::OneOf, &["t1", "t2"]));
}

#[test]
fn value_list_strips_leading_spaces_only() {
    let e = parse_query("a @OO [ x, y z]").unwrap();
    assert_eq!(e, cond("a", Operator::OneOf, &["x", "y z"]));
}

#[test]
fn parses_and_or_not() {
    let e = parse_query("(a == b) & (c == d)").unwrap();
    assert_eq!(
        e,
        Expr::And(
            Box::new(cond("a", Operator::Eq, &["b"])),
            Box::new(cond("c", Operator::Eq, &["d"])),
        )
    );
    let e = parse_query("(a == b) | (c == d)").unwrap();
    assert_eq!(
        e,
        Expr::Or(
            Box::new(cond("a", Operator::Eq, &["b"])),
            Box::new(cond("c", Operator::Eq, &["d"])),
        )
    );
    let e = parse_query("~ (a == b)").unwrap();
    assert_eq!(e, Expr::Not(Box::new(cond("a", Operator::Eq, &["b"]))));
}

#[test]
fn parses_nested_logic() {
    let e = parse_query("((a == b) & (c == d)) | (~ (e @CT f))").unwrap();
    assert_eq!(
        e,
        Expr::Or(
            Box::new(Expr::And(
                Box::new(cond("a", Operator::Eq, &["b"])),
                Box::new(cond("c", Operator::Eq, &["d"])),
            )),
            Box::new(Expr::Not(Box::new(cond("e", Operator::Contains, &["f"])))),
        )
    );
}

#[test]
fn boolean_looking_value_is_plain_text() {
    // Booleans are not a token kind: `true` is an ordinary alphanumeric
    // value string, so this query parses (and a boolean field, not being
    // text, will simply never match it).
    let e = parse_query("(isDeleted == true)").unwrap();
    assert_eq!(e, cond("isDeleted", Operator::Eq, &["true"]));
}

#[test]
fn rejects_malformed_queries() {
    assert!(parse_query("").is_err());
    assert!(parse_query("name ==").is_err());
    assert!(parse_query("== scripts").is_err());
    assert!(parse_query("name scripts").is_err());
    assert!(parse_query("(name == a").is_err());
    assert!(parse_query("name @XX a").is_err());
    assert!(parse_query("~(a == b)").is_err());
    assert!(parse_query("a == b & c == d").is_err());
    assert!(parse_query("a @OO []").is_err());
    assert!(parse_query("a @OO [x,]").is_err());
    assert!(parse_query("a @OO [x").is_err());
}

#[test]
fn rejects_trailing_text() {
    let err = parse_query("a == b c").unwrap_err();
    assert_eq!(err.pos, 6);
    assert!(parse_query("(a == b))").is_err());
}

#[test]
fn requires_whitespace_around_operator() {
    assert!(parse_query("a==b").is_err());
    assert!(parse_query("a ==b").is_err());
    assert!(parse_query("a== b").is_err());
}

#[test]
fn round_trip_reparses_to_equal_tree() {
    let queries = [
        "name == scripts",
        "(name @SW s)",
        "a != b",
        "index >= 10",
        "tagsIds @OO [t1,t2,t3]",
        "((a == b) & (c == d)) | (~ (e @CT f))",
        "~ ((x < 3) | (y @EW z))",
    ];
    for q in queries {
        let e1 = parse_query(q).unwrap();
        let text = to_query_string(&e1);
        let e2 = parse_query(&text).unwrap();
        assert_eq!(e1, e2);
    }
}

#[test]
fn canonical_query_round_trips() {
    let text = canonical_query("a != b").unwrap();
    assert_eq!(text, "~ (a == b)");
    assert_eq!(parse_query(&text).unwrap(), parse_query("a != b").unwrap());
    assert!(canonical_query("a != ").is_none());
}

#[test]
fn canonical_text_is_stable() {
    let e = parse_query("(a == b) & (c @OO [x, y])").unwrap();
    assert_eq!(to_query_string(&e), "(a == b) & (c @OO [x,y])");
}
