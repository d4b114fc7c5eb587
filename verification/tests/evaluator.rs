//! Evaluator tests: per-operator semantics, fail-closed rules, and the
//! boolean laws on synthetic records.

use rs_masscode::eval::evaluate;
use rs_masscode::expr::{Expr, Operator};
use rs_masscode::parse::parse_query;
use rs_masscode::record::Record;

fn record(fields: &[(&str, &str)]) -> Record {
    let mut r = Record::new();
    for (name, value) in fields {
        r.push_text(name.to_string(), value.to_string());
    }
    r
}

fn cond(field: &str, op: Operator, values: &[&str]) -> Expr {
    Expr::Condition(
        field.to_string(),
        op,
        values.iter().map(|v| v.to_string()).collect(),
    )
}

#[test]
fn eq_matches_exact_text() {
    let r = record(&[("name", "scripts")]);
    assert!(evaluate(&cond("name", Operator::Eq, &["scripts"]), &r));
    assert!(!evaluate(&cond("name", Operator::Eq, &["script"]), &r));
    assert!(!evaluate(&cond("name", Operator::Eq, &["scriptsx"]), &r));
}

#[test]
fn any_of_semantics_for_eq() {
    // An equality condition with several values matches a record whose
    // field equals any one of them, and no others.
    let e = cond("f", Operator::Eq, &["a", "b", "c"]);
    assert!(evaluate(&e, &record(&[("f", "a")])));
    assert!(evaluate(&e, &record(&[("f", "b")])));
    assert!(evaluate(&e, &record(&[("f", "c")])));
    assert!(!evaluate(&e, &record(&[("f", "d")])));
    assert!(!evaluate(&e, &record(&[("f", "ab")])));
}

#[test]
fn one_of_equals_eq_on_scalars() {
    let r = record(&[("f", "b")]);
    for values in [vec!["b"], vec!["a", "b"], vec!["x", "y"]] {
        assert_eq!(
            evaluate(&cond("f", Operator::Eq, &values), &r),
            evaluate(&cond("f", Operator::OneOf, &values), &r),
        );
    }
}

#[test]
fn missing_field_is_false_for_every_operator() {
    let r = record(&[("other", "7")]);
    for op in [
        Operator::Eq,
        Operator::Gt,
        Operator::Lt,
        Operator::Gte,
        Operator::Lte,
        Operator::StartsWith,
        Operator::EndsWith,
        Operator::Contains,
        Operator::OneOf,
    ] {
        assert!(!evaluate(&cond("absent", op, &["7"]), &r));
    }
}

#[test]
fn non_text_field_is_false_for_every_operator() {
    let mut r = Record::new();
    r.push_other("flag".to_string());
    for op in [
        Operator::Eq,
        Operator::Gt,
        Operator::StartsWith,
        Operator::Contains,
        Operator::OneOf,
    ] {
        assert!(!evaluate(&cond("flag", op, &["true"]), &r));
    }
}

#[test]
fn ordering_matches_only_numeric_text() {
    // index > 5 against "3", "7", "abc": only "7" matches; non-numeric
    // text never matches an ordering operator.
    let e = parse_query("(index > 5)").unwrap();
    assert!(!evaluate(&e, &record(&[("index", "3")])));
    assert!(evaluate(&e, &record(&[("index", "7")])));
    assert!(!evaluate(&e, &record(&[("index", "abc")])));
}

#[test]
fn ordering_is_numeric_not_lexicographic() {
    let r = record(&[("n", "12")]);
    assert!(evaluate(&cond("n", Operator::Gt, &["9"]), &r));
    assert!(evaluate(&cond("n", Operator::Lt, &["100"]), &r));
    assert!(evaluate(&cond("n", Operator::Gte, &["12"]), &r));
    assert!(evaluate(&cond("n", Operator::Lte, &["12"]), &r));
    assert!(!evaluate(&cond("n", Operator::Gt, &["12"]), &r));
    assert!(!evaluate(&cond("n", Operator::Lt, &["12"]), &r));
}

#[test]
fn ordering_ignores_leading_zeros() {
    let r = record(&[("n", "007")]);
    assert!(evaluate(&cond("n", Operator::Gt, &["6"]), &r));
    assert!(evaluate(&cond("n", Operator::Lte, &["7"]), &r));
    assert!(!evaluate(&cond("n", Operator::Gt, &["08"]), &r));
}

#[test]
fn ordering_handles_numbers_beyond_machine_width() {
    let r = record(&[("n", "123456789012345678901234567890")]);
    assert!(evaluate(&cond("n", Operator::Gt, &["99999999999999999999"]), &r));
    assert!(!evaluate(&cond("n", Operator::Lt, &["99999999999999999999"]), &r));
}

#[test]
fn boolean_field_never_matches_boolean_looking_text() {
    // `(isDeleted == true)` parses, but a boolean field is not text, so
    // the condition is false whatever the field's state.
    let e = parse_query("(isDeleted == true)").unwrap();
    let mut r = Record::new();
    r.push_other("isDeleted".to_string());
    assert!(!evaluate(&e, &r));
}

#[test]
fn substring_operators() {
    let r = record(&[("name", "scripts")]);
    assert!(evaluate(&cond("name", Operator::StartsWith, &["s"]), &r));
    assert!(evaluate(&cond("name", Operator::StartsWith, &["scr"]), &r));
    assert!(!evaluate(&cond("name", Operator::StartsWith, &["cr"]), &r));
    assert!(evaluate(&cond("name", Operator::EndsWith, &["ts"]), &r));
    assert!(!evaluate(&cond("name", Operator::EndsWith, &["t"]), &r));
    assert!(evaluate(&cond("name", Operator::Contains, &["rip"]), &r));
    assert!(evaluate(&cond("name", Operator::Contains, &["scripts"]), &r));
    assert!(!evaluate(&cond("name", Operator::Contains, &["xyz"]), &r));
    assert!(!evaluate(&cond("name", Operator::Contains, &["scriptss"]), &r));
}

#[test]
fn tag_record_starts_with_scenario() {
    // (name @SW s) against the tag record {name: "scripts"}.
    let e = parse_query("(name @SW s)").unwrap();
    assert!(evaluate(&e, &record(&[("name", "scripts")])));
}

#[test]
fn double_negation_keeps_the_outcome() {
    let records = [
        record(&[("f", "a")]),
        record(&[("f", "b")]),
        record(&[("g", "a")]),
    ];
    let inner = cond("f", Operator::Eq, &["a"]);
    for r in &records {
        let plain = evaluate(&inner, r);
        let doubled = Expr::Not(Box::new(Expr::Not(Box::new(cond(
            "f",
            Operator::Eq,
            &["a"],
        )))));
        assert_eq!(evaluate(&doubled, r), plain);
    }
}

#[test]
fn boolean_operators_follow_truth_tables() {
    // And/Or/Not are checked point by point on synthetic records: one
    // condition true, one false, in each combination.
    let r = record(&[("t", "yes"), ("u", "yes")]);
    let tt = |name: &str| cond(name, Operator::Eq, &["yes"]);
    let ff = |name: &str| cond(name, Operator::Eq, &["no"]);
    let cases: [(Expr, bool); 4] = [
        (Expr::And(Box::new(tt("t")), Box::new(tt("u"))), true),
        (Expr::And(Box::new(tt("t")), Box::new(ff("u"))), false),
        (Expr::And(Box::new(ff("t")), Box::new(tt("u"))), false),
        (Expr::And(Box::new(ff("t")), Box::new(ff("u"))), false),
    ];
    for (e, want) in cases {
        assert_eq!(evaluate(&e, &r), want);
    }
    let cases: [(Expr, bool); 4] = [
        (Expr::Or(Box::new(tt("t")), Box::new(tt("u"))), true),
        (Expr::Or(Box::new(tt("t")), Box::new(ff("u"))), true),
        (Expr::Or(Box::new(ff("t")), Box::new(tt("u"))), true),
        (Expr::Or(Box::new(ff("t")), Box::new(ff("u"))), false),
    ];
    for (e, want) in cases {
        assert_eq!(evaluate(&e, &r), want);
    }
    assert!(!evaluate(&Expr::Not(Box::new(tt("t"))), &r));
    assert!(evaluate(&Expr::Not(Box::new(ff("t"))), &r));
}

#[test]
fn first_field_of_a_name_wins() {
    let r = record(&[("f", "a"), ("f", "b")]);
    assert!(evaluate(&cond("f", Operator::Eq, &["a"]), &r));
    assert!(!evaluate(&cond("f", Operator::Eq, &["b"]), &r));
}
