use formcheck::checker::Checker;
use formcheck::value::FieldType;
use formcheck::value::FieldValue;
use formcheck::value::IntValue;
use formcheck::value::Rule;
use formcheck::value::StrValue;
use formcheck::value::TruePredicate;
use formcheck::validator::QueryMap;
use formcheck::validator::Validator;

fn validate_one(field_type: FieldType, rules: Vec<Rule<TruePredicate>>, raw: &str) -> Validator<TruePredicate> {
    let mut c = Checker::new("f", field_type, "f");
    for r in rules {
        c = c.add_rule(r);
    }
    let mut v: Validator<TruePredicate> = Validator::new();
    v.add_checker(c);
    let mut q = QueryMap::new();
    q.add("f".to_string(), vec![raw.to_string()]);
    v.validate(Ok(q));
    v
}

#[test]
fn integer_parses_extreme_values() {
    let v = validate_one(FieldType::Int, vec![], "9223372036854775807");
    assert!(v.is_valid());
    match v.get_valid("f") {
        FieldValue::Int(i) => assert_eq!(i.value(), 9223372036854775807),
        _ => panic!("expected an integer"),
    }
    let w = validate_one(FieldType::Int, vec![], "-9223372036854775808");
    assert!(w.is_valid());
    match w.get_valid("f") {
        FieldValue::Int(i) => assert_eq!(i.value(), -9223372036854775808),
        _ => panic!("expected an integer"),
    }
}

#[test]
fn integer_overflow_is_a_parse_failure() {
    let v = validate_one(FieldType::Int, vec![], "9223372036854775808");
    assert_eq!(v.messages[0].as_str(), "f has an invalid format");
    let w = validate_one(FieldType::Int, vec![], "-9223372036854775809");
    assert_eq!(w.messages[0].as_str(), "f has an invalid format");
}

#[test]
fn integer_accepts_plus_sign_and_leading_zeros() {
    let v = validate_one(FieldType::Int, vec![], "+42");
    assert!(v.is_valid());
    match v.get_valid("f") {
        FieldValue::Int(i) => assert_eq!(i.value(), 42),
        _ => panic!("expected an integer"),
    }
    let w = validate_one(FieldType::Int, vec![], "007");
    assert!(w.is_valid());
    match w.get_valid("f") {
        FieldValue::Int(i) => assert_eq!(i.value(), 7),
        _ => panic!("expected an integer"),
    }
}

#[test]
fn integer_rejects_malformed_literals() {
    for bad in ["x", "1x", "--3", "+", "-", "1 2", " 1", "1.5"] {
        let v = validate_one(FieldType::Int, vec![], bad);
        assert!(!v.is_valid(), "{bad:?} should not parse");
        assert_eq!(v.messages[0].as_str(), "f has an invalid format");
    }
}

#[test]
fn integer_bound_messages_carry_the_bound() {
    let v = validate_one(FieldType::Int, vec![Rule::Min(0)], "-1");
    assert_eq!(v.messages[0].as_str(), "f must be at least 0");
    let w = validate_one(FieldType::Int, vec![Rule::Max(-5)], "-4");
    assert_eq!(w.messages[0].as_str(), "f must be at most -5");
}

#[test]
fn bound_messages_render_extreme_bounds() {
    let v = validate_one(FieldType::Int, vec![Rule::Min(9223372036854775807)], "0");
    assert_eq!(
        v.messages[0].as_str(),
        "f must be at least 9223372036854775807"
    );
    let w = validate_one(FieldType::Int, vec![Rule::Max(-9223372036854775808)], "0");
    assert_eq!(
        w.messages[0].as_str(),
        "f must be at most -9223372036854775808"
    );
}

#[test]
fn text_length_bounds_count_characters_not_bytes() {
    let v = validate_one(FieldType::Str, vec![Rule::Max(4)], "\u{e9}\u{e9}\u{e9}\u{e9}");
    assert!(v.is_valid());
    let w = validate_one(FieldType::Str, vec![Rule::Max(3)], "\u{e9}\u{e9}\u{e9}\u{e9}");
    assert_eq!(w.messages[0].as_str(), "f must be at most 3 characters");
}

#[test]
fn format_rule_accepts_and_rejects() {
    let v = validate_one(
        FieldType::Str,
        vec![Rule::Format("^[a-z]+$".to_string())],
        "abc",
    );
    assert!(v.is_valid());
    let w = validate_one(
        FieldType::Str,
        vec![Rule::Format("^[a-z]+$".to_string())],
        "Abc1",
    );
    assert!(!w.is_valid());
    assert_eq!(w.messages[0].as_str(), "f has an incorrect format");
}

#[test]
fn format_requires_the_whole_value_to_match() {
    let v = validate_one(FieldType::Str, vec![Rule::Format("b+c".to_string())], "aabbcc");
    assert!(!v.is_valid());
    assert_eq!(v.messages[0].as_str(), "f has an incorrect format");
    let w = validate_one(FieldType::Str, vec![Rule::Format("[a-z]+".to_string())], "abc");
    assert!(w.is_valid());
    let u = validate_one(
        FieldType::Str,
        vec![Rule::Format(".*b+c.*".to_string())],
        "aabbcc",
    );
    assert!(u.is_valid());
}

#[test]
fn pattern_that_does_not_compile_matches_nothing() {
    let v = validate_one(FieldType::Str, vec![Rule::Format("[".to_string())], "anything");
    assert!(!v.is_valid());
    assert_eq!(v.messages[0].as_str(), "f has an incorrect format");
}

#[test]
fn first_attached_rule_wins_when_both_fail() {
    let v = validate_one(
        FieldType::Str,
        vec![Rule::Max(2), Rule::Format("^[a-z]$".to_string())],
        "abcd",
    );
    assert_eq!(v.messages.len(), 1);
    assert_eq!(v.messages[0].as_str(), "f must be at most 2 characters");
}

#[test]
fn checked_downcasts_refuse_the_wrong_type() {
    let v = validate_one(FieldType::Str, vec![], "hello");
    let fv = v.get_valid("f");
    assert!(fv.as_str().is_some());
    assert!(fv.as_int().is_none());
    let w = validate_one(FieldType::Int, vec![], "5");
    let wv = w.get_valid("f");
    assert!(wv.as_int().is_some());
    assert!(wv.as_str().is_none());
}

#[test]
fn parse_helpers_report_content() {
    let s = StrValue::parse("keep me").unwrap();
    assert_eq!(s.value().as_str(), "keep me");
    let i = IntValue::parse("-77").unwrap();
    assert_eq!(i.value(), -77);
    assert!(IntValue::parse("seven").is_none());
}
