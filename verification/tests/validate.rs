use formcheck::checker::Checker;
use formcheck::value::AllowedInts;
use formcheck::value::FieldType;
use formcheck::value::FieldValue;
use formcheck::value::Rule;
use formcheck::value::TruePredicate;
use formcheck::validator::QueryError;
use formcheck::validator::QueryMap;
use formcheck::validator::Validator;

fn str_of(v: &FieldValue) -> String {
    match v {
        FieldValue::Str(s) => s.value(),
        FieldValue::Int(_) => panic!("expected a text value"),
    }
}

fn int_of(v: &FieldValue) -> i64 {
    match v {
        FieldValue::Int(i) => i.value(),
        FieldValue::Str(_) => panic!("expected an integer value"),
    }
}

fn title_age_schema() -> Validator<TruePredicate> {
    let mut v: Validator<TruePredicate> = Validator::new();
    v.add_checker(
        Checker::new("title", FieldType::Str, "title")
            .add_rule(Rule::Min(3))
            .add_rule(Rule::Max(64)),
    );
    v.add_checker(
        Checker::new("age", FieldType::Int, "age")
            .add_rule(Rule::Min(0))
            .add_rule(Rule::Max(150))
            .add_rule(Rule::Optional),
    );
    v
}

#[test]
fn short_title_yields_min_message() {
    let mut v = title_age_schema();
    let mut q = QueryMap::new();
    q.add("title".to_string(), vec!["ab".to_string()]);
    v.validate(Ok(q));
    assert!(!v.is_valid());
    assert_eq!(v.messages.len(), 1);
    assert_eq!(v.messages[0].as_str(), "title must be at least 3 characters");
    assert!(v.get_optional("title").is_none());
    assert!(v.get_optional("age").is_none());
}

#[test]
fn failing_sibling_does_not_block_passing_field() {
    let mut v = title_age_schema();
    let mut q = QueryMap::new();
    q.add("title".to_string(), vec!["Hello".to_string()]);
    q.add("age".to_string(), vec!["200".to_string()]);
    v.validate(Ok(q));
    assert!(!v.is_valid());
    assert_eq!(v.messages.len(), 1);
    assert_eq!(v.messages[0].as_str(), "age must be at most 150");
    let title = v.get_valid("title");
    assert_eq!(str_of(title).as_str(), "Hello");
    assert!(v.get_optional("age").is_none());
}

#[test]
fn required_field_absent_gives_one_message_and_no_entry() {
    let mut v: Validator<TruePredicate> = Validator::new();
    v.add_checker(Checker::new("title", FieldType::Str, "title"));
    v.validate(Ok(QueryMap::new()));
    assert!(!v.is_valid());
    assert_eq!(v.messages.len(), 1);
    assert_eq!(v.messages[0].as_str(), "title must not be empty");
    assert!(v.get_optional("title").is_none());
}

#[test]
fn required_field_empty_string_gives_one_message_and_no_entry() {
    let mut v: Validator<TruePredicate> = Validator::new();
    v.add_checker(Checker::new("title", FieldType::Str, "title"));
    let mut q = QueryMap::new();
    q.add("title".to_string(), vec!["".to_string()]);
    v.validate(Ok(q));
    assert!(!v.is_valid());
    assert_eq!(v.messages.len(), 1);
    assert_eq!(v.messages[0].as_str(), "title must not be empty");
    assert!(v.get_optional("title").is_none());
}

#[test]
fn optional_field_absent_is_silent() {
    let mut v: Validator<TruePredicate> = Validator::new();
    v.add_checker(Checker::new("age", FieldType::Int, "age").add_rule(Rule::Optional));
    v.validate(Ok(QueryMap::new()));
    assert!(v.is_valid());
    assert_eq!(v.messages.len(), 0);
    assert!(v.get_optional("age").is_none());
}

#[test]
fn min_before_format_short_circuits_to_min_message() {
    let mut v: Validator<TruePredicate> = Validator::new();
    v.add_checker(
        Checker::new("code", FieldType::Str, "code")
            .add_rule(Rule::Min(5))
            .add_rule(Rule::Format("^[a-z]+$".to_string())),
    );
    let mut q = QueryMap::new();
    q.add("code".to_string(), vec!["1".to_string()]);
    v.validate(Ok(q));
    assert_eq!(v.messages.len(), 1);
    assert_eq!(v.messages[0].as_str(), "code must be at least 5 characters");
}

#[test]
fn text_field_without_rules_round_trips() {
    let mut v: Validator<TruePredicate> = Validator::new();
    v.add_checker(Checker::new("note", FieldType::Str, "note"));
    let mut q = QueryMap::new();
    q.add("note".to_string(), vec!["h\u{e9}llo, world! <>&".to_string()]);
    v.validate(Ok(q));
    assert!(v.is_valid());
    assert_eq!(str_of(v.get_valid("note")).as_str(), "h\u{e9}llo, world! <>&");
}

#[test]
fn multiple_field_fails_on_third_element_with_one_message() {
    let mut v: Validator<TruePredicate> = Validator::new();
    v.add_checker(Checker::new("nums", FieldType::Int, "nums").add_rule(Rule::Multiple));
    let mut q = QueryMap::new();
    q.add(
        "nums".to_string(),
        vec!["1".to_string(), "2".to_string(), "x".to_string()],
    );
    v.validate(Ok(q));
    assert!(!v.is_valid());
    assert_eq!(v.messages.len(), 1);
    assert_eq!(v.messages[0].as_str(), "nums has an invalid format");
    assert!(v.get_optional("nums").is_none());
}

#[test]
fn multiple_field_collects_every_value_in_order() {
    let mut v: Validator<TruePredicate> = Validator::new();
    v.add_checker(Checker::new("nums", FieldType::Int, "nums").add_rule(Rule::Multiple));
    let mut q = QueryMap::new();
    q.add(
        "nums".to_string(),
        vec!["7".to_string(), "8".to_string(), "9".to_string()],
    );
    v.validate(Ok(q));
    assert!(v.is_valid());
    assert_eq!(int_of(v.get_valid("nums")), 7);
}

#[test]
fn one_field_type_shared_by_two_checkers_stays_independent() {
    let text = FieldType::Str;
    let mut v: Validator<TruePredicate> = Validator::new();
    v.add_checker(Checker::new("a", text, "a").add_rule(Rule::Min(10)));
    v.add_checker(Checker::new("b", text, "b").add_rule(Rule::Max(10)));
    let mut q = QueryMap::new();
    q.add("a".to_string(), vec!["short".to_string()]);
    q.add("b".to_string(), vec!["short".to_string()]);
    v.validate(Ok(q));
    assert_eq!(v.messages.len(), 1);
    assert_eq!(v.messages[0].as_str(), "a must be at least 10 characters");
    assert!(v.get_optional("a").is_none());
    assert_eq!(str_of(v.get_valid("b")).as_str(), "short");
}

#[test]
fn lambda_rule_rejects_value_outside_the_set() {
    let mut v: Validator<AllowedInts> = Validator::new();
    v.add_checker(
        Checker::new("kind", FieldType::Int, "kind")
            .add_rule(Rule::Lambda(AllowedInts { allowed: vec![0, 1, 2] })),
    );
    let mut q = QueryMap::new();
    q.add("kind".to_string(), vec!["3".to_string()]);
    v.validate(Ok(q));
    assert!(!v.is_valid());
    assert_eq!(v.messages.len(), 1);
    assert_eq!(v.messages[0].as_str(), "kind is invalid");
    assert!(v.get_optional("kind").is_none());
}

#[test]
fn lambda_rule_accepts_value_in_the_set() {
    let mut v: Validator<AllowedInts> = Validator::new();
    v.add_checker(
        Checker::new("kind", FieldType::Int, "kind")
            .add_rule(Rule::Lambda(AllowedInts { allowed: vec![0, 1, 2] })),
    );
    let mut q = QueryMap::new();
    q.add("kind".to_string(), vec!["1".to_string()]);
    v.validate(Ok(q));
    assert!(v.is_valid());
    assert_eq!(int_of(v.get_valid("kind")), 1);
}

#[test]
fn undecodable_input_yields_single_generic_message() {
    let mut v: Validator<TruePredicate> = Validator::new();
    v.add_checker(Checker::new("title", FieldType::Str, "title"));
    v.validate(Err(QueryError));
    assert!(!v.is_valid());
    assert_eq!(v.messages.len(), 1);
    assert_eq!(v.messages[0].as_str(), "invalid request");
    assert!(v.get_optional("title").is_none());
}

#[test]
fn empty_schema_accepts_anything() {
    let mut v: Validator<TruePredicate> = Validator::new();
    v.validate(Err(QueryError));
    assert!(v.is_valid());
    let mut w: Validator<TruePredicate> = Validator::new();
    let mut q = QueryMap::new();
    q.add("stray".to_string(), vec!["x".to_string()]);
    w.validate(Ok(q));
    assert!(w.is_valid());
}

#[test]
fn multiple_field_with_empty_list_counts_as_absent() {
    let mut v: Validator<TruePredicate> = Validator::new();
    v.add_checker(Checker::new("nums", FieldType::Int, "nums").add_rule(Rule::Multiple));
    let mut q = QueryMap::new();
    q.add("nums".to_string(), vec![]);
    v.validate(Ok(q));
    assert!(!v.is_valid());
    assert_eq!(v.messages[0].as_str(), "nums must not be empty");
}

#[test]
fn multiple_field_elements_skip_the_emptiness_branch() {
    // An empty element of a multiple integer field is a parse failure,
    // even when the field itself is optional.
    let mut v: Validator<TruePredicate> = Validator::new();
    v.add_checker(
        Checker::new("nums", FieldType::Int, "nums")
            .add_rule(Rule::Multiple)
            .add_rule(Rule::Optional),
    );
    let mut q = QueryMap::new();
    q.add("nums".to_string(), vec!["".to_string(), "2".to_string()]);
    v.validate(Ok(q));
    assert!(!v.is_valid());
    assert_eq!(v.messages[0].as_str(), "nums has an invalid format");
    assert!(v.get_optional("nums").is_none());
}

#[test]
fn multiple_text_field_keeps_empty_elements() {
    // An empty element of a multiple text field parses, so it is stored.
    let mut v: Validator<TruePredicate> = Validator::new();
    v.add_checker(Checker::new("vals", FieldType::Str, "vals").add_rule(Rule::Multiple));
    let mut q = QueryMap::new();
    q.add("vals".to_string(), vec!["".to_string(), "x".to_string()]);
    v.validate(Ok(q));
    assert!(v.is_valid());
    assert_eq!(str_of(v.get_valid("vals")).as_str(), "");
}

#[test]
fn whitespace_only_value_counts_as_empty_for_required_field() {
    let mut v: Validator<TruePredicate> = Validator::new();
    v.add_checker(Checker::new("title", FieldType::Str, "title"));
    let mut q = QueryMap::new();
    q.add("title".to_string(), vec![" \t ".to_string()]);
    v.validate(Ok(q));
    assert!(!v.is_valid());
    assert_eq!(v.messages[0].as_str(), "title must not be empty");
    assert!(v.get_optional("title").is_none());
}

#[test]
fn whitespace_only_value_counts_as_empty_for_optional_field() {
    let mut v: Validator<TruePredicate> = Validator::new();
    v.add_checker(Checker::new("age", FieldType::Int, "age").add_rule(Rule::Optional));
    let mut q = QueryMap::new();
    q.add("age".to_string(), vec!["   ".to_string()]);
    v.validate(Ok(q));
    assert!(v.is_valid());
    assert_eq!(v.messages.len(), 0);
    assert!(v.get_optional("age").is_none());
}

#[test]
fn message_uses_title_and_lookup_uses_name() {
    let mut v: Validator<TruePredicate> = Validator::new();
    v.add_checker(Checker::new("t", FieldType::Str, "The Title").add_rule(Rule::Min(3)));
    let mut q = QueryMap::new();
    q.add("t".to_string(), vec!["ok".to_string()]);
    v.validate(Ok(q));
    assert_eq!(v.messages.len(), 1);
    assert_eq!(v.messages[0].as_str(), "The Title must be at least 3 characters");
}
