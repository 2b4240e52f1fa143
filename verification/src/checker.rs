//! One field's specification: name, title, type, ordered rules, and the
//! two structural flags.
//!
//! A checker evaluates one field: absent or blank input (the emptiness
//! test ignores whitespace) is either accepted (optional) or rejected
//! with an "empty" message; otherwise the raw string is parsed by the
//! field type and the parsed value is matched against the rules in
//! attachment order, stopping at the first failure.  A `Lambda` rule is
//! evaluated last, after every other rule has passed.  Under a `multiple`
//! checker, every element of the submitted list goes through the parse
//! and rule steps directly, without the emptiness branch.

use vstd::prelude::*;
use vstd::string::StrSliceExecFns;
use vstd::string::StringExecFns;

use crate::value::FieldPredicate;
use crate::value::FieldType;
use crate::value::FieldValue;
use crate::value::FieldValueView;
use crate::value::match_rule_spec;
use crate::value::parse_spec;
use crate::value::Rule;

verus! {

/// Message suffix for a required field that arrived absent or blank.
pub open spec fn empty_msg() -> Seq<char> {
    " must not be empty"@
}

/// `c` is ASCII whitespace: space, tab, line feed, form feed or carriage
/// return.
pub open spec fn is_space_char(c: char) -> bool {
    c == ' ' || c == '\t' || c == '\n' || c == '\u{c}' || c == '\r'
}

/// Every character of `s` is whitespace; in particular the empty string
/// is blank.  A blank raw value counts as absent.
pub open spec fn is_blank(s: Seq<char>) -> bool {
    forall|i: int| 0 <= i < s.len() ==> is_space_char(#[trigger] s[i])
}

/// Decide blankness of a raw value.
fn is_blank_str(s: &str) -> (r: bool)
    ensures
        r == is_blank(s@),
{
    let n = s.unicode_len();
    let mut i: usize = 0;
    while i < n
        invariant
            n == s@.len(),
            0 <= i <= n,
            forall|j: int| 0 <= j < i ==> is_space_char(#[trigger] s@[j]),
        decreases n - i,
    {
        let c = s.get_char(i);
        if !(c == ' ' || c == '\t' || c == '\n' || c == '\u{c}' || c == '\r') {
            return false;
        }
        i += 1;
    }
    true
}

/// Message suffix for a raw string the field type could not parse.
pub open spec fn parse_fail_msg() -> Seq<char> {
    " has an invalid format"@
}

/// Message suffix for a value rejected by a `Lambda` predicate.
pub open spec fn lambda_msg() -> Seq<char> {
    " is invalid"@
}

/// The specification of one field.  `field_name` is the lookup key into
/// the raw input map; `field_title` appears in messages and never affects
/// anything else.  `rules` holds the value constraints in attachment
/// order; `Optional` and `Multiple` are never stored there, they set the
/// two flags instead.
#[derive(Clone)]
pub struct Checker<P> {
    pub field_name: String,
    pub field_title: String,
    pub field_type: FieldType,
    pub rules: Vec<Rule<P>>,
    pub optional: bool,
    pub multiple: bool,
}

/// The message suffix of the first rule that `v` fails, in rule order;
/// `None` when every rule passes.
pub open spec fn first_fail<P>(v: FieldValueView, rules: Seq<Rule<P>>) -> Option<Seq<char>>
    decreases rules.len(),
{
    if rules.len() == 0 {
        None
    } else {
        match match_rule_spec(v, rules[0]) {
            Result::Err(m) => Some(m),
            Result::Ok(_) => first_fail(v, rules.drop_first()),
        }
    }
}

/// The predicate of the last `Lambda` rule in the list, if any; a later
/// `Lambda` replaces an earlier one.
pub open spec fn last_lambda<P>(rules: Seq<Rule<P>>) -> Option<P>
    decreases rules.len(),
{
    if rules.len() == 0 {
        None
    } else {
        match rules.last() {
            Rule::Lambda(p) => Some(p),
            _ => last_lambda(rules.drop_last()),
        }
    }
}

/// What matching a parsed value against a checker's rules yields: the
/// value itself, or the title followed by the message of the first
/// failing rule, with the lambda (if any) evaluated last.
pub open spec fn check_value_spec<P: FieldPredicate>(c: Checker<P>, v: FieldValueView) -> Result<
    FieldValueView,
    Seq<char>,
> {
    match first_fail(v, c.rules@) {
        Some(m) => Result::Err(c.field_title@ + m),
        None => match last_lambda(c.rules@) {
            Some(p) => if p.spec_eval(v) {
                Result::Ok(v)
            } else {
                Result::Err(c.field_title@ + lambda_msg())
            },
            None => Result::Ok(v),
        },
    }
}

/// What a checker yields on absent or blank input.
pub open spec fn check_empty_spec<P>(c: Checker<P>) -> Result<Option<FieldValueView>, Seq<char>> {
    if c.optional {
        Result::Ok(None)
    } else {
        Result::Err(c.field_title@ + empty_msg())
    }
}

/// What parsing and rule-matching one present raw value yields: the typed
/// value, or the message for the first step that failed.
pub open spec fn check_present_spec<P: FieldPredicate>(c: Checker<P>, s: Seq<char>) -> Result<
    FieldValueView,
    Seq<char>,
> {
    match parse_spec(c.field_type, s) {
        Option::None => Result::Err(c.field_title@ + parse_fail_msg()),
        Option::Some(v) => check_value_spec(c, v),
    }
}

/// What a checker yields on one raw value: `Ok(None)` for an accepted
/// absence, `Ok(Some(v))` for a value that parsed and passed every rule,
/// and otherwise the message for the first step that failed.
pub open spec fn check_spec<P: FieldPredicate>(c: Checker<P>, raw: Option<Seq<char>>) -> Result<
    Option<FieldValueView>,
    Seq<char>,
> {
    match raw {
        Option::None => check_empty_spec(c),
        Option::Some(s) => if is_blank(s) {
            check_empty_spec(c)
        } else {
            match check_present_spec(c, s) {
                Result::Ok(w) => Result::Ok(Some(w)),
                Result::Err(m) => Result::Err(m),
            }
        },
    }
}

/// Run every element of a submitted list through the parse and rule
/// steps, in order — the emptiness branch does not apply to elements.
/// The first failing element aborts the whole list with its message; on
/// success every element contributes its typed value, in order.
pub open spec fn check_elems<P: FieldPredicate>(c: Checker<P>, elems: Seq<Seq<char>>) -> Result<
    Seq<FieldValueView>,
    Seq<char>,
>
    decreases elems.len(),
{
    if elems.len() == 0 {
        Result::Ok(Seq::empty())
    } else {
        match check_present_spec(c, elems[0]) {
            Result::Err(m) => Result::Err(m),
            Result::Ok(v) => match check_elems(c, elems.drop_first()) {
                Result::Err(m) => Result::Err(m),
                Result::Ok(rest) => Result::Ok(seq![v] + rest),
            },
        }
    }
}

/// What a `multiple` checker yields on the full list submitted under its
/// field name.  An absent key and an empty list are both treated as
/// absence.
pub open spec fn check_multiple_spec<P: FieldPredicate>(
    c: Checker<P>,
    raw: Option<Seq<Seq<char>>>,
) -> Result<Option<Seq<FieldValueView>>, Seq<char>> {
    match raw {
        Option::None => check_multiple_empty_spec(c),
        Option::Some(vals) => if vals.len() == 0 {
            check_multiple_empty_spec(c)
        } else {
            match check_elems(c, vals) {
                Result::Ok(vs) => Result::Ok(Some(vs)),
                Result::Err(m) => Result::Err(m),
            }
        },
    }
}

/// What a `multiple` checker yields on absent input.
pub open spec fn check_multiple_empty_spec<P>(c: Checker<P>) -> Result<
    Option<Seq<FieldValueView>>,
    Seq<char>,
> {
    if c.optional {
        Result::Ok(None)
    } else {
        Result::Err(c.field_title@ + empty_msg())
    }
}

/// The view of a rule-matching result.
pub open spec fn value_res_view(r: Result<FieldValue, String>) -> Result<
    FieldValueView,
    Seq<char>,
> {
    match r {
        Result::Ok(v) => Result::Ok(v@),
        Result::Err(m) => Result::Err(m@),
    }
}

/// The view of a single-value check result.
pub open spec fn opt_res_view(r: Result<Option<FieldValue>, String>) -> Result<
    Option<FieldValueView>,
    Seq<char>,
> {
    match r {
        Result::Ok(Option::None) => Result::Ok(None),
        Result::Ok(Option::Some(v)) => Result::Ok(Some(v@)),
        Result::Err(m) => Result::Err(m@),
    }
}

/// The view of a multi-value check result.
pub open spec fn multi_res_view(r: Result<Option<Vec<FieldValue>>, String>) -> Result<
    Option<Seq<FieldValueView>>,
    Seq<char>,
> {
    match r {
        Result::Ok(Option::None) => Result::Ok(None),
        Result::Ok(Option::Some(vs)) => Result::Ok(Some(vs.deep_view())),
        Result::Err(m) => Result::Err(m@),
    }
}

impl<P: FieldPredicate> Checker<P> {
    /// A checker for the field stored under `field_name`, using
    /// `field_title` in messages, with no rules and both flags off.
    pub fn new(field_name: &str, field_type: FieldType, field_title: &str) -> (c: Checker<P>)
        ensures
            c.field_name@ == field_name@,
            c.field_title@ == field_title@,
            c.field_type == field_type,
            c.rules@ == Seq::<Rule<P>>::empty(),
            !c.optional,
            !c.multiple,
    {
        Checker {
            field_name: field_name.to_owned(),
            field_type,
            field_title: field_title.to_owned(),
            rules: Vec::new(),
            optional: false,
            multiple: false,
        }
    }

    /// Attach one rule, returning the extended checker.  `Optional` and
    /// `Multiple` set the corresponding flag; every other rule is appended
    /// to the ordered rule list.
    pub fn add_rule(self, rule: Rule<P>) -> (c: Checker<P>)
        ensures
            c.field_name == self.field_name,
            c.field_title == self.field_title,
            c.field_type == self.field_type,
            rule is Optional ==> c.rules@ == self.rules@ && c.optional && c.multiple
                == self.multiple,
            rule is Multiple ==> c.rules@ == self.rules@ && c.multiple && c.optional
                == self.optional,
            !(rule is Optional) && !(rule is Multiple) ==> c.rules@ == self.rules@.push(rule)
                && c.optional == self.optional && c.multiple == self.multiple,
    {
        let mut c = self;
        match rule {
            Rule::Optional => {
                c.optional = true;
            },
            Rule::Multiple => {
                c.multiple = true;
            },
            other => {
                c.rules.push(other);
            },
        }
        c
    }

    /// Match a parsed value against the rules, in attachment order.
    pub fn check_value(&self, value: FieldValue) -> (r: Result<FieldValue, String>)
        ensures
            value_res_view(r) == check_value_spec(*self, value@),
    {
        let ghost rules = self.rules@;
        proof {
            assert(rules.skip(0) =~= rules);
            assert(rules.take(0) =~= Seq::<Rule<P>>::empty());
        }
        let mut lam: Option<&P> = None;
        let mut j: usize = 0;
        while j < self.rules.len()
            invariant
                0 <= j <= rules.len(),
                self.rules@ == rules,
                first_fail(value@, rules) == first_fail(value@, rules.skip(j as int)),
                match lam {
                    Some(p) => last_lambda(rules.take(j as int)) == Some(*p),
                    None => last_lambda(rules.take(j as int)) is None,
                },
            decreases rules.len() - j,
        {
            let r = &self.rules[j];
            proof {
                assert(rules.skip(j as int)[0] == rules[j as int]);
                assert(rules.skip(j as int).drop_first() =~= rules.skip(j + 1));
                assert(rules.take(j + 1).drop_last() =~= rules.take(j as int));
                assert(rules.take(j + 1).last() == rules[j as int]);
            }
            match r {
                Rule::Lambda(p) => {
                    lam = Some(p);
                },
                _ => {
                    match value.match_rule(r) {
                        Ok(_) => {},
                        Err(m) => {
                            return Err(self.field_title.clone().concat(m.as_str()));
                        },
                    }
                },
            }
            j += 1;
        }
        proof {
            assert(rules.skip(j as int) =~= Seq::<Rule<P>>::empty());
            assert(rules.take(j as int) =~= rules);
        }
        match lam {
            Some(p) => {
                if p.eval(&value) {
                    Ok(value)
                } else {
                    Err(self.field_title.clone().concat(" is invalid"))
                }
            },
            None => Ok(value),
        }
    }

    fn empty_case(&self) -> (r: Result<Option<FieldValue>, String>)
        ensures
            opt_res_view(r) == check_empty_spec(*self),
    {
        if self.optional {
            Ok(None)
        } else {
            Err(self.field_title.clone().concat(" must not be empty"))
        }
    }

    /// Parse one present raw value and match it against the rules.
    fn check_present(&self, raw: &str) -> (r: Result<FieldValue, String>)
        ensures
            value_res_view(r) == check_present_spec(*self, raw@),
    {
        match self.field_type.parse(raw) {
            None => Err(self.field_title.clone().concat(" has an invalid format")),
            Some(v) => self.check_value(v),
        }
    }

    /// Evaluate this checker on one raw value (`None` for an absent key).
    pub fn check(&self, raw: Option<String>) -> (r: Result<Option<FieldValue>, String>)
        ensures
            opt_res_view(r) == check_spec(*self, raw.deep_view()),
    {
        match raw {
            None => self.empty_case(),
            Some(s) => {
                if is_blank_str(s.as_str()) {
                    self.empty_case()
                } else {
                    match self.check_present(s.as_str()) {
                        Ok(w) => Ok(Some(w)),
                        Err(m) => Err(m),
                    }
                }
            },
        }
    }

    fn multiple_empty_case(&self) -> (r: Result<Option<Vec<FieldValue>>, String>)
        ensures
            multi_res_view(r) == check_multiple_empty_spec(*self),
    {
        if self.optional {
            Ok(None)
        } else {
            Err(self.field_title.clone().concat(" must not be empty"))
        }
    }

    /// Evaluate this checker on the full list of values submitted under
    /// its field name (`None` for an absent key).
    pub fn check_multiple(&self, raw: Option<&Vec<String>>) -> (r: Result<
        Option<Vec<FieldValue>>,
        String,
    >)
        ensures
            multi_res_view(r) == check_multiple_spec(*self, raw.deep_view()),
    {
        match raw {
            None => self.multiple_empty_case(),
            Some(values) => {
                if values.len() == 0 {
                    self.multiple_empty_case()
                } else {
                    let ghost elems = values.deep_view();
                    let mut out: Vec<FieldValue> = Vec::new();
                    proof {
                        assert(elems.skip(0) =~= elems);
                        assert(out.deep_view() =~= Seq::<FieldValueView>::empty());
                        match check_elems(*self, elems) {
                            Result::Ok(rest) => {
                                assert(out.deep_view() + rest =~= rest);
                            },
                            Result::Err(_) => {},
                        }
                    }
                    let mut i: usize = 0;
                    while i < values.len()
                        invariant
                            0 <= i <= values.len(),
                            raw == Some(values),
                            values@.len() > 0,
                            elems == values.deep_view(),
                            elems.len() == values@.len(),
                            check_elems(*self, elems) == (match check_elems(
                                *self,
                                elems.skip(i as int),
                            ) {
                                Result::Ok(rest) => Result::<
                                    Seq<FieldValueView>,
                                    Seq<char>,
                                >::Ok(out.deep_view() + rest),
                                Result::Err(m) => Result::Err(m),
                            }),
                        decreases values.len() - i,
                    {
                        proof {
                            assert(elems.skip(i as int)[0] == elems[i as int]);
                            assert(elems.skip(i as int).drop_first() =~= elems.skip(i + 1));
                        }
                        let ghost out_before = out.deep_view();
                        match self.check_present(values[i].as_str()) {
                            Ok(fv) => {
                                out.push(fv);
                                proof {
                                    assert(out.deep_view() =~= out_before.push(fv@));
                                    match check_elems(*self, elems.skip(i as int + 1)) {
                                        Result::Ok(rest) => {
                                            assert(out_before + (seq![fv@] + rest)
                                                =~= out.deep_view() + rest);
                                        },
                                        Result::Err(_) => {},
                                    }
                                }
                            },
                            Err(m) => {
                                proof {
                                    assert(check_elems(*self, elems) == Result::<
                                        Seq<FieldValueView>,
                                        Seq<char>,
                                    >::Err(m@));
                                }
                                return Err(m);
                            },
                        }
                        i += 1;
                    }
                    proof {
                        assert(elems.skip(i as int) =~= Seq::<Seq<char>>::empty());
                        assert(check_elems(*self, elems.skip(i as int)) == Result::<
                            Seq<FieldValueView>,
                            Seq<char>,
                        >::Ok(Seq::empty()));
                        assert(out.deep_view() + Seq::<FieldValueView>::empty() =~= out.deep_view());
                    }
                    Ok(Some(out))
                }
            },
        }
    }
}

} // verus!
