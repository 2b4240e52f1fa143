//! Typed field values, the field types that parse them, and the rules a
//! parsed value is matched against.
//!
//! A [`FieldValue`] is the typed result of parsing one raw string; its view
//! is a [`FieldValueView`], the mathematical content of the value.  A
//! [`FieldType`] names one concrete value shape and owns its parse step.
//! A [`Rule`] is one constraint attached to a checker; `Max`/`Min` bound
//! the character length of a text value and the numeric value of an
//! integer, `Format` matches a text value against a pattern, and `Lambda`
//! carries an arbitrary predicate evaluated after all other rules.

use vstd::prelude::*;
use vstd::string::StrSliceExecFns;
use vstd::string::StringExecFns;

use crate::decimal::dec_str;
use crate::decimal::int_literal_val;
use crate::decimal::is_i64_literal;
use crate::decimal::parse_i64;
use crate::pattern::full_match;
use crate::pattern::pattern_ok;

verus! {

/// The mathematical content of a parsed field value.
pub enum FieldValueView {
    Text(Seq<char>),
    Integer(i64),
}

/// A parsed text value.
#[derive(Clone)]
pub struct StrValue(pub String);

/// A parsed 64-bit signed integer value.
#[derive(Clone)]
pub struct IntValue(pub i64);

/// A typed field value: one of the concrete value shapes, chosen by the
/// field's [`FieldType`] when the schema was declared.
#[derive(Clone)]
pub enum FieldValue {
    Str(StrValue),
    Int(IntValue),
}

impl View for StrValue {
    type V = Seq<char>;

    open spec fn view(&self) -> Seq<char> {
        self.0@
    }
}

impl View for IntValue {
    type V = i64;

    open spec fn view(&self) -> i64 {
        self.0
    }
}

impl View for FieldValue {
    type V = FieldValueView;

    open spec fn view(&self) -> FieldValueView {
        match self {
            FieldValue::Str(s) => FieldValueView::Text(s.0@),
            FieldValue::Int(i) => FieldValueView::Integer(i.0),
        }
    }
}

impl DeepView for FieldValue {
    type V = FieldValueView;

    open spec fn deep_view(&self) -> FieldValueView {
        self.view()
    }
}

impl StrValue {
    /// The text held by this value.
    pub fn value(&self) -> (r: String)
        ensures
            r@ == self@,
    {
        self.0.clone()
    }

    /// Parsing a text value never fails and keeps the string unchanged.
    pub fn parse(s: &str) -> (r: Option<StrValue>)
        ensures
            r matches Some(v) && v@ == s@,
    {
        Some(StrValue(s.to_owned()))
    }
}

impl IntValue {
    /// The integer held by this value.
    pub fn value(&self) -> (r: i64)
        ensures
            r == self@,
    {
        self.0
    }

    /// Parse a decimal literal; fails exactly on strings that are not
    /// well-formed signed decimal literals fitting in an `i64`.
    pub fn parse(s: &str) -> (r: Option<IntValue>)
        ensures
            r is Some <==> is_i64_literal(s@),
            r matches Some(v) ==> v@ == int_literal_val(s@),
    {
        match parse_i64(s) {
            Some(v) => Some(IntValue(v)),
            None => None,
        }
    }
}

impl FieldValue {
    /// Checked downcast to a text value.
    pub fn as_str(&self) -> (r: Option<&StrValue>)
        ensures
            self@ matches FieldValueView::Text(t) ==> r matches Some(sv) && sv@ == t,
            self@ matches FieldValueView::Integer(_) ==> r is None,
    {
        match self {
            FieldValue::Str(s) => Some(s),
            FieldValue::Int(_) => None,
        }
    }

    /// Checked downcast to an integer value.
    pub fn as_int(&self) -> (r: Option<&IntValue>)
        ensures
            self@ matches FieldValueView::Integer(i) ==> r matches Some(iv) && iv@ == i,
            self@ matches FieldValueView::Text(_) ==> r is None,
    {
        match self {
            FieldValue::Int(i) => Some(i),
            FieldValue::Str(_) => None,
        }
    }
}

/// A reusable, stateless field type: the parsing capability bound to one
/// concrete [`FieldValue`] shape.  One `FieldType` value may be shared by
/// any number of checkers.
#[derive(Clone, Copy)]
pub enum FieldType {
    /// Text: any string parses, unchanged.
    Str,
    /// 64-bit signed integer: base-10 literals only.
    Int,
}

/// What parsing a raw string under a field type yields.
pub open spec fn parse_spec(t: FieldType, s: Seq<char>) -> Option<FieldValueView> {
    match t {
        FieldType::Str => Some(FieldValueView::Text(s)),
        FieldType::Int => if is_i64_literal(s) {
            Some(FieldValueView::Integer(int_literal_val(s) as i64))
        } else {
            None
        },
    }
}

impl FieldType {
    /// Parse one raw string into a typed value.
    pub fn parse(&self, raw: &str) -> (r: Option<FieldValue>)
        ensures
            r is Some <==> parse_spec(*self, raw@) is Some,
            r matches Some(v) ==> parse_spec(*self, raw@) matches Some(w) && v@ == w,
    {
        match self {
            FieldType::Str => match StrValue::parse(raw) {
                Some(v) => Some(FieldValue::Str(v)),
                None => None,
            },
            FieldType::Int => match IntValue::parse(raw) {
                Some(v) => Some(FieldValue::Int(v)),
                None => None,
            },
        }
    }
}

/// A predicate over a parsed value, carried by [`Rule::Lambda`].  The
/// predicate decides on the value's view, so its verdict is a function of
/// the value's content alone.
pub trait FieldPredicate: Sized {
    /// What the predicate accepts.
    spec fn spec_eval(&self, v: FieldValueView) -> bool;

    /// Decide the predicate on a parsed value.
    fn eval(&self, v: &FieldValue) -> (r: bool)
        ensures
            r == self.spec_eval(v@),
    ;
}

/// The predicate that accepts every value; the lambda slot for schemas
/// that need none.
#[derive(Clone, Copy)]
pub struct TruePredicate;

impl FieldPredicate for TruePredicate {
    open spec fn spec_eval(&self, v: FieldValueView) -> bool {
        true
    }

    fn eval(&self, v: &FieldValue) -> (r: bool) {
        true
    }
}

/// The predicate that accepts exactly the integer values listed in
/// `allowed`.
#[derive(Clone)]
pub struct AllowedInts {
    pub allowed: Vec<i64>,
}

impl FieldPredicate for AllowedInts {
    open spec fn spec_eval(&self, v: FieldValueView) -> bool {
        v matches FieldValueView::Integer(i) && self.allowed@.contains(i)
    }

    fn eval(&self, v: &FieldValue) -> (r: bool) {
        match v {
            FieldValue::Int(iv) => {
                let x = iv.0;
                let mut k: usize = 0;
                let mut found = false;
                while k < self.allowed.len()
                    invariant
                        0 <= k <= self.allowed.len(),
                        found == exists|j: int| 0 <= j < k && self.allowed@[j] == x,
                    decreases self.allowed.len() - k,
                {
                    if self.allowed[k] == x {
                        found = true;
                    }
                    k += 1;
                }
                found
            },
            FieldValue::Str(_) => false,
        }
    }
}

/// One constraint, or structural flag, attached to a checker.
#[derive(Clone)]
pub enum Rule<P> {
    /// Upper bound: character length for text, numeric value for integers.
    Max(i64),
    /// Lower bound: character length for text, numeric value for integers.
    Min(i64),
    /// The whole text value must match this pattern; a pattern that does
    /// not compile matches no value.  Ignored by integer values.
    Format(String),
    /// An arbitrary predicate, evaluated after every other rule.
    Lambda(P),
    /// Structural flag: the field may be absent or blank.
    Optional,
    /// Structural flag: every submitted value is validated, not just the
    /// first.
    Multiple,
}

/// Message for a text value longer than `n` characters.
pub open spec fn text_max_msg(n: i64) -> Seq<char> {
    " must be at most "@ + dec_str(n as int) + " characters"@
}

/// Message for a text value shorter than `n` characters.
pub open spec fn text_min_msg(n: i64) -> Seq<char> {
    " must be at least "@ + dec_str(n as int) + " characters"@
}

/// Message for an integer value above `n`.
pub open spec fn int_max_msg(n: i64) -> Seq<char> {
    " must be at most "@ + dec_str(n as int)
}

/// Message for an integer value below `n`.
pub open spec fn int_min_msg(n: i64) -> Seq<char> {
    " must be at least "@ + dec_str(n as int)
}

/// Message for a text value that does not match a `Format` pattern.
pub open spec fn format_msg() -> Seq<char> {
    " has an incorrect format"@
}

/// What matching one value against one rule yields: `Ok` to pass, or the
/// rule-specific message suffix.  `Lambda` and the structural flags always
/// pass here; the lambda is evaluated separately, after all other rules.
pub open spec fn match_rule_spec<P>(v: FieldValueView, r: Rule<P>) -> Result<(), Seq<char>> {
    match v {
        FieldValueView::Text(s) => match r {
            Rule::Max(n) => if s.len() > n {
                Result::Err(text_max_msg(n))
            } else {
                Result::Ok(())
            },
            Rule::Min(n) => if s.len() < n {
                Result::Err(text_min_msg(n))
            } else {
                Result::Ok(())
            },
            Rule::Format(p) => if pattern_ok(p@) && full_match(p@, s) {
                Result::Ok(())
            } else {
                Result::Err(format_msg())
            },
            _ => Result::Ok(()),
        },
        FieldValueView::Integer(i) => match r {
            Rule::Max(n) => if i > n {
                Result::Err(int_max_msg(n))
            } else {
                Result::Ok(())
            },
            Rule::Min(n) => if i < n {
                Result::Err(int_min_msg(n))
            } else {
                Result::Ok(())
            },
            _ => Result::Ok(()),
        },
    }
}

/// The view of a rule-match result.
pub open spec fn unit_res_view(r: Result<(), String>) -> Result<(), Seq<char>> {
    match r {
        Result::Ok(u) => Result::Ok(u),
        Result::Err(m) => Result::Err(m@),
    }
}

fn text_max_message(n: i64) -> (r: String)
    ensures
        r@ == text_max_msg(n),
{
    String::from_str(" must be at most ").concat(crate::decimal::i64_to_string(n).as_str()).concat(
        " characters",
    )
}

fn text_min_message(n: i64) -> (r: String)
    ensures
        r@ == text_min_msg(n),
{
    String::from_str(" must be at least ").concat(crate::decimal::i64_to_string(n).as_str()).concat(
        " characters",
    )
}

fn int_max_message(n: i64) -> (r: String)
    ensures
        r@ == int_max_msg(n),
{
    String::from_str(" must be at most ").concat(crate::decimal::i64_to_string(n).as_str())
}

fn int_min_message(n: i64) -> (r: String)
    ensures
        r@ == int_min_msg(n),
{
    String::from_str(" must be at least ").concat(crate::decimal::i64_to_string(n).as_str())
}

impl FieldValue {
    /// Match this value against one rule, yielding the rule-specific
    /// message suffix on failure.
    pub fn match_rule<P>(&self, rule: &Rule<P>) -> (r: Result<(), String>)
        ensures
            unit_res_view(r) == match_rule_spec(self@, *rule),
    {
        match self {
            FieldValue::Str(sv) => match rule {
                Rule::Max(n) => {
                    let len = sv.0.as_str().unicode_len();
                    if *n < 0 || (len as u128) > (*n as u128) {
                        Err(text_max_message(*n))
                    } else {
                        Ok(())
                    }
                },
                Rule::Min(n) => {
                    let len = sv.0.as_str().unicode_len();
                    if *n >= 0 && (len as u128) < (*n as u128) {
                        Err(text_min_message(*n))
                    } else {
                        Ok(())
                    }
                },
                Rule::Format(p) => {
                    match crate::pattern::regex_full_match(p.as_str(), sv.0.as_str()) {
                        Some(true) => Ok(()),
                        _ => Err(String::from_str(" has an incorrect format")),
                    }
                },
                _ => Ok(()),
            },
            FieldValue::Int(iv) => match rule {
                Rule::Max(n) => {
                    if iv.0 > *n {
                        Err(int_max_message(*n))
                    } else {
                        Ok(())
                    }
                },
                Rule::Min(n) => {
                    if iv.0 < *n {
                        Err(int_min_message(*n))
                    } else {
                        Ok(())
                    }
                },
                _ => Ok(()),
            },
        }
    }
}

} // verus!
