//! The engine's guarantees that span several functions, stated once and
//! proved from the specifications the functions themselves carry.

use vstd::prelude::*;

use crate::checker::check_elems;
use crate::checker::check_present_spec;
use crate::checker::is_blank;
use crate::checker::check_value_spec;
use crate::checker::Checker;
use crate::checker::empty_msg;
use crate::checker::first_fail;
use crate::value::FieldPredicate;
use crate::value::FieldType;
use crate::value::FieldValueView;
use crate::value::match_rule_spec;
use crate::value::Rule;
use crate::validator::assoc_get;
use crate::validator::first_raw;
use crate::validator::outcome;
use crate::validator::run;
use crate::validator::step;

verus! {

/// The field arrives empty: for a `multiple` checker the key is absent or
/// its list is empty; for a single-valued checker the first value is
/// absent or blank (all whitespace, the empty string included).
pub open spec fn arrives_empty<P>(c: Checker<P>, q: Seq<(Seq<char>, Seq<Seq<char>>)>) -> bool {
    if c.multiple {
        match assoc_get(q, c.field_name@) {
            Option::None => true,
            Option::Some(l) => l.len() == 0,
        }
    } else {
        match first_raw(assoc_get(q, c.field_name@)) {
            Option::None => true,
            Option::Some(s) => is_blank(s),
        }
    }
}

/// A required field that arrives absent or empty fails with exactly one
/// message, the "must not be empty" one, and is never stored: the step
/// leaves the data untouched and appends that single message.
pub proof fn law_required_empty<P: FieldPredicate>(
    c: Checker<P>,
    q: Seq<(Seq<char>, Seq<Seq<char>>)>,
    data: Seq<(Seq<char>, Seq<FieldValueView>)>,
    msgs: Seq<Seq<char>>,
)
    requires
        !c.optional,
        arrives_empty(c, q),
    ensures
        outcome(c, q) == Result::<Option<Seq<FieldValueView>>, Seq<char>>::Err(
            c.field_title@ + empty_msg(),
        ),
        step(c, q, data, msgs) == (data, msgs.push(c.field_title@ + empty_msg())),
{
}

/// An optional field that arrives absent produces no message and no stored
/// entry: the step leaves both the data and the messages untouched, so
/// `is_valid` is unaffected by the field.
pub proof fn law_optional_absent<P: FieldPredicate>(
    c: Checker<P>,
    q: Seq<(Seq<char>, Seq<Seq<char>>)>,
    data: Seq<(Seq<char>, Seq<FieldValueView>)>,
    msgs: Seq<Seq<char>>,
)
    requires
        c.optional,
        match assoc_get(q, c.field_name@) {
            Option::None => true,
            Option::Some(l) => l.len() == 0,
        },
    ensures
        outcome(c, q) == Result::<Option<Seq<FieldValueView>>, Seq<char>>::Ok(None),
        step(c, q, data, msgs) == (data, msgs),
{
}

/// An optional field that arrives absent leaves a whole run exactly as if
/// its checker were not in the schema at all: the same stored data and the
/// same messages, whatever the other checkers do — so `is_valid` is
/// unaffected by the field.
pub proof fn law_optional_absent_in_schema<P: FieldPredicate>(
    cs: Seq<Checker<P>>,
    k: int,
    q: Seq<(Seq<char>, Seq<Seq<char>>)>,
    data: Seq<(Seq<char>, Seq<FieldValueView>)>,
    msgs: Seq<Seq<char>>,
)
    requires
        0 <= k < cs.len(),
        cs[k].optional,
        match assoc_get(q, cs[k].field_name@) {
            Option::None => true,
            Option::Some(l) => l.len() == 0,
        },
    ensures
        run(cs, q, data, msgs) == run(cs.remove(k), q, data, msgs),
    decreases cs.len(),
{
    if k == 0 {
        law_optional_absent(cs[0], q, data, msgs);
        assert(cs.remove(0) =~= cs.drop_first());
    } else {
        let s = step(cs[0], q, data, msgs);
        let rest = cs.drop_first();
        assert(rest[k - 1] == cs[k]);
        law_optional_absent_in_schema(rest, k - 1, q, s.0, s.1);
        assert(cs.remove(k).len() == cs.len() - 1);
        assert(cs.remove(k)[0] == cs[0]);
        assert(cs.remove(k).drop_first() =~= rest.remove(k - 1));
    }
}

/// The message of the first failing rule, in attachment order, is the one
/// reported; rules after it are never consulted.
proof fn lemma_first_fail_at<P>(v: FieldValueView, rules: Seq<Rule<P>>, i: int)
    requires
        0 <= i < rules.len(),
        match_rule_spec(v, rules[i]) is Err,
        forall|j: int| 0 <= j < i ==> match_rule_spec(v, #[trigger] rules[j]) is Ok,
    ensures
        first_fail(v, rules) == Some(match_rule_spec(v, rules[i])->Err_0),
    decreases i,
{
    if i == 0 {
    } else {
        let rest = rules.drop_first();
        assert(forall|j: int| 0 <= j < i - 1 ==> #[trigger] rest[j] == rules[j + 1]);
        lemma_first_fail_at(v, rest, i - 1);
    }
}

/// Rule short-circuit: when the value fails the rule at position `i` and
/// passes every rule before it, matching yields the title followed by that
/// rule's message, whatever the rules after position `i` would say.
pub proof fn law_rule_short_circuit<P: FieldPredicate>(c: Checker<P>, v: FieldValueView, i: int)
    requires
        0 <= i < c.rules@.len(),
        match_rule_spec(v, c.rules@[i]) is Err,
        forall|j: int| 0 <= j < i ==> match_rule_spec(v, #[trigger] c.rules@[j]) is Ok,
    ensures
        check_value_spec(c, v) == Result::<FieldValueView, Seq<char>>::Err(
            c.field_title@ + match_rule_spec(v, c.rules@[i])->Err_0,
        ),
{
    lemma_first_fail_at(v, c.rules@, i);
}

/// Round trip: under a text checker with no rules, any string that is not
/// blank validates, is stored unchanged, and the step reports nothing.
pub proof fn law_text_round_trip<P: FieldPredicate>(
    c: Checker<P>,
    q: Seq<(Seq<char>, Seq<Seq<char>>)>,
    s: Seq<char>,
    data: Seq<(Seq<char>, Seq<FieldValueView>)>,
    msgs: Seq<Seq<char>>,
)
    requires
        c.field_type is Str,
        c.rules@.len() == 0,
        !c.multiple,
        !is_blank(s),
        first_raw(assoc_get(q, c.field_name@)) == Some(s),
    ensures
        outcome(c, q) == Result::<Option<Seq<FieldValueView>>, Seq<char>>::Ok(
            Some(seq![FieldValueView::Text(s)]),
        ),
        assoc_get(step(c, q, data, msgs).0, c.field_name@) == Some(
            seq![FieldValueView::Text(s)],
        ),
        step(c, q, data, msgs).1 == msgs,
{
    let v = FieldValueView::Text(s);
    assert(first_fail(v, c.rules@) is None);
    assert(crate::checker::last_lambda(c.rules@) is None);
    let d = step(c, q, data, msgs).0;
    assert(d[0] == (c.field_name@, seq![v]));
}

/// The first failing element of a multi-valued field aborts the whole
/// field with that element's message.
proof fn lemma_check_elems_first_failure<P: FieldPredicate>(
    c: Checker<P>,
    elems: Seq<Seq<char>>,
    k: int,
)
    requires
        0 <= k < elems.len(),
        check_present_spec(c, elems[k]) is Err,
        forall|j: int| 0 <= j < k ==> check_present_spec(c, #[trigger] elems[j]) is Ok,
    ensures
        check_elems(c, elems) == Result::<Seq<FieldValueView>, Seq<char>>::Err(
            check_present_spec(c, elems[k])->Err_0,
        ),
    decreases k,
{
    if k == 0 {
    } else {
        let rest = elems.drop_first();
        assert(forall|j: int| 0 <= j < k - 1 ==> #[trigger] rest[j] == elems[j + 1]);
        lemma_check_elems_first_failure(c, rest, k - 1);
    }
}

/// Multiplicity: a `multiple` field whose `k`-th submitted value is the
/// first to fail its parse or rule steps yields exactly one message for
/// the whole field, that value's message, and no stored entry.
pub proof fn law_multiple_first_failure<P: FieldPredicate>(
    c: Checker<P>,
    q: Seq<(Seq<char>, Seq<Seq<char>>)>,
    elems: Seq<Seq<char>>,
    k: int,
    data: Seq<(Seq<char>, Seq<FieldValueView>)>,
    msgs: Seq<Seq<char>>,
)
    requires
        c.multiple,
        assoc_get(q, c.field_name@) == Some(elems),
        0 <= k < elems.len(),
        check_present_spec(c, elems[k]) is Err,
        forall|j: int| 0 <= j < k ==> check_present_spec(c, #[trigger] elems[j]) is Ok,
    ensures
        outcome(c, q) == Result::<Option<Seq<FieldValueView>>, Seq<char>>::Err(
            check_present_spec(c, elems[k])->Err_0,
        ),
        step(c, q, data, msgs) == (data, msgs.push(check_present_spec(c, elems[k])->Err_0)),
{
    lemma_check_elems_first_failure(c, elems, k);
}

/// The single message a checker contributes, if any.
pub open spec fn msgs_of<P: FieldPredicate>(
    c: Checker<P>,
    q: Seq<(Seq<char>, Seq<Seq<char>>)>,
) -> Seq<Seq<char>> {
    match outcome(c, q) {
        Result::Err(m) => seq![m],
        Result::Ok(_) => Seq::empty(),
    }
}

/// The messages a list of checkers contributes, in declaration order.
pub open spec fn all_msgs<P: FieldPredicate>(
    cs: Seq<Checker<P>>,
    q: Seq<(Seq<char>, Seq<Seq<char>>)>,
) -> Seq<Seq<char>>
    decreases cs.len(),
{
    if cs.len() == 0 {
        Seq::empty()
    } else {
        msgs_of(cs[0], q) + all_msgs(cs.drop_first(), q)
    }
}

/// Messages accumulate in declaration order, and each checker's
/// contribution is a function of that checker and the input alone: no
/// checker's failure or success changes what a sibling reports.
pub proof fn law_messages_in_order<P: FieldPredicate>(
    cs: Seq<Checker<P>>,
    q: Seq<(Seq<char>, Seq<Seq<char>>)>,
    data: Seq<(Seq<char>, Seq<FieldValueView>)>,
    msgs: Seq<Seq<char>>,
)
    ensures
        run(cs, q, data, msgs).1 == msgs + all_msgs(cs, q),
    decreases cs.len(),
{
    if cs.len() == 0 {
        assert(msgs + Seq::<Seq<char>>::empty() =~= msgs);
    } else {
        let s = step(cs[0], q, data, msgs);
        law_messages_in_order(cs.drop_first(), q, s.0, s.1);
        match outcome(cs[0], q) {
            Result::Err(m) => {
                assert(msgs.push(m) =~= msgs + seq![m]);
                assert((msgs + seq![m]) + all_msgs(cs.drop_first(), q) =~= msgs + (seq![m]
                    + all_msgs(cs.drop_first(), q)));
            },
            Result::Ok(_) => {
                assert(Seq::<Seq<char>>::empty() + all_msgs(cs.drop_first(), q) =~= all_msgs(
                    cs.drop_first(),
                    q,
                ));
            },
        }
    }
}

/// Schema reuse is interference-free: in a two-checker run (the checkers
/// may share a field type) each field's stored entry is exactly what its
/// own checker yields against the input, and the messages are the two
/// independent contributions in order.
pub proof fn law_checkers_independent<P: FieldPredicate>(
    c1: Checker<P>,
    c2: Checker<P>,
    q: Seq<(Seq<char>, Seq<Seq<char>>)>,
    data: Seq<(Seq<char>, Seq<FieldValueView>)>,
    msgs: Seq<Seq<char>>,
)
    requires
        c1.field_name@ != c2.field_name@,
    ensures
        outcome(c1, q) matches Result::Ok(Some(vs1)) ==> assoc_get(
            run(seq![c1, c2], q, data, msgs).0,
            c1.field_name@,
        ) == Some(vs1),
        outcome(c2, q) matches Result::Ok(Some(vs2)) ==> assoc_get(
            run(seq![c1, c2], q, data, msgs).0,
            c2.field_name@,
        ) == Some(vs2),
        run(seq![c1, c2], q, data, msgs).1 == msgs + msgs_of(c1, q) + msgs_of(c2, q),
{
    let cs = seq![c1, c2];
    assert(cs[0] == c1);
    let s1 = step(c1, q, data, msgs);
    assert(cs.drop_first() =~= seq![c2]);
    assert(seq![c2][0] == c2);
    let s2 = step(c2, q, s1.0, s1.1);
    assert(seq![c2].drop_first() =~= Seq::<Checker<P>>::empty());
    assert(run(cs, q, data, msgs) == run(seq![c2], q, s1.0, s1.1));
    assert(run(seq![c2], q, s1.0, s1.1) == run(Seq::<Checker<P>>::empty(), q, s2.0, s2.1));
    assert(run(Seq::<Checker<P>>::empty(), q, s2.0, s2.1) == s2);
    assert(run(cs, q, data, msgs) == s2);
    match outcome(c1, q) {
        Result::Ok(Option::Some(vs1)) => {
            assert(s1.0[0] == (c1.field_name@, vs1));
            assert(assoc_get(s1.0, c1.field_name@) == Some(vs1));
            match outcome(c2, q) {
                Result::Ok(Option::Some(vs2)) => {
                    assert(s2.0 == seq![(c2.field_name@, vs2)] + s1.0);
                    assert(s2.0[0].0 != c1.field_name@);
                    assert(s2.0.drop_first() =~= s1.0);
                },
                _ => {},
            }
        },
        _ => {},
    }
    match outcome(c2, q) {
        Result::Ok(Option::Some(vs2)) => {
            assert(s2.0[0] == (c2.field_name@, vs2));
        },
        _ => {},
    }
    law_messages_in_order(cs, q, data, msgs);
    assert(all_msgs(seq![c2], q) =~= msgs_of(c2, q) + all_msgs(Seq::<Checker<P>>::empty(), q));
    assert(msgs_of(c2, q) + Seq::<Seq<char>>::empty() =~= msgs_of(c2, q));
    assert(msgs + (msgs_of(c1, q) + msgs_of(c2, q)) =~= msgs + msgs_of(c1, q) + msgs_of(c2, q));
}

} // verus!
