//! The validator: runs a schema of checkers against a raw input map.
//!
//! The input is a multi-valued string map, the shape a form or query-string
//! decoder naturally produces.  Each checker is evaluated in declaration
//! order against the values stored under its field name; the typed values
//! of the fields that passed land in `valid_data`, and each failing field
//! contributes exactly one message, in declaration order.  Checkers never
//! interfere with one another: a failing field does not keep its siblings
//! from being validated and stored.

use vstd::pervasive::unreached;
use vstd::prelude::*;
use vstd::string::StrSliceExecFns;
use vstd::string::StringExecFns;

use crate::checker::check_multiple_spec;
use crate::checker::check_spec;
use crate::checker::Checker;
use crate::value::FieldPredicate;
use crate::value::FieldValue;
use crate::value::FieldValueView;

verus! {

/// The transport layer could not decode the request at all.
#[derive(Clone, Copy)]
pub struct QueryError;

/// What a form/query decoder hands the validator: the decoded map, or the
/// sign that decoding failed.
pub type QueryResult = Result<QueryMap, QueryError>;

/// A multi-valued string map: field name to the ordered list of raw values
/// submitted under that name.  Lookup takes the first entry with the given
/// name.
pub struct QueryMap {
    pub entries: Vec<(String, Vec<String>)>,
}

impl View for QueryMap {
    type V = Seq<(Seq<char>, Seq<Seq<char>>)>;

    open spec fn view(&self) -> Seq<(Seq<char>, Seq<Seq<char>>)> {
        self.entries.deep_view()
    }
}

/// First-match lookup in an association list keyed by strings.
pub open spec fn assoc_get<V>(entries: Seq<(Seq<char>, V)>, name: Seq<char>) -> Option<V>
    decreases entries.len(),
{
    if entries.len() == 0 {
        None
    } else if entries[0].0 == name {
        Some(entries[0].1)
    } else {
        assoc_get(entries.drop_first(), name)
    }
}

impl QueryMap {
    /// An empty input map.
    pub fn new() -> (q: QueryMap)
        ensures
            q@ == Seq::<(Seq<char>, Seq<Seq<char>>)>::empty(),
    {
        let q = QueryMap { entries: Vec::new() };
        proof {
            assert(q@ =~= Seq::<(Seq<char>, Seq<Seq<char>>)>::empty());
        }
        q
    }

    /// Append one field with its list of raw values.
    pub fn add(&mut self, name: String, values: Vec<String>)
        ensures
            final(self)@ == old(self)@.push((name@, values.deep_view())),
    {
        let ghost nv = name@;
        let ghost vv = values.deep_view();
        self.entries.push((name, values));
        proof {
            assert(self@ =~= old(self)@.push((nv, vv)));
        }
    }

    /// The list of raw values stored under `name`, if any.
    pub fn get<'a>(&'a self, name: &String) -> (r: Option<&'a Vec<String>>)
        ensures
            match assoc_get(self@, name@) {
                Option::Some(vs) => r matches Some(v) && v.deep_view() == vs,
                Option::None => r is None,
            },
    {
        let ghost q = self@;
        proof {
            assert(q.skip(0) =~= q);
        }
        let mut i: usize = 0;
        while i < self.entries.len()
            invariant
                0 <= i <= self.entries@.len(),
                q == self@,
                q.len() == self.entries@.len(),
                assoc_get(q, name@) == assoc_get(q.skip(i as int), name@),
            decreases self.entries@.len() - i,
        {
            proof {
                assert(q.skip(i as int)[0] == q[i as int]);
                assert(q.skip(i as int).drop_first() =~= q.skip(i as int + 1));
            }
            let e = &self.entries[i];
            if str_eq(e.0.as_str(), name.as_str()) {
                return Some(&e.1);
            }
            i += 1;
        }
        proof {
            assert(q.skip(i as int) =~= Seq::<(Seq<char>, Seq<Seq<char>>)>::empty());
        }
        None
    }
}

/// Character-by-character string equality.
fn str_eq(a: &str, b: &str) -> (r: bool)
    ensures
        r == (a@ == b@),
{
    let n = a.unicode_len();
    let m = b.unicode_len();
    if n != m {
        return false;
    }
    let mut i: usize = 0;
    while i < n
        invariant
            n == a@.len(),
            n == b@.len(),
            0 <= i <= n,
            forall|j: int| 0 <= j < i ==> a@[j] == b@[j],
        decreases n - i,
    {
        let ca = a.get_char(i);
        let cb = b.get_char(i);
        if ca != cb {
            return false;
        }
        i += 1;
    }
    proof {
        assert(a@ =~= b@);
    }
    true
}

/// Message pushed when the input source itself could not be decoded.
pub open spec fn invalid_request_msg() -> Seq<char> {
    "invalid request"@
}

/// The first raw value under a key, with an empty list treated as absence.
pub open spec fn first_raw(raw: Option<Seq<Seq<char>>>) -> Option<Seq<char>> {
    match raw {
        Option::None => None,
        Option::Some(l) => if l.len() == 0 {
            None
        } else {
            Some(l[0])
        },
    }
}

/// What one checker yields against the input map: the list of typed values
/// to store (`Ok(Some)`), an accepted absence (`Ok(None)`), or its message.
pub open spec fn outcome<P: FieldPredicate>(
    c: Checker<P>,
    q: Seq<(Seq<char>, Seq<Seq<char>>)>,
) -> Result<Option<Seq<FieldValueView>>, Seq<char>> {
    let raw = assoc_get(q, c.field_name@);
    if c.multiple {
        check_multiple_spec(c, raw)
    } else {
        match check_spec(c, first_raw(raw)) {
            Result::Ok(Option::Some(v)) => Result::Ok(Some(seq![v])),
            Result::Ok(Option::None) => Result::Ok(None),
            Result::Err(m) => Result::Err(m),
        }
    }
}

/// How one checker's outcome updates the validator state: a success is
/// stored under the field name (shadowing an older entry), an accepted
/// absence changes nothing, and a failure appends exactly one message.
pub open spec fn step<P: FieldPredicate>(
    c: Checker<P>,
    q: Seq<(Seq<char>, Seq<Seq<char>>)>,
    data: Seq<(Seq<char>, Seq<FieldValueView>)>,
    msgs: Seq<Seq<char>>,
) -> (Seq<(Seq<char>, Seq<FieldValueView>)>, Seq<Seq<char>>) {
    match outcome(c, q) {
        Result::Ok(Option::Some(vs)) => (seq![(c.field_name@, vs)] + data, msgs),
        Result::Ok(Option::None) => (data, msgs),
        Result::Err(m) => (data, msgs.push(m)),
    }
}

/// Run the checkers in declaration order, threading the state through.
pub open spec fn run<P: FieldPredicate>(
    cs: Seq<Checker<P>>,
    q: Seq<(Seq<char>, Seq<Seq<char>>)>,
    data: Seq<(Seq<char>, Seq<FieldValueView>)>,
    msgs: Seq<Seq<char>>,
) -> (Seq<(Seq<char>, Seq<FieldValueView>)>, Seq<Seq<char>>)
    decreases cs.len(),
{
    if cs.len() == 0 {
        (data, msgs)
    } else {
        let s = step(cs[0], q, data, msgs);
        run(cs.drop_first(), q, s.0, s.1)
    }
}

/// Runs a set of checkers against one raw input map and accumulates typed
/// results and error messages.  Meant to be built, used for exactly one
/// `validate` call, queried, and discarded.
pub struct Validator<P> {
    pub checkers: Vec<Checker<P>>,
    pub valid_data: Vec<(String, Vec<FieldValue>)>,
    pub messages: Vec<String>,
}

impl<P: FieldPredicate> Validator<P> {
    /// A validator with no checkers, no data and no messages.
    pub fn new() -> (v: Validator<P>)
        ensures
            v.checkers@ == Seq::<Checker<P>>::empty(),
            v.valid_data.deep_view() == Seq::<(Seq<char>, Seq<FieldValueView>)>::empty(),
            v.messages.deep_view() == Seq::<Seq<char>>::empty(),
    {
        let v = Validator { checkers: Vec::new(), valid_data: Vec::new(), messages: Vec::new() };
        proof {
            assert(v.valid_data.deep_view() =~= Seq::<(Seq<char>, Seq<FieldValueView>)>::empty());
            assert(v.messages.deep_view() =~= Seq::<Seq<char>>::empty());
        }
        v
    }

    /// Append one checker to the schema.
    pub fn add_checker(&mut self, checker: Checker<P>)
        ensures
            final(self).checkers@ == old(self).checkers@.push(checker),
            final(self).valid_data == old(self).valid_data,
            final(self).messages == old(self).messages,
    {
        self.checkers.push(checker);
    }

    /// There were no failures: no checker has reported a message.
    pub fn is_valid(&self) -> (r: bool)
        ensures
            r == (self.messages@.len() == 0),
    {
        self.messages.len() == 0
    }

    /// The stored values of a field that validated, if it was populated.
    pub fn get_optional<'a>(&'a self, name: &str) -> (r: Option<&'a FieldValue>)
        ensures
            match assoc_get(self.valid_data.deep_view(), name@) {
                Option::Some(vs) => if vs.len() > 0 {
                    r matches Some(v) && v@ == vs[0]
                } else {
                    r is None
                },
                Option::None => r is None,
            },
    {
        let ghost data = self.valid_data.deep_view();
        proof {
            assert(data.skip(0) =~= data);
        }
        let mut i: usize = 0;
        while i < self.valid_data.len()
            invariant
                0 <= i <= self.valid_data@.len(),
                data == self.valid_data.deep_view(),
                data.len() == self.valid_data@.len(),
                assoc_get(data, name@) == assoc_get(data.skip(i as int), name@),
            decreases self.valid_data@.len() - i,
        {
            proof {
                assert(data.skip(i as int)[0] == data[i as int]);
                assert(data.skip(i as int).drop_first() =~= data.skip(i as int + 1));
            }
            let e = &self.valid_data[i];
            if str_eq(e.0.as_str(), name) {
                if e.1.len() > 0 {
                    return Some(&e.1[0]);
                } else {
                    return None;
                }
            }
            i += 1;
        }
        proof {
            assert(data.skip(i as int) =~= Seq::<(Seq<char>, Seq<FieldValueView>)>::empty());
        }
        None
    }

    /// The first stored value of a field that validated.  The caller must
    /// know the field was populated (check `is_valid`, or the presence of
    /// an optional field, first).
    pub fn get_valid<'a>(&'a self, name: &str) -> (r: &'a FieldValue)
        requires
            assoc_get(self.valid_data.deep_view(), name@) matches Some(vs) && vs.len() > 0,
        ensures
            assoc_get(self.valid_data.deep_view(), name@) matches Some(vs) && r@ == vs[0],
    {
        match self.get_optional(name) {
            Some(v) => v,
            None => unreached(),
        }
    }

    /// Run every checker against the input.  With an empty schema the
    /// input is accepted unread; a decoding failure contributes the single
    /// generic message and no field is checked.
    pub fn validate(&mut self, query: QueryResult)
        ensures
            final(self).checkers@ == old(self).checkers@,
            old(self).checkers@.len() == 0 ==> final(self).valid_data == old(self).valid_data
                && final(self).messages == old(self).messages,
            old(self).checkers@.len() > 0 ==> match query {
                Result::Ok(qm) => {
                    final(self).valid_data.deep_view() == run(
                        old(self).checkers@,
                        qm@,
                        old(self).valid_data.deep_view(),
                        old(self).messages.deep_view(),
                    ).0 && final(self).messages.deep_view() == run(
                        old(self).checkers@,
                        qm@,
                        old(self).valid_data.deep_view(),
                        old(self).messages.deep_view(),
                    ).1
                },
                Result::Err(_) => {
                    &&& final(self).valid_data == old(self).valid_data
                    &&& final(self).messages.deep_view() == old(self).messages.deep_view().push(
                        invalid_request_msg(),
                    )
                },
            },
    {
        if self.checkers.len() == 0 {
            return ;
        }
        match query {
            Err(_) => {
                let ghost m0 = self.messages.deep_view();
                self.messages.push(String::from_str("invalid request"));
                proof {
                    assert(self.messages.deep_view() =~= m0.push(invalid_request_msg()));
                }
            },
            Ok(qm) => {
                let ghost cs = self.checkers@;
                let ghost q = qm@;
                let ghost d0 = self.valid_data.deep_view();
                let ghost m0 = self.messages.deep_view();
                proof {
                    assert(cs.skip(0) =~= cs);
                }
                let mut i: usize = 0;
                while i < self.checkers.len()
                    invariant
                        0 <= i <= cs.len(),
                        self.checkers@ == cs,
                        qm@ == q,
                        run(cs, q, d0, m0) == run(
                            cs.skip(i as int),
                            q,
                            self.valid_data.deep_view(),
                            self.messages.deep_view(),
                        ),
                    decreases cs.len() - i,
                {
                    let ghost d_cur = self.valid_data.deep_view();
                    let ghost m_cur = self.messages.deep_view();
                    proof {
                        assert(cs.skip(i as int)[0] == cs[i as int]);
                        assert(cs.skip(i as int).drop_first() =~= cs.skip(i as int + 1));
                    }
                    let c = &self.checkers[i];
                    let raw: Option<&Vec<String>> = qm.get(&c.field_name);
                    let res: Result<Option<Vec<FieldValue>>, String> = if c.multiple {
                        c.check_multiple(raw)
                    } else {
                        let single: Option<String> = match raw {
                            Some(vs) => if vs.len() > 0 {
                                Some(vs[0].clone())
                            } else {
                                None
                            },
                            None => None,
                        };
                        match c.check(single) {
                            Ok(Some(fv)) => {
                                let mut one: Vec<FieldValue> = Vec::new();
                                one.push(fv);
                                proof {
                                    assert(one.deep_view() =~= seq![one@[0]@]);
                                }
                                Ok(Some(one))
                            },
                            Ok(None) => Ok(None),
                            Err(m) => Err(m),
                        }
                    };
                    proof {
                        assert(crate::checker::multi_res_view(res) == outcome(cs[i as int], q));
                    }
                    let name = c.field_name.clone();
                    match res {
                        Ok(Some(vs)) => {
                            let ghost nv = name@;
                            let ghost vsv = vs.deep_view();
                            self.valid_data.insert(0, (name, vs));
                            proof {
                                assert(self.valid_data.deep_view() =~= seq![(nv, vsv)] + d_cur);
                            }
                        },
                        Ok(None) => {},
                        Err(m) => {
                            let ghost mv = m@;
                            self.messages.push(m);
                            proof {
                                assert(self.messages.deep_view() =~= m_cur.push(mv));
                            }
                        },
                    }
                    i += 1;
                }
                proof {
                    assert(cs.skip(cs.len() as int) =~= Seq::<Checker<P>>::empty());
                }
            },
        }
    }
}

} // verus!
