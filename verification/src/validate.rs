//! Validation of inbound events: an inbound record is accepted exactly when
//! it carries an `event` field, a numeric `value` field, and a `source_ip`
//! field; the three values are extracted untouched.

use vstd::prelude::*;
use crate::json::{JsonValue, Jv, model_members, lemma_model_members_index, lemma_model_members_len};

verus! {

/// A validated event: read-only references to the three required fields of
/// the inbound record, exactly as they stand there.
pub struct EventData<'a> {
    /// The `event` field, forwarded without interpretation.
    pub event: &'a JsonValue,
    /// The textual form of the numeric `value` field.
    pub value: &'a Vec<char>,
    /// The `source_ip` field, forwarded without interpretation.
    pub source_ip: &'a JsonValue,
}

/// The value under key `k` among an object's members: the first member
/// whose key is `k`, if any.
pub open spec fn lookup(m: Seq<(Seq<char>, Jv)>, k: Seq<char>) -> Option<Jv>
    decreases m.len(),
{
    if m.len() == 0 {
        None
    } else if m[0].0 == k {
        Some(m[0].1)
    } else {
        lookup(m.drop_first(), k)
    }
}

/// The field of `v` under key `k`: a member lookup when `v` is an object,
/// nothing otherwise.
pub open spec fn field_of(v: Jv, k: Seq<char>) -> Option<Jv> {
    match v {
        Jv::Object(m) => lookup(m, k),
        _ => None,
    }
}

/// What validation extracts from an inbound record, if anything: the
/// `event` field, the text of the numeric `value` field, and the
/// `source_ip` field. The record is rejected exactly when one of the three
/// keys is missing or `value` is not a number.
pub open spec fn validate_spec(v: Jv) -> Option<(Jv, Seq<char>, Jv)> {
    match (field_of(v, "event"@), field_of(v, "value"@), field_of(v, "source_ip"@)) {
        (Some(ev), Some(Jv::Number(num)), Some(src)) => Some((ev, num, src)),
        _ => None,
    }
}

/// Whether the characters of `s` are exactly those of `t`.
pub fn chars_eq_str(s: &Vec<char>, t: &str) -> (r: bool)
    ensures
        r == (s@ == t@),
{
    let n = t.unicode_len();
    if s.len() != n {
        return false;
    }
    for i in 0..n
        invariant
            n == t@.len(),
            n == s.len(),
            forall|j: int| 0 <= j < i ==> s@[j] == t@[j],
    {
        if s[i] != t.get_char(i) {
            return false;
        }
    }
    proof {
        assert(s@ =~= t@);
    }
    true
}

/// A lookup that skips a prefix of members whose keys all differ from `k`
/// finds the same member as the full lookup.
proof fn lemma_lookup_skip(m: Seq<(Seq<char>, Jv)>, k: Seq<char>, i: int)
    requires
        0 <= i <= m.len(),
        forall|j: int| 0 <= j < i ==> m[j].0 != k,
    ensures
        lookup(m, k) == lookup(m.skip(i), k),
    decreases i,
{
    if i > 0 {
        lemma_lookup_skip(m.drop_first(), k, i - 1);
        assert(m.drop_first().skip(i - 1) =~= m.skip(i));
    } else {
        assert(m.skip(0) =~= m);
    }
}

/// The first member of `members` whose key is `key`, if any.
fn find_field<'a>(members: &'a Vec<(Vec<char>, JsonValue)>, key: &str) -> (r: Option<&'a JsonValue>)
    ensures
        match r {
            Some(f) => lookup(model_members(members@), key@) == Some(f@),
            None => lookup(model_members(members@), key@) is None,
        },
{
    let ghost m = model_members(members@);
    proof {
        lemma_model_members_len(members@);
    }
    let n = members.len();
    for i in 0..n
        invariant
            n == members.len(),
            m == model_members(members@),
            m.len() == n,
            forall|j: int| 0 <= j < i ==> #[trigger] m[j].0 != key@,
    {
        let entry = &members[i];
        proof {
            lemma_model_members_index(members@, i as int);
        }
        if chars_eq_str(&entry.0, key) {
            proof {
                lemma_lookup_skip(m, key@, i as int);
                assert(m.skip(i as int)[0] == m[i as int]);
            }
            return Some(&entry.1);
        }
    }
    proof {
        lemma_lookup_skip(m, key@, n as int);
        assert(m.skip(n as int) =~= Seq::empty());
    }
    None
}

/// Validates an inbound record.
///
/// Succeeds exactly when the record is an object holding the three required
/// fields with `value` numeric; the returned views reference those fields
/// unchanged. Fails on every other record with no other effect.
pub fn get_event<'a>(data: &'a JsonValue) -> (r: Option<EventData<'a>>)
    ensures
        match r {
            Some(ed) => validate_spec(data@) == Some((ed.event@, ed.value@, ed.source_ip@)),
            None => validate_spec(data@) is None,
        },
{
    match data {
        JsonValue::Object(members) => {
            let ev = find_field(members, "event");
            let val = find_field(members, "value");
            let src = find_field(members, "source_ip");
            match (ev, val, src) {
                (Some(e), Some(v), Some(s)) => {
                    match v {
                        JsonValue::Number(num) => Some(EventData { event: e, value: num, source_ip: s }),
                        _ => None,
                    }
                }
                _ => None,
            }
        }
        _ => None,
    }
}

/// Validation is a pure function of the inbound record: any two results
/// that validation can return for the same record are the same, verdict and
/// extracted values alike.
pub proof fn lemma_validation_idempotent(v: Jv, r1: Option<(Jv, Seq<char>, Jv)>, r2: Option<(Jv, Seq<char>, Jv)>)
    requires
        r1 == validate_spec(v),
        r2 == validate_spec(v),
    ensures
        r1 == r2,
        r1 is Some <==> r2 is Some,
{
}

} // verus!
