//! Persistence of accepted events: the stored record carries a server-side
//! timestamp and the three validated fields verbatim; it is serialized to
//! JSON text and addressed by a storage key built from a fresh random
//! identifier under a fixed prefix.

use vstd::prelude::*;
use crate::json::{
    JsonValue, Jv, model_seq, model_members, lemma_model_seq_index, lemma_model_seq_len,
    lemma_model_members_index, lemma_model_members_len, push_chars, push_str_chars,
    chars_to_string, json_text, to_json_string,
};
use crate::validate::{EventData, validate_spec, field_of};

verus! {

/// The decimal digit character for `n`.
pub open spec fn dec_digit(n: nat) -> char {
    if n == 0 { '0' } else if n == 1 { '1' } else if n == 2 { '2' }
    else if n == 3 { '3' } else if n == 4 { '4' } else if n == 5 { '5' }
    else if n == 6 { '6' } else if n == 7 { '7' } else if n == 8 { '8' }
    else { '9' }
}

/// The decimal rendering of `n`, most significant digit first, with no
/// leading zeros (a lone zero for zero).
pub open spec fn dec_text(n: nat) -> Seq<char>
    decreases n,
{
    if n < 10 {
        seq![dec_digit(n)]
    } else {
        dec_text(n / 10).push(dec_digit(n % 10))
    }
}

/// The decimal digit character for `n`.
fn dec_digit_char(n: u128) -> (c: char)
    requires
        n < 10,
    ensures
        c == dec_digit(n as nat),
{
    if n == 0 { '0' } else if n == 1 { '1' } else if n == 2 { '2' }
    else if n == 3 { '3' } else if n == 4 { '4' } else if n == 5 { '5' }
    else if n == 6 { '6' } else if n == 7 { '7' } else if n == 8 { '8' }
    else { '9' }
}

/// The decimal rendering of `n` as characters.
pub fn u128_to_dec(n: u128) -> (r: Vec<char>)
    ensures
        r@ == dec_text(n as nat),
    decreases n,
{
    if n < 10 {
        let mut r: Vec<char> = Vec::new();
        r.push(dec_digit_char(n));
        proof {
            assert(r@ =~= dec_text(n as nat));
        }
        r
    } else {
        let mut r = u128_to_dec(n / 10);
        r.push(dec_digit_char(n % 10));
        r
    }
}

/// A copy of the characters of `s`.
pub fn copy_chars(s: &Vec<char>) -> (r: Vec<char>)
    ensures
        r@ == s@,
{
    let mut r: Vec<char> = Vec::new();
    push_chars(&mut r, s);
    r
}

/// The characters of the string slice `s` as a vector.
pub fn str_to_chars(s: &str) -> (r: Vec<char>)
    ensures
        r@ == s@,
{
    let mut r: Vec<char> = Vec::new();
    push_str_chars(&mut r, s);
    r
}

/// Sequences of values whose elements agree model by model have the same
/// model.
proof fn lemma_model_seq_ext(a: Seq<JsonValue>, b: Seq<JsonValue>)
    requires
        a.len() == b.len(),
        forall|i: int| 0 <= i < a.len() ==> #[trigger] a[i]@ == b[i]@,
    ensures
        model_seq(a) == model_seq(b),
{
    lemma_model_seq_len(a);
    lemma_model_seq_len(b);
    assert forall|i: int| 0 <= i < a.len() implies model_seq(a)[i] == model_seq(b)[i] by {
        lemma_model_seq_index(a, i);
        lemma_model_seq_index(b, i);
        assert(a[i]@ == b[i]@);
    }
    assert(model_seq(a) =~= model_seq(b));
}

/// Member sequences whose keys agree view by view and whose values agree
/// model by model have the same model.
proof fn lemma_model_members_ext(a: Seq<(Vec<char>, JsonValue)>, b: Seq<(Vec<char>, JsonValue)>)
    requires
        a.len() == b.len(),
        forall|i: int| 0 <= i < a.len() ==> #[trigger] a[i].0@ == b[i].0@,
        forall|i: int| 0 <= i < a.len() ==> #[trigger] a[i].1@ == b[i].1@,
    ensures
        model_members(a) == model_members(b),
{
    lemma_model_members_len(a);
    lemma_model_members_len(b);
    assert forall|i: int| 0 <= i < a.len() implies model_members(a)[i] == model_members(b)[i] by {
        lemma_model_members_index(a, i);
        lemma_model_members_index(b, i);
        assert(a[i].0@ == b[i].0@ && a[i].1@ == b[i].1@);
    }
    assert(model_members(a) =~= model_members(b));
}

/// A deep copy of `v`: the copy has the same model, so it renders to the
/// same JSON text.
#[verifier::loop_isolation(false)]
#[verifier::rlimit(60)]
pub fn duplicate(v: &JsonValue) -> (r: JsonValue)
    ensures
        r@ == v@,
    decreases *v,
{
    match v {
        JsonValue::Null => JsonValue::Null,
        JsonValue::Bool(b) => JsonValue::Bool(*b),
        JsonValue::Number(s) => JsonValue::Number(copy_chars(s)),
        JsonValue::Text(s) => JsonValue::Text(copy_chars(s)),
        JsonValue::Array(items) => {
            let mut out: Vec<JsonValue> = Vec::new();
            let n = items.len();
            for i in 0..n
                invariant
                    n == items.len(),
                    out.len() == i,
                    forall|j: int| 0 <= j < i ==> #[trigger] out@[j]@ == items@[j]@,
            {
                proof {
                    assert((*v)->Array_0 == *items);
                    assert(decreases_to!(*v => (*v)->Array_0));
                    vstd::std_specs::vec::axiom_vec_index_decreases(*items, i as int);
                }
                let d = duplicate(&items[i]);
                out.push(d);
            }
            proof {
                lemma_model_seq_ext(out@, items@);
            }
            JsonValue::Array(out)
        }
        JsonValue::Object(members) => {
            let mut out: Vec<(Vec<char>, JsonValue)> = Vec::new();
            let n = members.len();
            for i in 0..n
                invariant
                    n == members.len(),
                    out.len() == i,
                    forall|j: int| 0 <= j < i ==> #[trigger] out@[j].0@ == members@[j].0@,
                    forall|j: int| 0 <= j < i ==> #[trigger] out@[j].1@ == members@[j].1@,
            {
                let entry = &members[i];
                let k = copy_chars(&entry.0);
                proof {
                    assert((*v)->Object_0 == *members);
                    assert(decreases_to!(*v => (*v)->Object_0));
                    vstd::std_specs::vec::axiom_vec_index_decreases(*members, i as int);
                    assert(decreases_to!(members@[i as int] => members@[i as int].1));
                }
                let d = duplicate(&entry.1);
                out.push((k, d));
            }
            proof {
                lemma_model_members_ext(out@, members@);
            }
            JsonValue::Object(out)
        }
    }
}

/// The stored record for an accepted event: the write timestamp and then
/// the three validated fields verbatim, under their canonical keys.
pub open spec fn stored_record(ts_ms: nat, ev: Jv, num: Seq<char>, src: Jv) -> Jv {
    Jv::Object(
        seq![
            ("timestamp"@, Jv::Number(dec_text(ts_ms))),
            ("event"@, ev),
            ("value"@, Jv::Number(num)),
            ("source_ip"@, src),
        ],
    )
}

/// Assembles the stored record from the write timestamp and the validated
/// fields. The three inbound values are carried over unchanged; the
/// timestamp is rendered in decimal; nothing else is added.
pub fn build_record(ts_ms: u128, ed: &EventData) -> (r: JsonValue)
    ensures
        r@ == stored_record(ts_ms as nat, ed.event@, ed.value@, ed.source_ip@),
{
    let mut members: Vec<(Vec<char>, JsonValue)> = Vec::new();
    members.push((str_to_chars("timestamp"), JsonValue::Number(u128_to_dec(ts_ms))));
    members.push((str_to_chars("event"), duplicate(ed.event)));
    members.push((str_to_chars("value"), JsonValue::Number(copy_chars(ed.value))));
    members.push((str_to_chars("source_ip"), duplicate(ed.source_ip)));
    let r = JsonValue::Object(members);
    proof {
        lemma_model_members_index(members@, 0);
        lemma_model_members_index(members@, 1);
        lemma_model_members_index(members@, 2);
        lemma_model_members_index(members@, 3);
        assert(model_members(members@) =~~= stored_record(
            ts_ms as nat,
            ed.event@,
            ed.value@,
            ed.source_ip@,
        )->Object_0);
    }
    r
}

/// The stored record of an accepted event is faithful: under its four keys
/// stand exactly the write timestamp and the inbound `event`, `value` and
/// `source_ip` fields, each unchanged.
pub proof fn lemma_stored_record_faithful(v: Jv, ts: nat)
    requires
        validate_spec(v) is Some,
    ensures
        ({
            let f = validate_spec(v)->0;
            let m = stored_record(ts, f.0, f.1, f.2)->Object_0;
            &&& stored_record(ts, f.0, f.1, f.2) is Object
            &&& m.len() == 4
            &&& crate::validate::lookup(m, "timestamp"@) == Some(Jv::Number(dec_text(ts)))
            &&& crate::validate::lookup(m, "event"@) == field_of(v, "event"@)
            &&& crate::validate::lookup(m, "value"@) == field_of(v, "value"@)
            &&& crate::validate::lookup(m, "source_ip"@) == field_of(v, "source_ip"@)
        }),
{
    reveal_strlit("timestamp");
    reveal_strlit("event");
    reveal_strlit("value");
    reveal_strlit("source_ip");
    let f = validate_spec(v)->0;
    let m = stored_record(ts, f.0, f.1, f.2)->Object_0;
    let m1 = m.drop_first();
    let m2 = m1.drop_first();
    let m3 = m2.drop_first();
    assert(m1 =~= seq![("event"@, f.0), ("value"@, Jv::Number(f.1)), ("source_ip"@, f.2)]);
    assert(m2 =~= seq![("value"@, Jv::Number(f.1)), ("source_ip"@, f.2)]);
    assert(m3 =~= seq![("source_ip"@, f.2)]);
    assert("timestamp"@[0] == 't' && "event"@[0] == 'e' && "value"@[0] == 'v' && "source_ip"@[0]
        == 's');
    assert("timestamp"@ != "event"@);
    assert("timestamp"@ != "value"@);
    assert("timestamp"@ != "source_ip"@);
    assert("event"@ != "value"@);
    assert("event"@ != "source_ip"@);
    assert("value"@ != "source_ip"@);
    assert(crate::validate::lookup(m, "timestamp"@) == Some(Jv::Number(dec_text(ts))));
    assert(crate::validate::lookup(m, "event"@) == crate::validate::lookup(m1, "event"@));
    assert(crate::validate::lookup(m1, "event"@) == Some(f.0));
    assert(crate::validate::lookup(m, "value"@) == crate::validate::lookup(m1, "value"@));
    assert(crate::validate::lookup(m1, "value"@) == crate::validate::lookup(m2, "value"@));
    assert(crate::validate::lookup(m2, "value"@) == Some(Jv::Number(f.1)));
    assert(crate::validate::lookup(m, "source_ip"@) == crate::validate::lookup(m1, "source_ip"@));
    assert(crate::validate::lookup(m1, "source_ip"@) == crate::validate::lookup(m2, "source_ip"@));
    assert(crate::validate::lookup(m2, "source_ip"@) == crate::validate::lookup(m3, "source_ip"@));
    assert(crate::validate::lookup(m3, "source_ip"@) == Some(f.2));
}

/// The storage key for identifier `id`: the fixed prefix, the identifier,
/// and the fixed suffix.
pub open spec fn key_text(id: Seq<char>) -> Seq<char> {
    "data/"@ + id + ".json"@
}

/// Relies on uuid's `Uuid::new_v4` and its display form: a fresh random
/// version-4 identifier rendered in the hyphenated lower-case form, which
/// is exactly 36 characters long. The value is random, so nothing is
/// promised of it beyond its length.
#[verifier::external_body]
fn fresh_uuid_chars() -> (r: Vec<char>)
    ensures
        r@.len() == 36,
{
    uuid::Uuid::new_v4().to_string().chars().collect()
}

/// A fresh storage key: the fixed prefix and suffix around a fresh random
/// 36-character identifier.
pub fn make_object_key() -> (r: String)
    ensures
        exists|id: Seq<char>| #![auto] id.len() == 36 && r@ == key_text(id),
{
    let id = fresh_uuid_chars();
    let mut out: Vec<char> = Vec::new();
    push_str_chars(&mut out, "data/");
    push_chars(&mut out, &id);
    push_str_chars(&mut out, ".json");
    let r = chars_to_string(&out);
    proof {
        assert(id@.len() == 36 && r@ == key_text(id@));
    }
    r
}

/// Storage keys built from distinct identifiers of equal length are
/// distinct: writes of two accepted invocations can only collide if their
/// random identifiers collide.
pub proof fn lemma_distinct_ids_distinct_keys(a: Seq<char>, b: Seq<char>)
    requires
        a.len() == b.len(),
        a != b,
    ensures
        key_text(a) != key_text(b),
{
    reveal_strlit("data/");
    reveal_strlit(".json");
    if key_text(a) == key_text(b) {
        assert forall|i: int| 0 <= i < a.len() implies a[i] == b[i] by {
            assert(key_text(a)[5 + i] == a[i]);
            assert(key_text(b)[5 + i] == b[i]);
        }
        assert(a =~= b);
    }
}

/// The model of the invocation response: an object with the single member
/// `status`, holding `accepted` or `rejected`.
pub open spec fn response_model(accepted: bool) -> Jv {
    Jv::Object(seq![("status"@, Jv::Text(if accepted { "accepted"@ } else { "rejected"@ }))])
}

/// The invocation response: `{"status":"accepted"}` after a successful
/// persist, `{"status":"rejected"}` after a validation rejection. There is
/// no third shape.
pub fn make_response(accepted: bool) -> (r: JsonValue)
    ensures
        r@ == response_model(accepted),
{
    let status = if accepted {
        str_to_chars("accepted")
    } else {
        str_to_chars("rejected")
    };
    let mut members: Vec<(Vec<char>, JsonValue)> = Vec::new();
    members.push((str_to_chars("status"), JsonValue::Text(status)));
    let r = JsonValue::Object(members);
    proof {
        lemma_model_members_index(members@, 0);
        assert(model_members(members@) =~~= response_model(accepted)->Object_0);
    }
    r
}

/// What one invocation must do after validation: reject without writing,
/// or write `body` under `key` and then accept.
pub enum Plan {
    Reject,
    Persist { key: String, body: String },
}

/// Decides one invocation, given the inbound record and the freshly read
/// write timestamp in milliseconds since the epoch.
///
/// The record is rejected exactly when validation fails; otherwise the
/// plan carries the serialized stored record and a fresh storage key, and
/// the caller performs the single write before responding.
pub fn plan_invocation(data: &JsonValue, ts_ms: u128) -> (r: Plan)
    ensures
        (r is Reject <==> validate_spec(data@) is None),
        (r matches Plan::Persist { key, body } ==> {
            &&& validate_spec(data@) matches Some(f)
            &&& body@ == json_text(stored_record(ts_ms as nat, f.0, f.1, f.2))
            &&& exists|id: Seq<char>| #![auto] id.len() == 36 && key@ == key_text(id)
        }),
{
    match crate::validate::get_event(data) {
        None => Plan::Reject,
        Some(ed) => {
            let record = build_record(ts_ms, &ed);
            let body = to_json_string(&record);
            let key = make_object_key();
            Plan::Persist { key, body }
        }
    }
}

} // verus!
