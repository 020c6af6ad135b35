//! The JSON document model: an executable value type, its mathematical
//! model, and a verified renderer to JSON text.

use vstd::prelude::*;

verus! {

/// A JSON document value.
///
/// Text — the contents of strings, object keys, and the textual form of
/// numbers — is held as a vector of characters so that contracts can speak
/// of it as a sequence. A number is kept exactly as it was received and is
/// never re-encoded.
pub enum JsonValue {
    Null,
    Bool(bool),
    Number(Vec<char>),
    Text(Vec<char>),
    Array(Vec<JsonValue>),
    Object(Vec<(Vec<char>, JsonValue)>),
}

/// The mathematical model of a JSON value: the same tree with mathematical
/// sequences in place of vectors.
#[verifier::ext_equal]
pub enum Jv {
    Null,
    Bool(bool),
    Number(Seq<char>),
    Text(Seq<char>),
    Array(Seq<Jv>),
    Object(Seq<(Seq<char>, Jv)>),
}

/// The model of a sequence of values: each element replaced by its model.
pub open spec fn model_seq(s: Seq<JsonValue>) -> Seq<Jv>
    decreases s,
{
    if s.len() == 0 {
        Seq::empty()
    } else {
        model_seq(s.drop_last()).push(s.last().model())
    }
}

/// The model of an object's members: each key viewed as a sequence and each
/// value replaced by its model.
pub open spec fn model_members(s: Seq<(Vec<char>, JsonValue)>) -> Seq<(Seq<char>, Jv)>
    decreases s,
{
    if s.len() == 0 {
        Seq::empty()
    } else {
        model_members(s.drop_last()).push((s.last().0@, s.last().1.model()))
    }
}

impl JsonValue {
    /// The mathematical model of this value.
    pub open spec fn model(self) -> Jv
        decreases self,
    {
        match self {
            JsonValue::Null => Jv::Null,
            JsonValue::Bool(b) => Jv::Bool(b),
            JsonValue::Number(s) => Jv::Number(s@),
            JsonValue::Text(s) => Jv::Text(s@),
            JsonValue::Array(a) => Jv::Array(model_seq(a@)),
            JsonValue::Object(m) => Jv::Object(model_members(m@)),
        }
    }
}

impl View for JsonValue {
    type V = Jv;

    open spec fn view(&self) -> Jv {
        self.model()
    }
}

/// The length of the model of a sequence of values equals the length of the
/// sequence, and each element of the model is the model of the element.
pub proof fn lemma_model_seq_index(s: Seq<JsonValue>, i: int)
    requires
        0 <= i < s.len(),
    ensures
        model_seq(s).len() == s.len(),
        model_seq(s)[i] == s[i].model(),
    decreases s.len(),
{
    lemma_model_seq_len(s);
    if i < s.len() - 1 {
        lemma_model_seq_index(s.drop_last(), i);
    }
}

pub proof fn lemma_model_seq_len(s: Seq<JsonValue>)
    ensures
        model_seq(s).len() == s.len(),
    decreases s.len(),
{
    if s.len() > 0 {
        lemma_model_seq_len(s.drop_last());
    }
}

/// The members' model is index-for-index the model of the members.
pub proof fn lemma_model_members_index(s: Seq<(Vec<char>, JsonValue)>, i: int)
    requires
        0 <= i < s.len(),
    ensures
        model_members(s).len() == s.len(),
        model_members(s)[i] == (s[i].0@, s[i].1.model()),
    decreases s.len(),
{
    lemma_model_members_len(s);
    if i < s.len() - 1 {
        lemma_model_members_index(s.drop_last(), i);
    }
}

pub proof fn lemma_model_members_len(s: Seq<(Vec<char>, JsonValue)>)
    ensures
        model_members(s).len() == s.len(),
    decreases s.len(),
{
    if s.len() > 0 {
        lemma_model_members_len(s.drop_last());
    }
}

/// The lower-case hexadecimal digit for `n`.
pub open spec fn hex_digit(n: nat) -> char {
    if n == 0 { '0' } else if n == 1 { '1' } else if n == 2 { '2' }
    else if n == 3 { '3' } else if n == 4 { '4' } else if n == 5 { '5' }
    else if n == 6 { '6' } else if n == 7 { '7' } else if n == 8 { '8' }
    else if n == 9 { '9' } else if n == 10 { 'a' } else if n == 11 { 'b' }
    else if n == 12 { 'c' } else if n == 13 { 'd' } else if n == 14 { 'e' }
    else { 'f' }
}

/// How one character of a JSON string is rendered: quotes and backslashes
/// are escaped, the common control characters get their short escapes, any
/// other control character a `\u00..` escape, and everything else stands
/// as itself.
pub open spec fn escape_char(c: char) -> Seq<char> {
    if c == '"' { seq!['\\', '"'] }
    else if c == '\\' { seq!['\\', '\\'] }
    else if c == '\n' { seq!['\\', 'n'] }
    else if c == '\r' { seq!['\\', 'r'] }
    else if c == '\t' { seq!['\\', 't'] }
    else if (c as u32) < 32 {
        seq!['\\', 'u', '0', '0', hex_digit((c as u32 / 16) as nat), hex_digit((c as u32 % 16) as nat)]
    } else {
        seq![c]
    }
}

/// The escaped rendering of a whole string body.
pub open spec fn escape_text(s: Seq<char>) -> Seq<char>
    decreases s.len(),
{
    if s.len() == 0 {
        Seq::empty()
    } else {
        escape_text(s.drop_last()) + escape_char(s.last())
    }
}

/// A JSON string token: the escaped body between double quotes.
pub open spec fn quoted(s: Seq<char>) -> Seq<char> {
    seq!['"'] + escape_text(s) + seq!['"']
}

/// The JSON text of a value.
pub open spec fn json_text(v: Jv) -> Seq<char>
    decreases v,
{
    match v {
        Jv::Null => "null"@,
        Jv::Bool(b) => if b { "true"@ } else { "false"@ },
        Jv::Number(s) => s,
        Jv::Text(s) => quoted(s),
        Jv::Array(items) => seq!['['] + items_text(items) + seq![']'],
        Jv::Object(members) => seq!['{'] + members_text(members) + seq!['}'],
    }
}

/// The comma-separated renderings of an array's items.
pub open spec fn items_text(s: Seq<Jv>) -> Seq<char>
    decreases s,
{
    if s.len() == 0 {
        Seq::empty()
    } else if s.len() == 1 {
        json_text(s[0])
    } else {
        items_text(s.drop_last()) + seq![','] + json_text(s.last())
    }
}

/// The comma-separated renderings of an object's members, each a quoted key,
/// a colon, and the rendered value.
pub open spec fn members_text(s: Seq<(Seq<char>, Jv)>) -> Seq<char>
    decreases s,
{
    if s.len() == 0 {
        Seq::empty()
    } else if s.len() == 1 {
        quoted(s[0].0) + seq![':'] + json_text(s[0].1)
    } else {
        members_text(s.drop_last()) + seq![','] + quoted(s.last().0) + seq![':'] + json_text(s.last().1)
    }
}

/// Appends every character of `s` to `out`.
pub fn push_chars(out: &mut Vec<char>, s: &Vec<char>)
    ensures
        final(out)@ == old(out)@ + s@,
{
    let n = s.len();
    for i in 0..n
        invariant
            n == s.len(),
            out@ == old(out)@ + s@.take(i as int),
    {
        out.push(s[i]);
        proof {
            assert(s@.take(i + 1) =~= s@.take(i as int).push(s@[i as int]));
        }
    }
    proof {
        assert(s@.take(n as int) =~= s@);
    }
}

/// Appends every character of the string slice `s` to `out`.
pub fn push_str_chars(out: &mut Vec<char>, s: &str)
    ensures
        final(out)@ == old(out)@ + s@,
{
    let n = s.unicode_len();
    for i in 0..n
        invariant
            n == s@.len(),
            out@ == old(out)@ + s@.take(i as int),
    {
        let c = s.get_char(i);
        out.push(c);
        proof {
            assert(s@.take(i + 1) =~= s@.take(i as int).push(s@[i as int]));
        }
    }
    proof {
        assert(s@.take(n as int) =~= s@);
    }
}

/// The lower-case hexadecimal digit character for `n`.
pub fn hex_digit_char(n: u32) -> (c: char)
    requires
        n < 16,
    ensures
        c == hex_digit(n as nat),
{
    if n == 0 { '0' } else if n == 1 { '1' } else if n == 2 { '2' }
    else if n == 3 { '3' } else if n == 4 { '4' } else if n == 5 { '5' }
    else if n == 6 { '6' } else if n == 7 { '7' } else if n == 8 { '8' }
    else if n == 9 { '9' } else if n == 10 { 'a' } else if n == 11 { 'b' }
    else if n == 12 { 'c' } else if n == 13 { 'd' } else if n == 14 { 'e' }
    else { 'f' }
}

/// Appends the escaped rendering of one character.
pub fn push_escaped_char(out: &mut Vec<char>, c: char)
    ensures
        final(out)@ == old(out)@ + escape_char(c),
{
    if c == '"' {
        out.push('\\');
        out.push('"');
    } else if c == '\\' {
        out.push('\\');
        out.push('\\');
    } else if c == '\n' {
        out.push('\\');
        out.push('n');
    } else if c == '\r' {
        out.push('\\');
        out.push('r');
    } else if c == '\t' {
        out.push('\\');
        out.push('t');
    } else if (c as u32) < 32 {
        out.push('\\');
        out.push('u');
        out.push('0');
        out.push('0');
        out.push(hex_digit_char((c as u32) / 16));
        out.push(hex_digit_char((c as u32) % 16));
        proof {
            assert(out@ =~= old(out)@ + escape_char(c));
        }
    } else {
        out.push(c);
        proof {
            assert(out@ =~= old(out)@ + escape_char(c));
        }
    }
    proof {
        assert(out@ =~= old(out)@ + escape_char(c));
    }
}

/// Appends the escaped rendering of a whole string body.
pub fn push_escaped(out: &mut Vec<char>, s: &Vec<char>)
    ensures
        final(out)@ == old(out)@ + escape_text(s@),
{
    let n = s.len();
    for i in 0..n
        invariant
            n == s.len(),
            out@ == old(out)@ + escape_text(s@.take(i as int)),
    {
        push_escaped_char(out, s[i]);
        proof {
            assert(s@.take(i + 1).drop_last() =~= s@.take(i as int));
            assert(s@.take(i + 1).last() == s@[i as int]);
        }
    }
    proof {
        assert(s@.take(n as int) =~= s@);
    }
}

/// Appends a JSON string token: the escaped body between double quotes.
pub fn push_quoted(out: &mut Vec<char>, s: &Vec<char>)
    ensures
        final(out)@ == old(out)@ + quoted(s@),
{
    out.push('"');
    push_escaped(out, s);
    out.push('"');
    proof {
        assert(out@ =~= old(out)@ + quoted(s@));
    }
}

/// Appends the JSON text of `v` to `out`.
#[verifier::loop_isolation(false)]
#[verifier::rlimit(60)]
pub fn write_json(v: &JsonValue, out: &mut Vec<char>)
    ensures
        final(out)@ == old(out)@ + json_text(v@),
    decreases *v,
{
    match v {
        JsonValue::Null => {
            push_str_chars(out, "null");
        }
        JsonValue::Bool(b) => {
            if *b {
                push_str_chars(out, "true");
            } else {
                push_str_chars(out, "false");
            }
        }
        JsonValue::Number(s) => {
            push_chars(out, s);
        }
        JsonValue::Text(s) => {
            push_quoted(out, s);
        }
        JsonValue::Array(items) => {
            out.push('[');
            let ghost m = model_seq(items@);
            proof {
                lemma_model_seq_len(items@);
            }
            let n = items.len();
            for i in 0..n
                invariant
                    n == items.len(),
                    m == model_seq(items@),
                    m.len() == n,
                    v@ == Jv::Array(m),
                    out@ == old(out)@ + seq!['['] + items_text(m.take(i as int)),
            {
                if i > 0 {
                    out.push(',');
                }
                proof {
                    assert((*v)->Array_0 == *items);
                    assert(decreases_to!(*v => (*v)->Array_0));
                    vstd::std_specs::vec::axiom_vec_index_decreases(*items, i as int);
                    assert(decreases_to!(*v => items@[i as int]));
                }
                write_json(&items[i], out);
                proof {
                    lemma_model_seq_index(items@, i as int);
                    assert(m.take(i + 1).drop_last() =~= m.take(i as int));
                    assert(m.take(i + 1).last() == m[i as int]);
                    if i > 0 {
                        assert(m.take(i + 1).len() > 1);
                    }
                    assert(out@ =~= old(out)@ + seq!['['] + items_text(m.take(i + 1)));
                }
            }
            out.push(']');
            proof {
                assert(m.take(n as int) =~= m);
                assert(out@ =~= old(out)@ + json_text(v@));
            }
        }
        JsonValue::Object(members) => {
            out.push('{');
            let ghost m = model_members(members@);
            proof {
                lemma_model_members_len(members@);
            }
            let n = members.len();
            for i in 0..n
                invariant
                    n == members.len(),
                    m == model_members(members@),
                    m.len() == n,
                    v@ == Jv::Object(m),
                    out@ == old(out)@ + seq!['{'] + members_text(m.take(i as int)),
            {
                if i > 0 {
                    out.push(',');
                }
                push_quoted(out, &members[i].0);
                out.push(':');
                proof {
                    assert((*v)->Object_0 == *members);
                    assert(decreases_to!(*v => (*v)->Object_0));
                    vstd::std_specs::vec::axiom_vec_index_decreases(*members, i as int);
                    assert(decreases_to!(members@[i as int] => members@[i as int].1));
                    assert(decreases_to!(*v => members@[i as int].1));
                }
                write_json(&members[i].1, out);
                proof {
                    lemma_model_members_index(members@, i as int);
                    assert(m.take(i + 1).drop_last() =~= m.take(i as int));
                    assert(m.take(i + 1).last() == m[i as int]);
                    if i > 0 {
                        assert(m.take(i + 1).len() > 1);
                    }
                    assert(out@ =~= old(out)@ + seq!['{'] + members_text(m.take(i + 1)));
                }
            }
            out.push('}');
            proof {
                assert(m.take(n as int) =~= m);
                assert(out@ =~= old(out)@ + json_text(v@));
            }
        }
    }
}

/// The JSON text of `v`, as a vector of characters.
pub fn to_json_chars(v: &JsonValue) -> (r: Vec<char>)
    ensures
        r@ == json_text(v@),
{
    let mut out: Vec<char> = Vec::new();
    write_json(v, &mut out);
    out
}

/// Relies on `String`'s `FromIterator<char>` implementation: collecting
/// characters yields a string holding exactly those characters in order.
#[verifier::external_body]
pub(crate) fn chars_to_string(cs: &Vec<char>) -> (r: String)
    ensures
        r@ == cs@,
{
    cs.iter().collect()
}

/// The JSON text of `v`, as a string.
pub fn to_json_string(v: &JsonValue) -> (r: String)
    ensures
        r@ == json_text(v@),
{
    let out = to_json_chars(v);
    chars_to_string(&out)
}

} // verus!
