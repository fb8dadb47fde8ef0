//! A plain model of JSON documents, as the TV protocol exchanges them.
//!
//! Text is turned into these values, and these values into text, at the edge of the
//! program; the library reads and builds them.
use vstd::prelude::*;
use crate::text::str_eq;

verus! {

broadcast use vstd::std_specs::vec::group_vec_axioms;

/// A JSON value. Object members keep their order; a key is looked up at its first
/// occurrence.
#[derive(Debug)]
pub enum Json {
    Null,
    Bool(bool),
    /// A non-negative integer that fits in 64 bits.
    UInt(u64),
    /// A negative integer that fits in 64 bits.
    Int(i64),
    /// Any other number, by its decimal text.
    Float(String),
    Str(String),
    Array(Vec<Json>),
    Object(Vec<(String, Json)>),
}

/// The mathematical value of a JSON document.
pub enum JsonValue {
    Null,
    Bool(bool),
    UInt(u64),
    Int(i64),
    Float(Seq<char>),
    Str(Seq<char>),
    Array(Seq<JsonValue>),
    Object(Seq<(Seq<char>, JsonValue)>),
}

/// The value a `Json` stands for.
pub open spec fn json_view(j: Json) -> JsonValue
    decreases j,
{
    match j {
        Json::Null => JsonValue::Null,
        Json::Bool(b) => JsonValue::Bool(b),
        Json::UInt(n) => JsonValue::UInt(n),
        Json::Int(n) => JsonValue::Int(n),
        Json::Float(s) => JsonValue::Float(s@),
        Json::Str(s) => JsonValue::Str(s@),
        Json::Array(items) => JsonValue::Array(
            Seq::new(
                items.len() as nat,
                |i: int|
                    if 0 <= i < items.len() {
                        json_view(items[i])
                    } else {
                        JsonValue::Null
                    },
            ),
        ),
        Json::Object(members) => JsonValue::Object(
            Seq::new(
                members.len() as nat,
                |i: int|
                    if 0 <= i < members.len() {
                        (members[i].0@, json_view(members[i].1))
                    } else {
                        (Seq::empty(), JsonValue::Null)
                    },
            ),
        ),
    }
}

impl View for Json {
    type V = JsonValue;

    open spec fn view(&self) -> JsonValue {
        json_view(*self)
    }
}

} // verus!

verus! {

/// The view of a list of object members.
pub open spec fn members_view(m: Seq<(String, Json)>) -> Seq<(Seq<char>, JsonValue)> {
    Seq::new(m.len() as nat, |i: int| (m[i].0@, m[i].1@))
}

/// The view of a list of values.
pub open spec fn items_view(v: Seq<Json>) -> Seq<JsonValue> {
    Seq::new(v.len() as nat, |i: int| v[i]@)
}

/// The value of an object is the list of its members' values.
pub proof fn lemma_object_view(j: Json)
    requires
        j is Object,
    ensures
        j@ == JsonValue::Object(members_view(j->Object_0@)),
{
    assert(j@->Object_0 =~= members_view(j->Object_0@));
}

/// The value of an array is the list of its items' values.
pub proof fn lemma_array_view(v: Vec<Json>)
    ensures
        Json::Array(v)@ == JsonValue::Array(items_view(v@)),
{
    assert(Json::Array(v)@->Array_0 =~= items_view(v@));
}

/// The value of the first member named `key`.
pub open spec fn field(members: Seq<(Seq<char>, JsonValue)>, key: Seq<char>) -> Option<JsonValue>
    decreases members.len(),
{
    if members.len() == 0 {
        None
    } else if members[0].0 == key {
        Some(members[0].1)
    } else {
        field(members.drop_first(), key)
    }
}

/// `value[key]` for an object, `None` for anything else (as `Value::get` with a string key).
pub open spec fn get(value: JsonValue, key: Seq<char>) -> Option<JsonValue> {
    match value {
        JsonValue::Object(members) => field(members, key),
        _ => None,
    }
}

/// The text of a string value (as `Value::as_str`).
pub open spec fn as_text(value: JsonValue) -> Option<Seq<char>> {
    match value {
        JsonValue::Str(s) => Some(s),
        _ => None,
    }
}

/// The integer of a non-negative integer value (as `Value::as_u64`).
pub open spec fn as_uint(value: JsonValue) -> Option<u64> {
    match value {
        JsonValue::UInt(n) => Some(n),
        _ => None,
    }
}

/// The truth value of a boolean value (as `Value::as_bool`).
pub open spec fn as_boolean(value: JsonValue) -> Option<bool> {
    match value {
        JsonValue::Bool(b) => Some(b),
        _ => None,
    }
}

/// `get(value, key)` followed by `as_text`.
pub open spec fn text_field(value: JsonValue, key: Seq<char>) -> Option<Seq<char>> {
    match get(value, key) {
        Some(v) => as_text(v),
        None => None,
    }
}

/// The members with `key` set to `value`: replaced in place where the key is present,
/// appended where it is not (as inserting into a JSON map).
pub open spec fn set_field(
    members: Seq<(Seq<char>, JsonValue)>,
    key: Seq<char>,
    value: JsonValue,
) -> Seq<(Seq<char>, JsonValue)>
    decreases members.len(),
{
    if members.len() == 0 {
        seq![(key, value)]
    } else if members[0].0 == key {
        members.update(0, (key, value))
    } else {
        seq![members[0]] + set_field(members.drop_first(), key, value)
    }
}

/// Setting members under other keys leaves a key reading as before.
pub proof fn lemma_set_fields_keeps(
    members: Seq<(Seq<char>, JsonValue)>,
    extra: Seq<(Seq<char>, JsonValue)>,
    key: Seq<char>,
)
    requires
        forall|j: int| 0 <= j < extra.len() ==> #[trigger] extra[j].0 != key,
    ensures
        field(set_fields(members, extra), key) == field(members, key),
    decreases extra.len(),
{
    if extra.len() > 0 {
        lemma_field_after_set(members, extra[0].0, extra[0].1, key);
        let rest = extra.drop_first();
        assert forall|j: int| 0 <= j < rest.len() implies #[trigger] rest[j].0 != key by {
            assert(rest[j] == extra[j + 1]);
        }
        lemma_set_fields_keeps(set_field(members, extra[0].0, extra[0].1), rest, key);
    }
}

/// Setting members with distinct keys in turn makes each key read as the value set.
pub proof fn lemma_set_fields_finds(
    members: Seq<(Seq<char>, JsonValue)>,
    extra: Seq<(Seq<char>, JsonValue)>,
    i: int,
)
    requires
        0 <= i < extra.len(),
        forall|a: int, b: int| 0 <= a < b < extra.len() ==> #[trigger] extra[a].0 != #[trigger] extra[b].0,
    ensures
        field(set_fields(members, extra), extra[i].0) == Some(extra[i].1),
    decreases extra.len(),
{
    let rest = extra.drop_first();
    let first = set_field(members, extra[0].0, extra[0].1);
    if i == 0 {
        lemma_field_after_set(members, extra[0].0, extra[0].1, extra[0].0);
        assert forall|j: int| 0 <= j < rest.len() implies #[trigger] rest[j].0 != extra[0].0 by {
            assert(rest[j] == extra[j + 1]);
        }
        lemma_set_fields_keeps(first, rest, extra[0].0);
    } else {
        assert forall|a: int, b: int| 0 <= a < b < rest.len() implies #[trigger] rest[a].0
            != #[trigger] rest[b].0 by {
            assert(rest[a] == extra[a + 1] && rest[b] == extra[b + 1]);
        }
        assert(rest[i - 1] == extra[i]);
        lemma_set_fields_finds(first, rest, i - 1);
    }
}

/// A member whose key no earlier member has is what looking up that key finds.
pub proof fn lemma_field_at(members: Seq<(Seq<char>, JsonValue)>, i: int)
    requires
        0 <= i < members.len(),
        forall|j: int| 0 <= j < i ==> #[trigger] members[j].0 != members[i].0,
    ensures
        field(members, members[i].0) == Some(members[i].1),
    decreases i,
{
    if i > 0 {
        let rest = members.drop_first();
        assert forall|j: int| 0 <= j < i - 1 implies #[trigger] rest[j].0 != rest[i - 1].0 by {
            assert(rest[j] == members[j + 1]);
        }
        lemma_field_at(rest, i - 1);
        assert(rest[i - 1] == members[i]);
        assert(members[0].0 != members[i].0);
    }
}

/// Reading a member back after setting it gives the value set; every other member reads
/// as before.
pub proof fn lemma_field_after_set(
    members: Seq<(Seq<char>, JsonValue)>,
    key: Seq<char>,
    value: JsonValue,
    other: Seq<char>,
)
    ensures
        field(set_field(members, key, value), key) == Some(value),
        other != key ==> field(set_field(members, key, value), other) == field(members, other),
    decreases members.len(),
{
    if members.len() > 0 && members[0].0 != key {
        lemma_field_after_set(members.drop_first(), key, value, other);
        let s = set_field(members, key, value);
        assert(s[0] == members[0]);
        assert(s.drop_first() == set_field(members.drop_first(), key, value));
    } else if members.len() > 0 {
        let s = set_field(members, key, value);
        assert(s[0] == (key, value));
        assert(s.drop_first() == members.drop_first());
    } else {
        let s = set_field(members, key, value);
        assert(s[0] == (key, value));
        assert(s.drop_first().len() == 0);
        assert(field(s.drop_first(), other) is None);
    }
}

/// The members with every member of `extra` set in turn.
pub open spec fn set_fields(
    members: Seq<(Seq<char>, JsonValue)>,
    extra: Seq<(Seq<char>, JsonValue)>,
) -> Seq<(Seq<char>, JsonValue)>
    decreases extra.len(),
{
    if extra.len() == 0 {
        members
    } else {
        set_fields(set_field(members, extra[0].0, extra[0].1), extra.drop_first())
    }
}

impl Json {
    /// A string value.
    pub fn text(s: &str) -> (j: Json)
        ensures
            j@ == JsonValue::Str(s@),
    {
        Json::Str(crate::text::owned(s))
    }

    /// An object with the given members, in order.
    pub fn object(members: Vec<(String, Json)>) -> (j: Json)
        ensures
            j@ == JsonValue::Object(members_view(members@)),
    {
        let j = Json::Object(members);
        proof {
            lemma_object_view(j);
        }
        j
    }

    /// An array of the given values, in order.
    pub fn array(items: Vec<Json>) -> (j: Json)
        ensures
            j@ == JsonValue::Array(items_view(items@)),
    {
        proof {
            lemma_array_view(items);
        }
        Json::Array(items)
    }

    /// The value of member `key` of an object.
    pub fn get(&self, key: &str) -> (r: Option<&Json>)
        ensures
            r matches Some(v) ==> get(self@, key@) == Some(v@),
            r is None ==> get(self@, key@) is None,
    {
        match self {
            Json::Object(members) => {
                proof {
                    lemma_object_view(*self);
                }
                let ghost mv = members_view(members@);
                let mut i: usize = 0;
                assert(mv.subrange(0, mv.len() as int) == mv);
                while i < members.len()
                    invariant
                        mv == members_view(members@),
                        get(self@, key@) == field(mv, key@),
                        i <= members@.len(),
                        field(mv, key@) == field(mv.subrange(i as int, mv.len() as int), key@),
                    decreases members@.len() - i,
                {
                    let ghost rest = mv.subrange(i as int, mv.len() as int);
                    assert(rest.drop_first() == mv.subrange(i + 1, mv.len() as int));
                    assert(rest[0] == (members@[i as int].0@, members@[i as int].1@));
                    if str_eq(members[i].0.as_str(), key) {
                        assert(field(rest, key@) == Some(rest[0].1));
                        return Some(&members[i].1);
                    }
                    i += 1;
                }
                None
            },
            _ => None,
        }
    }

    /// Consumes an object and hands back the value of its member `key`.
    pub fn take(self, key: &str) -> (r: Option<Json>)
        ensures
            r matches Some(v) ==> get(self@, key@) == Some(v@),
            r is None ==> get(self@, key@) is None,
    {
        match self {
            Json::Object(mut members) => {
                proof {
                    lemma_object_view(self);
                }
                let ghost orig = members@;
                let ghost mv = members_view(members@);
                let mut i: usize = 0;
                assert(mv.subrange(0, mv.len() as int) == mv);
                while i < members.len()
                    invariant
                        members@ == orig,
                        mv == members_view(orig),
                        get(self@, key@) == field(mv, key@),
                        i <= members@.len(),
                        field(mv, key@) == field(mv.subrange(i as int, mv.len() as int), key@),
                    decreases members@.len() - i,
                {
                    let ghost rest = mv.subrange(i as int, mv.len() as int);
                    assert(rest.drop_first() == mv.subrange(i + 1, mv.len() as int));
                    assert(rest[0] == (members@[i as int].0@, members@[i as int].1@));
                    if str_eq(members[i].0.as_str(), key) {
                        assert(field(rest, key@) == Some(rest[0].1));
                        let (_, v) = members.swap_remove(i);
                        return Some(v);
                    }
                    i += 1;
                }
                None
            },
            _ => None,
        }
    }

    /// The text of a string value.
    pub fn as_str(&self) -> (r: Option<&str>)
        ensures
            r matches Some(s) ==> as_text(self@) == Some(s@),
            r is None ==> as_text(self@) is None,
    {
        match self {
            Json::Str(s) => Some(s.as_str()),
            _ => None,
        }
    }

    /// The integer of a non-negative integer value.
    pub fn as_u64(&self) -> (r: Option<u64>)
        ensures
            r == as_uint(self@),
    {
        match self {
            Json::UInt(n) => Some(*n),
            _ => None,
        }
    }

    /// The truth value of a boolean value.
    pub fn as_bool(&self) -> (r: Option<bool>)
        ensures
            r == as_boolean(self@),
    {
        match self {
            Json::Bool(b) => Some(*b),
            _ => None,
        }
    }

    /// The text of member `key` when it is a string.
    pub fn get_text(&self, key: &str) -> (r: Option<&str>)
        ensures
            r matches Some(s) ==> text_field(self@, key@) == Some(s@),
            r is None ==> text_field(self@, key@) is None,
    {
        match self.get(key) {
            Some(v) => v.as_str(),
            None => None,
        }
    }
}

/// Sets member `key` in a list of object members (replacing it where present).
pub fn set_member(members: &mut Vec<(String, Json)>, key: String, value: Json)
    ensures
        members_view(final(members)@) == set_field(members_view(old(members)@), key@, value@),
{
    let ghost orig = members_view(members@);
    let ghost orig_exec = members@;
    assert(orig_exec == old(members)@);
    let n = members.len();
    let mut i: usize = 0;
    assert(orig.subrange(0, 0) + orig.subrange(0, n as int) =~= orig);
    while i < n
        invariant
            n == members@.len(),
            i <= n,
            members@ == orig_exec,
            old(members)@ == orig_exec,
            orig == members_view(orig_exec),
            set_field(orig, key@, value@) == orig.subrange(0, i as int) + set_field(
                orig.subrange(i as int, n as int),
                key@,
                value@,
            ),
        decreases n - i,
    {
        let ghost rest = orig.subrange(i as int, n as int);
        assert(rest[0] == (members@[i as int].0@, members@[i as int].1@));
        if str_eq(members[i].0.as_str(), key.as_str()) {
            let ghost kv = (key@, value@);
            assert(set_field(rest, key@, value@) == rest.update(0, kv));
            members.set(i, (key, value));
            assert(members_view(members@) =~= orig.subrange(0, i as int) + rest.update(0, kv));
            assert(members_view(members@) == set_field(orig, key@, value@));
            return;
        }
        assert(rest.drop_first() == orig.subrange(i + 1, n as int));
        assert(orig.subrange(0, i + 1) == orig.subrange(0, i as int) + seq![rest[0]]);
        assert(set_field(rest, key@, value@) == seq![rest[0]] + set_field(
            rest.drop_first(),
            key@,
            value@,
        ));
        assert(orig.subrange(0, i as int) + (seq![rest[0]] + set_field(
            rest.drop_first(),
            key@,
            value@,
        )) =~= orig.subrange(0, i + 1) + set_field(orig.subrange(i + 1, n as int), key@, value@));
        i += 1;
    }
    assert(orig.subrange(0, n as int) == orig);
    assert(orig.subrange(n as int, n as int) =~= Seq::<(Seq<char>, JsonValue)>::empty());
    let ghost kv = (key@, value@);
    members.push((key, value));
    assert(members_view(members@) =~= orig + seq![kv]);
}

} // verus!

verus! {

/// Appending a member appends its value.
pub proof fn lemma_members_view_push(m: Seq<(String, Json)>, k: String, v: Json)
    ensures
        members_view(m.push((k, v))) == members_view(m).push((k@, v@)),
{
    assert(members_view(m.push((k, v))) =~= members_view(m).push((k@, v@)));
}

/// Appends a member to a list of members.
pub fn push_member(m: &mut Vec<(String, Json)>, key: &str, value: Json)
    ensures
        members_view(final(m)@) == members_view(old(m)@).push((key@, value@)),
{
    let k = crate::text::owned(key);
    let ghost before = m@;
    m.push((k, value));
    proof {
        lemma_members_view_push(before, k, value);
    }
}


} // verus!
