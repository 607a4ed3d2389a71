//! JSON documents as plain values.
use crate::text::same_text;
use vstd::prelude::*;

verus! {

/// A JSON value. A number keeps its text, and its integer where it is one that fits an `i64`.
pub enum Json {
    Null,
    Bool(bool),
    Number { int: Option<i64>, text: String },
    Str(String),
    Array(Vec<Json>),
    Object(Vec<(String, Json)>),
}

/// What a [`Json`] holds.
pub enum JsonData {
    Null,
    Bool(bool),
    Number { int: Option<i64>, text: Seq<char> },
    Str(Seq<char>),
    Array(Seq<JsonData>),
    Object(Seq<(Seq<char>, JsonData)>),
}

/// What a value holds.
pub open spec fn json_data(j: Json) -> JsonData
    decreases j,
{
    match j {
        Json::Null => JsonData::Null,
        Json::Bool(b) => JsonData::Bool(b),
        Json::Number { int: n, text } => JsonData::Number { int: n, text: text@ },
        Json::Str(s) => JsonData::Str(s@),
        Json::Array(items) => JsonData::Array(
            Seq::new(
                items@.len(),
                |i: int|
                    if 0 <= i < items@.len() {
                        json_data(items@[i])
                    } else {
                        JsonData::Null
                    },
            ),
        ),
        Json::Object(fields) => JsonData::Object(
            Seq::new(
                fields@.len(),
                |i: int|
                    if 0 <= i < fields@.len() {
                        (fields@[i].0@, json_data(fields@[i].1))
                    } else {
                        (seq![], JsonData::Null)
                    },
            ),
        ),
    }
}

impl DeepView for Json {
    type V = JsonData;

    open spec fn deep_view(&self) -> JsonData {
        json_data(*self)
    }
}

/// The document that a text holds, or `None` where the text is not JSON.
pub uninterp spec fn json_of_text(text: Seq<char>) -> Option<JsonData>;

/// A value of `serde_json`, as `serde_json::from_str` gives it.
#[verifier::external_type_specification]
#[verifier::external_body]
pub struct ExValue(serde_json::Value);

/// Moves a `serde_json::Value` into a `Json`, variant by variant; the integer of a number is what
/// `serde_json::Number::as_i64` gives, its text what its `Display` writes.
#[verifier::external_body]
fn json_of_value(value: serde_json::Value) -> Json {
    match value {
        serde_json::Value::Null => Json::Null,
        serde_json::Value::Bool(b) => Json::Bool(b),
        serde_json::Value::Number(n) => Json::Number { int: n.as_i64(), text: n.to_string() },
        serde_json::Value::String(s) => Json::Str(s),
        serde_json::Value::Array(a) => Json::Array(a.into_iter().map(json_of_value).collect()),
        serde_json::Value::Object(m) => Json::Object(
            m.into_iter().map(|(k, v)| (k, json_of_value(v))).collect(),
        ),
    }
}

/// `serde_json::from_str` reads a text as one JSON document; what comes out, and whether the text
/// is refused, depends on the text alone.
#[verifier::external_body]
pub(crate) fn parse_json(text: &str) -> (r: Option<Json>)
    ensures
        r.deep_view() == json_of_text(text@),
{
    match serde_json::from_str::<serde_json::Value>(text) {
        Ok(value) => Some(json_of_value(value)),
        Err(_) => None,
    }
}

/// The value of the first field from index `i` on that is called `key`.
pub open spec fn find_field(
    fields: Seq<(Seq<char>, JsonData)>,
    key: Seq<char>,
    i: int,
) -> Option<JsonData>
    decreases fields.len() - i,
{
    if i < 0 || i >= fields.len() {
        None
    } else if fields[i].0 == key {
        Some(fields[i].1)
    } else {
        find_field(fields, key, i + 1)
    }
}

proof fn lemma_find_field_without(
    fields: Seq<(Seq<char>, JsonData)>,
    at: int,
    key: Seq<char>,
    i: int,
)
    requires
        0 <= at < fields.len(),
        0 <= i,
        fields[at].0 != key,
    ensures
        find_field(fields.remove(at), key, i) == find_field(
            fields,
            key,
            if i <= at { i } else { i + 1 },
        ),
    decreases fields.len() - i,
{
    let less = fields.remove(at);
    if i < less.len() {
        if i == at {
            assert(find_field(fields, key, at) == find_field(fields, key, at + 1));
        }
        if less[i].0 != key {
            lemma_find_field_without(fields, at, key, i + 1);
            if i + 1 == at {
                assert(find_field(fields, key, i) == find_field(fields, key, i + 1));
            }
        }
        if i == at && less[i].0 != key {
            assert(find_field(fields, key, i + 1) == find_field(fields, key, i + 2));
        }
    } else {
        if i == at {
            assert(find_field(fields, key, at) == find_field(fields, key, at + 1));
        }
    }
}

impl JsonData {
    /// The field called `key`, where this is an object that has one.
    pub open spec fn field(self, key: Seq<char>) -> Option<JsonData> {
        match self {
            JsonData::Object(fields) => find_field(fields, key, 0),
            _ => None,
        }
    }

    /// The text under `key`, where there is one.
    pub open spec fn str_field(self, key: Seq<char>) -> Option<Seq<char>> {
        match self.field(key) {
            Some(JsonData::Str(s)) => Some(s),
            _ => None,
        }
    }

    /// The truth value under `key`, where there is one.
    pub open spec fn bool_field(self, key: Seq<char>) -> Option<bool> {
        match self.field(key) {
            Some(JsonData::Bool(b)) => Some(b),
            _ => None,
        }
    }

    /// The integer under `key`, or zero.
    pub open spec fn int_or_zero(self, key: Seq<char>) -> i64 {
        match self.field(key) {
            Some(JsonData::Number { int: Some(n), .. }) => n,
            _ => 0,
        }
    }
}

impl Json {
    /// The field called `key`, where this is an object that has one.
    pub fn field(&self, key: &str) -> (r: Option<&Json>)
        ensures
            match r {
                Some(j) => self.deep_view().field(key@) == Some(j.deep_view()),
                None => self.deep_view().field(key@) is None,
            },
    {
        match self {
            Json::Object(fields) => {
                let mut i: usize = 0;
                while i < fields.len()
                    invariant
                        i <= fields.len(),
                        self == Json::Object(*fields),
                        self.deep_view().field(key@) == find_field(
                            self.deep_view()->Object_0,
                            key@,
                            i as int,
                        ),
                    decreases fields.len() - i,
                {
                    if same_text(fields[i].0.as_str(), key) {
                        return Some(&fields[i].1);
                    }
                    i = i + 1;
                }
                None
            },
            _ => None,
        }
    }

    /// The text under `key`, where there is one.
    pub fn str_field(&self, key: &str) -> (r: Option<&str>)
        ensures
            match r {
                Some(s) => self.deep_view().str_field(key@) == Some(s@),
                None => self.deep_view().str_field(key@) is None,
            },
    {
        match self.field(key) {
            Some(Json::Str(s)) => Some(s.as_str()),
            _ => None,
        }
    }

    /// A copy of the text under `key`, where there is one.
    pub fn string_field(&self, key: &str) -> (r: Option<String>)
        ensures
            r.deep_view() == self.deep_view().str_field(key@),
    {
        match self.field(key) {
            Some(Json::Str(s)) => Some(s.clone()),
            _ => None,
        }
    }

    /// A copy of the text under `key`, or `default` where there is none.
    pub fn string_field_or(&self, key: &str, default: &str) -> (r: String)
        ensures
            r@ == self.deep_view().str_field(key@).unwrap_or(default@),
    {
        match self.field(key) {
            Some(Json::Str(s)) => s.clone(),
            _ => default.to_owned(),
        }
    }

    /// Whether the truth value under `key` is `true`.
    pub fn is_true(&self, key: &str) -> (r: bool)
        ensures
            r == (self.deep_view().bool_field(key@) == Some(true)),
    {
        match self.field(key) {
            Some(Json::Bool(b)) => *b,
            _ => false,
        }
    }

    /// The integer under `key`, or zero.
    pub fn int_or_zero(&self, key: &str) -> (r: i64)
        ensures
            r == self.deep_view().int_or_zero(key@),
    {
        match self.field(key) {
            Some(Json::Number { int: Some(n), .. }) => *n,
            _ => 0,
        }
    }

    /// Gives up the object for its field called `key`.
    pub fn take_field(self, key: &str) -> (r: Option<Json>)
        ensures
            r.deep_view() == self.deep_view().field(key@),
    {
        let (r, _) = self.split_field(key);
        r
    }

    /// Takes the field called `key` out of the object; the other fields stay as they were.
    pub fn split_field(self, key: &str) -> (r: (Option<Json>, Json))
        ensures
            r.0.deep_view() == self.deep_view().field(key@),
            forall|other: Seq<char>|
                other != key@ ==> #[trigger] r.1.deep_view().field(other)
                    == self.deep_view().field(other),
    {
        match self {
            Json::Object(fields) => {
                let mut fields = fields;
                let ghost raw = fields@;
                let ghost all = self.deep_view()->Object_0;
                let mut i: usize = 0;
                while i < fields.len()
                    invariant
                        i <= fields.len(),
                        fields@ == raw,
                        self.deep_view() == JsonData::Object(all),
                        Json::Object(fields).deep_view() == JsonData::Object(all),
                        self.deep_view().field(key@) == find_field(all, key@, i as int),
                    decreases fields.len() - i,
                {
                    assert(all[i as int] == (fields@[i as int].0@, fields@[i as int].1.deep_view()));
                    if same_text(fields[i].0.as_str(), key) {
                        let (_, value) = fields.remove(i);
                        proof {
                            let less = Json::Object(fields).deep_view();
                            assert(less->Object_0 =~= all.remove(i as int));
                            assert forall|other: Seq<char>| other != key@ implies
                                #[trigger] less.field(other) == find_field(all, other, 0) by {
                                lemma_find_field_without(all, i as int, other, 0);
                            }
                        }
                        return (Some(value), Json::Object(fields));
                    }
                    i = i + 1;
                }
                (None, Json::Object(fields))
            },
            other => (None, other),
        }
    }
}

proof fn lemma_found_from(fields: Seq<(Seq<char>, JsonData)>, key: Seq<char>, from: int, i: int)
    requires
        0 <= from <= i <= fields.len(),
        forall|j: int| from <= j < i ==> (#[trigger] fields[j]).0 != key,
        i < fields.len() ==> fields[i].0 == key,
    ensures
        find_field(fields, key, from) == (if i < fields.len() {
            Some(fields[i].1)
        } else {
            None
        }),
    decreases i - from,
{
    if from < i {
        assert(fields[from].0 != key);
        lemma_found_from(fields, key, from + 1, i);
    }
}

/// A field of an object is the first that is called so, and there is none only where no field is;
/// nothing but an object has fields.
pub proof fn law_fields_go_by_their_name(
    fields: Seq<(Seq<char>, JsonData)>,
    key: Seq<char>,
    i: int,
    other: JsonData,
)
    requires
        0 <= i <= fields.len(),
        forall|j: int| 0 <= j < i ==> (#[trigger] fields[j]).0 != key,
        i < fields.len() ==> fields[i].0 == key,
        !(other is Object),
    ensures
        i < fields.len() ==> JsonData::Object(fields).field(key) == Some(fields[i].1),
        i == fields.len() ==> JsonData::Object(fields).field(key) is None,
        other.field(key) is None,
{
    lemma_found_from(fields, key, 0, i);
}

/// A text, a truth value or an integer is taken from a field only where the field holds one.
pub proof fn law_fields_are_taken_for_what_they_are(j: JsonData, key: Seq<char>)
    ensures
        j.str_field(key) is Some <==> (j.field(key) matches Some(JsonData::Str(_))),
        j.str_field(key) matches Some(s) ==> j.field(key) == Some(JsonData::Str(s)),
        j.bool_field(key) is Some <==> (j.field(key) matches Some(JsonData::Bool(_))),
        j.bool_field(key) matches Some(b) ==> j.field(key) == Some(JsonData::Bool(b)),
        match j.field(key) {
            Some(JsonData::Number { int: Some(n), .. }) => j.int_or_zero(key) == n,
            _ => j.int_or_zero(key) == 0,
        },
{
}

}
