//! Structured values as the store's objects hold them.

use vstd::prelude::*;
use vstd::string::*;

verus! {

/// What a member of an object stands for: its name and its value.
pub struct MemberValue {
    pub name: Seq<char>,
    pub value: JsonValue,
}

/// What a `Json` stands for: the mathematical value, with texts as sequences
/// of characters and a number by its literal.
pub enum JsonValue {
    Null,
    Bool(bool),
    Number(Seq<char>),
    Text(Seq<char>),
    Array(Seq<JsonValue>),
    Object(Seq<MemberValue>),
}

/// A structured value without a fixed schema. A number keeps its literal
/// text, so that nothing is lost between reading and handing on. The members
/// of an object are kept in the order in which the parser hands them out.
#[derive(Debug, PartialEq, Eq)]
pub enum Json {
    Null,
    Bool(bool),
    Number(String),
    Text(String),
    Array(Vec<Json>),
    Object(Vec<(String, Json)>),
}

impl View for Json {
    type V = JsonValue;

    open spec fn view(&self) -> JsonValue
        decreases self,
    {
        match self {
            Json::Null => JsonValue::Null,
            Json::Bool(b) => JsonValue::Bool(*b),
            Json::Number(literal) => JsonValue::Number(literal@),
            Json::Text(text) => JsonValue::Text(text@),
            Json::Array(items) => JsonValue::Array(
                Seq::new(
                    items.len() as nat,
                    |i: int|
                        if 0 <= i < items.len() {
                            items[i]@
                        } else {
                            JsonValue::Null
                        },
                ),
            ),
            Json::Object(members) => JsonValue::Object(
                Seq::new(
                    members.len() as nat,
                    |i: int|
                        if 0 <= i < members.len() {
                            MemberValue { name: members[i].0@, value: members[i].1@ }
                        } else {
                            MemberValue { name: Seq::empty(), value: JsonValue::Null }
                        },
                ),
            ),
        }
    }
}

/// Value of the first member named `key`, if there is one.
pub open spec fn find_member(members: Seq<MemberValue>, key: Seq<char>) -> Option<
    JsonValue,
>
    decreases members.len(),
{
    if members.len() == 0 {
        None
    } else if members[0].name == key {
        Some(members[0].value)
    } else {
        find_member(members.drop_first(), key)
    }
}

impl JsonValue {
    /// The member `key` of an object; `None` for anything but an object and
    /// for an object without such a member.
    pub open spec fn member(self, key: Seq<char>) -> Option<JsonValue> {
        match self {
            JsonValue::Object(members) => find_member(members, key),
            _ => None,
        }
    }

    /// The characters of a text; `None` for anything but a text.
    pub open spec fn as_text(self) -> Option<Seq<char>> {
        match self {
            JsonValue::Text(text) => Some(text),
            _ => None,
        }
    }
}

/// A member before which no member is named `key` is the one that
/// `find_member` finds; where no member is named `key` it finds none.
pub proof fn lemma_find_member(members: Seq<MemberValue>, key: Seq<char>, n: int)
    requires
        0 <= n <= members.len(),
        forall|j: int| 0 <= j < n ==> (#[trigger] members[j]).name != key,
    ensures
        n < members.len() && members[n].name == key ==> find_member(members, key) == Some(
            members[n].value,
        ),
        n == members.len() ==> find_member(members, key) is None,
    decreases n,
{
    if n > 0 {
        let rest = members.drop_first();
        assert forall|j: int| 0 <= j < n - 1 implies (#[trigger] rest[j]).name != key by {
            assert(rest[j] == members[j + 1]);
        }
        lemma_find_member(rest, key, n - 1);
        if n < members.len() {
            assert(rest[n - 1] == members[n]);
        }
    }
}

/// What the view of an object holds, member by member.
pub proof fn lemma_object_view(members: Vec<(String, Json)>)
    ensures
        Json::Object(members)@ is Object,
        Json::Object(members)@->Object_0.len() == members.len(),
        forall|j: int|
            0 <= j < members.len() ==> #[trigger] Json::Object(members)@->Object_0[j] == (
            MemberValue { name: members[j].0@, value: members[j].1@ }),
{
    let model = Seq::new(
        members.len() as nat,
        |i: int|
            if 0 <= i < members.len() {
                MemberValue { name: members[i].0@, value: members[i].1@ }
            } else {
                MemberValue { name: Seq::empty(), value: JsonValue::Null }
            },
    );
    assert(Json::Object(members)@->Object_0 == model);
}

/// What the view of an array holds, item by item.
pub proof fn lemma_array_view(items: Vec<Json>)
    ensures
        Json::Array(items)@ is Array,
        Json::Array(items)@->Array_0.len() == items.len(),
        forall|j: int|
            0 <= j < items.len() ==> #[trigger] Json::Array(items)@->Array_0[j] == items[j]@,
{
    let model = Seq::new(
        items.len() as nat,
        |i: int|
            if 0 <= i < items.len() {
                items[i]@
            } else {
                JsonValue::Null
            },
    );
    assert(Json::Array(items)@->Array_0 == model);
}

impl Json {
    /// The member `key` of an object.
    pub fn get(&self, key: &str) -> (r: Option<&Json>)
        ensures
            match r {
                Some(v) => self@.member(key@) == Some(v@),
                None => self@.member(key@) is None,
            },
    {
        match self {
            Json::Object(members) => {
                let wanted = String::from_str(key);
                let ghost model = self@->Object_0;
                proof {
                    lemma_object_view(*members);
                }
                let mut i: usize = 0;
                while i < members.len()
                    invariant
                        i <= members.len(),
                        wanted@ == key@,
                        self@ == JsonValue::Object(model),
                        model.len() == members.len(),
                        forall|j: int|
                            0 <= j < members.len() ==> #[trigger] model[j] == (MemberValue {
                                name: members[j].0@,
                                value: members[j].1@,
                            }),
                        forall|j: int| 0 <= j < i ==> (#[trigger] model[j]).name != key@,
                    decreases members.len() - i,
                {
                    if members[i].0 == wanted {
                        proof {
                            lemma_find_member(model, key@, i as int);
                        }
                        return Some(&members[i].1);
                    }
                    i = i + 1;
                }
                proof {
                    lemma_find_member(model, key@, i as int);
                }
                None
            },
            _ => None,
        }
    }

    /// The text that a `Text` holds.
    pub fn as_str(&self) -> (r: Option<&str>)
        ensures
            match r {
                Some(text) => self@.as_text() == Some(text@),
                None => self@.as_text() is None,
            },
    {
        match self {
            Json::Text(text) => Some(text.as_str()),
            _ => None,
        }
    }
}

/// What `serde_json::from_str` makes of a text: the value it reads, or
/// `None` where it rejects the text.
pub uninterp spec fn json_parsed(text: Seq<char>) -> Option<JsonValue>;

/// `serde_json::Value`, what the parser builds; opaque to the proofs.
#[verifier::external_type_specification]
#[verifier::external_body]
pub struct ExJsonValue(serde_json::Value);

/// `serde_json::Error`, the error of the parser; opaque to the proofs.
#[verifier::external_type_specification]
#[verifier::external_body]
pub struct ExJsonError(serde_json::Error);

/// Moves a `serde_json::Value` into a `Json`, variant by variant; a number
/// by the text that `serde_json::Number` prints, the members of an object in
/// the order in which `serde_json::Map` hands them out.
#[verifier::external_body]
fn json_of_value(value: serde_json::Value) -> Json {
    match value {
        serde_json::Value::Null => Json::Null,
        serde_json::Value::Bool(b) => Json::Bool(b),
        serde_json::Value::Number(n) => Json::Number(n.to_string()),
        serde_json::Value::String(s) => Json::Text(s),
        serde_json::Value::Array(a) => Json::Array(a.into_iter().map(json_of_value).collect()),
        serde_json::Value::Object(m) => Json::Object(
            m.into_iter().map(|(k, v)| (k, json_of_value(v))).collect(),
        ),
    }
}

/// Calls `serde_json::from_str` for a `serde_json::Value`. The contract
/// gives the outcome its name, `json_parsed`, and claims nothing else of it:
/// the same text is read the same way every time.
#[verifier::external_body]
fn parse_value(text: &str) -> (r: Result<Json, serde_json::Error>)
    ensures
        match r {
            Ok(value) => json_parsed(text@) == Some(value@),
            Err(_) => json_parsed(text@) is None,
        },
{
    serde_json::from_str::<serde_json::Value>(text).map(json_of_value)
}

/// The message of a `serde_json::Error`, as its `Display` prints it.
#[verifier::external_body]
fn json_error_text(error: &serde_json::Error) -> String {
    error.to_string()
}

/// Why a text could not be read as JSON: the parser's own words.
#[derive(Debug, PartialEq, Eq)]
pub struct SyntaxError {
    pub cause: String,
}

/// Reads a JSON text. Succeeds exactly where the parser accepts the text,
/// and then returns the value that the parser read.
pub fn parse(text: &str) -> (r: Result<Json, SyntaxError>)
    ensures
        match r {
            Ok(value) => json_parsed(text@) == Some(value@),
            Err(_) => json_parsed(text@) is None,
        },
{
    match parse_value(text) {
        Ok(value) => Ok(value),
        Err(error) => Err(SyntaxError { cause: json_error_text(&error) }),
    }
}

} // verus!
