//! JSON values.
//!
//! `serde_json` reads and writes JSON text; the library's own [`Json`] holds what
//! was read in a form that can be reasoned about. [`JsonModel`] is the
//! mathematical value of both.

use vstd::prelude::*;

use crate::text::same;

verus! {

/// The type `serde_json::Value`, of which nothing is seen from here.
#[verifier::external_type_specification]
#[verifier::external_body]
pub struct ExValue(serde_json::Value);

/// The type `serde_json::Number`, of which nothing is seen from here.
#[verifier::external_type_specification]
#[verifier::external_body]
pub struct ExNumber(serde_json::Number);

/// A JSON value.
pub enum JsonModel {
    Null,
    Bool(bool),
    /// A number that an `i64` can hold.
    Int(i64),
    /// Any other number.
    Number(serde_json::Number),
    Text(Seq<char>),
    List(Seq<JsonModel>),
    Object(Map<Seq<char>, JsonModel>),
}

/// A JSON value. Where an object lists a name twice, the later entry counts.
pub enum Json {
    Null,
    Bool(bool),
    /// A number that an `i64` can hold.
    Int(i64),
    /// Any other number.
    Number(serde_json::Number),
    Text(String),
    List(Vec<Json>),
    Object(Vec<(String, Json)>),
}

/// The values of a list.
pub open spec fn list_model(items: Seq<Json>) -> Seq<JsonModel>
    decreases items,
{
    Seq::new(
        items.len(),
        |i: int|
            if 0 <= i < items.len() {
                items[i].model()
            } else {
                JsonModel::Null
            },
    )
}

/// The members of an object: the last entry with a name gives its value.
pub open spec fn object_model(entries: Seq<(String, Json)>) -> Map<Seq<char>, JsonModel>
    decreases entries,
{
    if entries.len() == 0 {
        Map::empty()
    } else {
        object_model(entries.drop_last()).insert(entries.last().0@, entries.last().1.model())
    }
}

impl JsonModel {
    /// The member of that name, where this is an object that has one.
    pub open spec fn member(self, name: Seq<char>) -> Option<JsonModel> {
        match self {
            JsonModel::Object(members) => if members.contains_key(name) {
                Some(members[name])
            } else {
                None
            },
            _ => None,
        }
    }

    /// The characters, where this is a string.
    pub open spec fn text(self) -> Option<Seq<char>> {
        match self {
            JsonModel::Text(text) => Some(text),
            _ => None,
        }
    }

    /// The member of that name, where it is a string.
    pub open spec fn member_text(self, name: Seq<char>) -> Option<Seq<char>> {
        match self.member(name) {
            Some(member) => member.text(),
            None => None,
        }
    }
}

impl Json {
    /// The value that this stands for.
    pub open spec fn model(self) -> JsonModel
        decreases self,
    {
        match self {
            Json::Null => JsonModel::Null,
            Json::Bool(b) => JsonModel::Bool(b),
            Json::Int(i) => JsonModel::Int(i),
            Json::Number(n) => JsonModel::Number(n),
            Json::Text(s) => JsonModel::Text(s@),
            Json::List(items) => JsonModel::List(list_model(items@)),
            Json::Object(entries) => JsonModel::Object(object_model(entries@)),
        }
    }

    /// The member of that name, where this is an object that has one.
    pub fn get(&self, name: &str) -> (r: Option<&Json>)
        ensures
            match r {
                Some(member) => self.model().member(name@) == Some(member.model()),
                None => self.model().member(name@) is None,
            },
    {
        match self {
            Json::Object(entries) => {
                let mut n: usize = entries.len();
                assert(entries@.take(n as int) =~= entries@);
                while n > 0
                    invariant
                        n <= entries@.len(),
                        object_model(entries@).contains_key(name@) == object_model(
                            entries@.take(n as int),
                        ).contains_key(name@),
                        object_model(entries@.take(n as int)).contains_key(name@)
                            ==> object_model(entries@)[name@] == object_model(
                            entries@.take(n as int),
                        )[name@],
                        self.model() == JsonModel::Object(object_model(entries@)),
                    decreases n,
                {
                    assert(entries@.take(n as int).drop_last() =~= entries@.take(n - 1));
                    if same(entries[n - 1].0.as_str(), name) {
                        return Some(&entries[n - 1].1);
                    }
                    n -= 1;
                }
                None
            },
            _ => None,
        }
    }

    /// The characters, where this is a string.
    pub fn as_str(&self) -> (r: Option<&str>)
        ensures
            match r {
                Some(s) => self.model().text() == Some(s@),
                None => self.model().text() is None,
            },
    {
        match self {
            Json::Text(s) => Some(s.as_str()),
            _ => None,
        }
    }

    /// The member of that name, where it is a string.
    pub fn get_str(&self, name: &str) -> (r: Option<&str>)
        ensures
            match r {
                Some(s) => self.model().member_text(name@) == Some(s@),
                None => self.model().member_text(name@) is None,
            },
    {
        match self.get(name) {
            Some(member) => member.as_str(),
            None => None,
        }
    }
}

// ------------------------------------------------------- values of serde_json

/// What a value of `serde_json` stands for.
pub uninterp spec fn value_model(value: serde_json::Value) -> JsonModel;

/// What `serde_json::from_slice` makes of some bytes: the value that they write,
/// or the message of the error.
pub uninterp spec fn read_slice(bytes: Seq<u8>) -> Result<JsonModel, Seq<char>>;

/// What `serde_json::from_str` makes of a text: the value that it writes, or the
/// message of the error.
pub uninterp spec fn read_str(text: Seq<char>) -> Result<JsonModel, Seq<char>>;

/// What `serde_json::to_vec` writes for a value: its bytes, or the message of
/// the error.
pub uninterp spec fn written(value: JsonModel) -> Result<Seq<u8>, Seq<char>>;

/// The compact text that the `Display` of `serde_json::Value` gives a value.
pub uninterp spec fn shown(value: JsonModel) -> Seq<char>;

/// The outermost layer of a value of `serde_json`.
pub enum Node {
    Null,
    Bool(bool),
    Int(i64),
    Number(serde_json::Number),
    Text(String),
    List(Vec<serde_json::Value>),
    Object(Vec<(String, serde_json::Value)>),
}

/// The members that a row of entries makes: the last entry with a name counts.
pub open spec fn entries_model(entries: Seq<(String, serde_json::Value)>) -> Map<
    Seq<char>,
    JsonModel,
>
    decreases entries.len(),
{
    if entries.len() == 0 {
        Map::empty()
    } else {
        entries_model(entries.drop_last()).insert(
            entries.last().0@,
            value_model(entries.last().1),
        )
    }
}

/// Whether no two entries have the same name.
pub open spec fn distinct_names(entries: Seq<(String, serde_json::Value)>) -> bool {
    forall|i: int, j: int|
        0 <= i < j < entries.len() ==> (#[trigger] entries[i]).0@ != (#[trigger] entries[j]).0@
}

impl Node {
    /// What the value with this outermost layer stands for.
    pub open spec fn model(self) -> JsonModel {
        match self {
            Node::Null => JsonModel::Null,
            Node::Bool(b) => JsonModel::Bool(b),
            Node::Int(i) => JsonModel::Int(i),
            Node::Number(n) => JsonModel::Number(n),
            Node::Text(s) => JsonModel::Text(s@),
            Node::List(items) => JsonModel::List(
                items@.map_values(|v: serde_json::Value| value_model(v)),
            ),
            Node::Object(entries) => JsonModel::Object(entries_model(entries@)),
        }
    }
}

/// `serde_json::from_slice`, asked for a `Value`: the value that the bytes write,
/// or the text of the error.
#[verifier::external_body]
pub(crate) fn value_from_slice(bytes: &[u8]) -> (r: Result<serde_json::Value, String>)
    ensures
        match r {
            Ok(value) => read_slice(bytes@) == Ok::<JsonModel, Seq<char>>(value_model(value)),
            Err(message) => read_slice(bytes@) == Err::<JsonModel, Seq<char>>(message@),
        },
{
    match serde_json::from_slice::<serde_json::Value>(bytes) {
        Ok(value) => Ok(value),
        Err(error) => Err(error.to_string()),
    }
}

/// `serde_json::from_str`, asked for a `Value`: the value that the text writes,
/// or the text of the error.
#[verifier::external_body]
pub(crate) fn value_from_str(text: &str) -> (r: Result<serde_json::Value, String>)
    ensures
        match r {
            Ok(value) => read_str(text@) == Ok::<JsonModel, Seq<char>>(value_model(value)),
            Err(message) => read_str(text@) == Err::<JsonModel, Seq<char>>(message@),
        },
{
    match serde_json::from_str::<serde_json::Value>(text) {
        Ok(value) => Ok(value),
        Err(error) => Err(error.to_string()),
    }
}

/// `serde_json::to_vec` of a `Value`: the bytes that write it, which depend on
/// nothing but what the value stands for, or the text of the error.
#[verifier::external_body]
pub(crate) fn value_to_vec(value: &serde_json::Value) -> (r: Result<Vec<u8>, String>)
    ensures
        match r {
            Ok(bytes) => written(value_model(*value)) == Ok::<Seq<u8>, Seq<char>>(bytes@),
            Err(message) => written(value_model(*value)) == Err::<Seq<u8>, Seq<char>>(message@),
        },
{
    match serde_json::to_vec(value) {
        Ok(bytes) => Ok(bytes),
        Err(error) => Err(error.to_string()),
    }
}

/// The `Display` of `serde_json::Value`: compact JSON text, which depends on
/// nothing but what the value stands for.
#[verifier::external_body]
pub(crate) fn value_to_string(value: &serde_json::Value) -> (r: String)
    ensures
        r@ == shown(value_model(*value)),
{
    value.to_string()
}

/// The variants of `serde_json::Value`, with `Number::as_i64` telling the numbers
/// that an `i64` can hold from the others. The map of an object has each name
/// once.
#[verifier::external_body]
fn open_value(value: serde_json::Value) -> (r: Node)
    ensures
        r.model() == value_model(value),
        r matches Node::Object(entries) ==> distinct_names(entries@),
{
    match value {
        serde_json::Value::Null => Node::Null,
        serde_json::Value::Bool(b) => Node::Bool(b),
        serde_json::Value::Number(n) => match n.as_i64() {
            Some(i) => Node::Int(i),
            None => Node::Number(n),
        },
        serde_json::Value::String(s) => Node::Text(s),
        serde_json::Value::Array(items) => Node::List(items),
        serde_json::Value::Object(map) => Node::Object(map.into_iter().collect()),
    }
}

/// The variants of `serde_json::Value` put together again. Entries with different
/// names, collected into a `serde_json::Map`, are all in it, each under its name.
#[verifier::external_body]
pub(crate) fn build_value(node: Node) -> (r: serde_json::Value)
    requires
        !(node is Number),
        node matches Node::Object(entries) ==> distinct_names(entries@),
    ensures
        value_model(r) == node.model(),
{
    match node {
        Node::Null => serde_json::Value::Null,
        Node::Bool(b) => serde_json::Value::Bool(b),
        Node::Int(i) => serde_json::Value::from(i),
        Node::Number(n) => serde_json::Value::Number(n),
        Node::Text(s) => serde_json::Value::String(s),
        Node::List(items) => serde_json::Value::Array(items),
        Node::Object(entries) => serde_json::Value::Object(entries.into_iter().collect()),
    }
}

proof fn lemma_entry_is_member(entries: Seq<(String, serde_json::Value)>, i: int)
    requires
        0 <= i < entries.len(),
        distinct_names(entries),
    ensures
        entries_model(entries).dom().finite(),
        entries_model(entries).contains_key(entries[i].0@),
        entries_model(entries)[entries[i].0@] == value_model(entries[i].1),
    decreases entries.len(),
{
    let rest = entries.drop_last();
    if i < rest.len() {
        lemma_entry_is_member(rest, i);
        assert(entries[i].0@ != entries.last().0@);
    } else if rest.len() > 0 {
        lemma_entry_is_member(rest, 0);
    }
    let before = entries_model(rest);
    assert(before.dom().finite());
    assert(entries_model(entries).dom() =~= before.dom().insert(entries.last().0@));
}

/// What a value of `serde_json` stands for, in the library's own type.
pub fn to_json(value: serde_json::Value) -> (r: Json)
    ensures
        r.model() == value_model(value),
    decreases value_model(value),
{
    let ghost whole = value_model(value);
    match open_value(value) {
        Node::Null => Json::Null,
        Node::Bool(b) => Json::Bool(b),
        Node::Int(i) => Json::Int(i),
        Node::Number(n) => Json::Number(n),
        Node::Text(s) => Json::Text(s),
        Node::List(items) => {
            let ghost given = items@;
            let ghost models = given.map_values(|v: serde_json::Value| value_model(v));
            let mut out: Vec<Json> = Vec::new();
            for item in iter: items
                invariant
                    whole == value_model(value),
                    whole == JsonModel::List(models),
                    models == given.map_values(|v: serde_json::Value| value_model(v)),
                    iter.seq() == given,
                    out@.len() == iter.index(),
                    forall|k: int| 0 <= k < out@.len() ==> (#[trigger] out@[k]).model() == models[k],
            {
                proof {
                    assert(value_model(item) == models[iter.index() as int]);
                    assert(decreases_to!(whole => whole->List_0));
                    assert(decreases_to!(models => models[iter.index() as int]));
                }
                out.push(to_json(item));
            }
            assert(list_model(out@) =~= models);
            Json::List(out)
        },
        Node::Object(entries) => {
            let ghost given = entries@;
            let mut out: Vec<(String, Json)> = Vec::new();
            for entry in iter: entries
                invariant
                    whole == value_model(value),
                    whole == JsonModel::Object(entries_model(given)),
                    iter.seq() == given,
                    out@.len() == iter.index(),
                    object_model(out@) == entries_model(given.take(iter.index() as int)),
                    distinct_names(given),
            {
                let ghost k = iter.index() as int;
                let ghost before = out@;
                proof {
                    assert(entry == given[k]);
                    lemma_entry_is_member(given, k);
                    let members = entries_model(given);
                    assert(decreases_to!(whole => whole->Object_0));
                    assert(decreases_to!(members => members[entry.0@]));
                }
                out.push((entry.0, to_json(entry.1)));
                assert(out@.drop_last() =~= before);
                assert(given.take(k + 1).drop_last() =~= given.take(k));
            }
            assert(given.take(given.len() as int) =~= given);
            Json::Object(out)
        },
    }
}

// ------------------------------------------------------------------------ laws

/// A later entry of an object counts over an earlier one of the same name, and touches
/// no other.
pub proof fn lemma_later_entry_counts(
    entries: Seq<(String, Json)>,
    name: String,
    value: Json,
    other: Seq<char>,
)
    ensures
        JsonModel::Object(object_model(entries.push((name, value)))).member(name@) == Some(
            value.model(),
        ),
        other != name@ ==> JsonModel::Object(object_model(entries.push((name, value)))).member(other)
            == JsonModel::Object(object_model(entries)).member(other),
        JsonModel::Object(object_model(seq![])).member(other) is None,
{
    assert(entries.push((name, value)).drop_last() =~= entries);
}

/// A member that is no string has no text, and only an object has members.
pub proof fn lemma_only_strings_are_texts(value: JsonModel, name: Seq<char>)
    ensures
        value.member(name) is Some ==> value is Object,
        value.member_text(name) is Some ==> (value.member(name) matches Some(JsonModel::Text(text))
            && value.member_text(name) == Some(text)),
        value.member(name) matches Some(JsonModel::Text(text)) ==> value.member_text(name) == Some(
            text,
        ),
{
}

} // verus!
