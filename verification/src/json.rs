//! JSON documents.

use crate::text::same_text;
use serde_json::{Number, Value};
use vstd::prelude::*;

verus! {

/// A JSON value of the `serde_json` crate.
#[verifier::external_type_specification]
#[verifier::external_body]
pub struct ExValue(Value);

/// A JSON number of the `serde_json` crate.
#[verifier::external_type_specification]
#[verifier::external_body]
pub struct ExNumber(Number);

/// The error of the `serde_json` crate.
#[verifier::external_type_specification]
#[verifier::external_body]
pub struct ExJsonError(serde_json::Error);

/// A JSON value.
#[derive(Debug)]
pub enum JsonValue {
    Null,
    Bool(bool),
    Unsigned(u64),
    Negative(i64),
    Float(Number),
    Text(String),
    Array(Vec<JsonValue>),
    Object(Vec<(String, JsonValue)>),
}

/// A JSON value with its contents as sequences.
pub enum JsonTree {
    Null,
    Bool(bool),
    Unsigned(u64),
    Negative(i64),
    Float(Number),
    Text(Seq<char>),
    Array(Seq<JsonTree>),
    Object(Seq<(Seq<char>, JsonTree)>),
}

impl JsonValue {
    /// The contents as sequences.
    pub open spec fn tree(self) -> JsonTree
        decreases self,
    {
        match self {
            JsonValue::Null => JsonTree::Null,
            JsonValue::Bool(b) => JsonTree::Bool(b),
            JsonValue::Unsigned(n) => JsonTree::Unsigned(n),
            JsonValue::Negative(n) => JsonTree::Negative(n),
            JsonValue::Float(n) => JsonTree::Float(n),
            JsonValue::Text(text) => JsonTree::Text(text@),
            JsonValue::Array(values) => JsonTree::Array(
                Seq::new(
                    values@.len(),
                    |i: int|
                        if 0 <= i < values@.len() {
                            values@[i].tree()
                        } else {
                            JsonTree::Null
                        },
                ),
            ),
            JsonValue::Object(members) => JsonTree::Object(
                Seq::new(
                    members@.len(),
                    |i: int|
                        if 0 <= i < members@.len() {
                            (members@[i].0@, members@[i].1.tree())
                        } else {
                            (Seq::empty(), JsonTree::Null)
                        },
                ),
            ),
        }
    }
}

/// What a `serde_json` value holds.
pub uninterp spec fn json_of(value: Value) -> JsonTree;

/// What each of several `serde_json` values holds.
pub open spec fn json_trees(values: Seq<Value>) -> Seq<JsonTree> {
    values.map_values(|value: Value| json_of(value))
}

/// What the members of an object hold.
pub open spec fn member_trees(members: Seq<(String, Value)>) -> Seq<(Seq<char>, JsonTree)> {
    members.map_values(|member: (String, Value)| (member.0@, json_of(member.1)))
}

/// The outermost layer of a JSON value.
#[derive(Debug)]
pub enum JsonNode {
    Null,
    Bool(bool),
    Unsigned(u64),
    Negative(i64),
    Float(Number),
    Text(String),
    Array(Vec<Value>),
    Object(Vec<(String, Value)>),
}

impl JsonNode {
    /// What the whole value holds.
    pub open spec fn tree(self) -> JsonTree {
        match self {
            JsonNode::Null => JsonTree::Null,
            JsonNode::Bool(b) => JsonTree::Bool(b),
            JsonNode::Unsigned(n) => JsonTree::Unsigned(n),
            JsonNode::Negative(n) => JsonTree::Negative(n),
            JsonNode::Float(n) => JsonTree::Float(n),
            JsonNode::Text(text) => JsonTree::Text(text@),
            JsonNode::Array(values) => JsonTree::Array(json_trees(values@)),
            JsonNode::Object(members) => JsonTree::Object(member_trees(members@)),
        }
    }
}

/// Whether arrays and objects in a value are nested at most `room` deep.
pub open spec fn within_depth(tree: JsonTree, room: nat) -> bool
    decreases tree,
{
    match tree {
        JsonTree::Array(values) => room > 0 && forall|i: int|
            0 <= i < values.len() ==> within_depth(#[trigger] values[i], (room - 1) as nat),
        JsonTree::Object(members) => room > 0 && forall|i: int|
            0 <= i < members.len() ==> within_depth(
                (#[trigger] members[i]).1,
                (room - 1) as nat,
            ),
        _ => true,
    }
}

/// Whether every number in a value is an integer.
pub open spec fn integral(tree: JsonTree) -> bool
    decreases tree,
{
    match tree {
        JsonTree::Float(_) => false,
        JsonTree::Array(values) => forall|i: int|
            0 <= i < values.len() ==> integral(#[trigger] values[i]),
        JsonTree::Object(members) => forall|i: int|
            0 <= i < members.len() ==> integral((#[trigger] members[i]).1),
        _ => true,
    }
}

/// How deep arrays and objects can be nested in a document that `serde_json`
/// accepts.
pub open spec fn depth_limit() -> nat {
    127
}

/// The variants of `serde_json::Value`: the value itself, the elements of an
/// array in order, or the members of an object in the order of the map that
/// holds them. Numbers are told apart by `Number::as_u64` and
/// `Number::as_i64`, which give the value of an integer that is not negative
/// and that of a negative one.
#[verifier::external_body]
pub(crate) fn take_apart(value: Value) -> (node: JsonNode)
    ensures
        node.tree() == json_of(value),
{
    match value {
        Value::Null => JsonNode::Null,
        Value::Bool(b) => JsonNode::Bool(b),
        Value::Number(n) => match (n.as_u64(), n.as_i64()) {
            (Some(integer), _) => JsonNode::Unsigned(integer),
            (None, Some(integer)) => JsonNode::Negative(integer),
            (None, None) => JsonNode::Float(n),
        },
        Value::String(text) => JsonNode::Text(text),
        Value::Array(values) => JsonNode::Array(values),
        Value::Object(members) => JsonNode::Object(members.into_iter().collect()),
    }
}

/// What `serde_json` reads from a document, or nothing if it does not accept
/// the document.
pub uninterp spec fn json_document(bytes: Seq<u8>) -> Option<JsonTree>;

/// `serde_json::from_slice`: the value of a document. The result depends on
/// the bytes alone. Documents that are nested too deep are not accepted.
#[verifier::external_body]
pub(crate) fn parse_document(bytes: &[u8]) -> (value: Result<Value, serde_json::Error>)
    ensures
        match value {
            Ok(value) => json_document(bytes@) == Some(json_of(value)) && within_depth(
                json_of(value),
                depth_limit(),
            ),
            Err(_) => json_document(bytes@) is None,
        },
{
    serde_json::from_slice(bytes)
}

/// How `serde_json` writes a value over several lines, unless it cannot.
pub uninterp spec fn json_pretty(tree: JsonTree) -> Option<Seq<u8>>;

/// `serde_json::to_vec_pretty`, on an object with a single member that holds
/// an array. The result depends on that object alone. `serde_json` reads the
/// same object back from what it wrote, if the object is not nested too deep.
/// This is left unsaid of objects with floating-point numbers, whose last
/// digits may change.
#[verifier::external_body]
pub(crate) fn write_document(name: &str, values: &[Value]) -> (bytes: Result<
    Vec<u8>,
    serde_json::Error,
>)
    ensures
        match bytes {
            Ok(bytes) => json_pretty(array_member(name@, json_trees(values@))) == Some(bytes@),
            Err(_) => json_pretty(array_member(name@, json_trees(values@))) is None,
        },
        bytes matches Ok(bytes) ==> read_back(
            array_member(name@, json_trees(values@)),
            json_document(bytes@),
        ),
{
    let mut members = serde_json::Map::new();
    members.insert(name.to_string(), Value::Array(values.to_vec()));
    serde_json::to_vec_pretty(&Value::Object(members))
}

/// Whether a value that can be read back was read back.
pub open spec fn read_back(tree: JsonTree, document: Option<JsonTree>) -> bool {
    integral(tree) && within_depth(tree, depth_limit()) ==> document == Some(tree)
}

/// An object with a single member that holds an array.
pub open spec fn array_member(name: Seq<char>, values: Seq<JsonTree>) -> JsonTree {
    JsonTree::Object(seq![(name, JsonTree::Array(values))])
}

impl JsonValue {
    /// The library's form of a `serde_json` value.
    pub fn from_value(value: Value) -> (own: JsonValue)
        ensures
            own.tree() == json_of(value),
        decreases json_of(value),
    {
        let ghost whole = json_of(value);
        match take_apart(value) {
            JsonNode::Null => JsonValue::Null,
            JsonNode::Bool(b) => JsonValue::Bool(b),
            JsonNode::Unsigned(n) => JsonValue::Unsigned(n),
            JsonNode::Negative(n) => JsonValue::Negative(n),
            JsonNode::Float(n) => JsonValue::Float(n),
            JsonNode::Text(text) => JsonValue::Text(text),
            JsonNode::Array(values) => {
                let ghost all = values@;
                let mut own: Vec<JsonValue> = Vec::new();
                for element in it: values
                    invariant
                        whole == json_of(value),
                        whole == JsonTree::Array(json_trees(all)),
                        it.seq() == all,
                        own@.len() == it.index(),
                        forall|j: int|
                            0 <= j < own@.len() ==> (#[trigger] own@[j]).tree() == json_of(all[j]),
                {
                    assert(json_trees(all)[it.index() as int] == json_of(element));
                    assert(decreases_to!(whole => whole->Array_0[it.index() as int]));
                    own.push(JsonValue::from_value(element));
                }
                let array = JsonValue::Array(own);
                assert(array.tree()->Array_0 =~= json_trees(all));
                array
            },
            JsonNode::Object(members) => {
                let ghost all = members@;
                let mut own: Vec<(String, JsonValue)> = Vec::new();
                for member in it: members
                    invariant
                        whole == json_of(value),
                        whole == JsonTree::Object(member_trees(all)),
                        it.seq() == all,
                        own@.len() == it.index(),
                        forall|j: int|
                            0 <= j < own@.len() ==> (#[trigger] own@[j]).1.tree() == json_of(
                                all[j].1,
                            ) && own@[j].0@ == all[j].0@,
                {
                    assert(member_trees(all)[it.index() as int] == (member.0@, json_of(member.1)));
                    assert(decreases_to!(whole => whole->Object_0[it.index() as int].1));
                    let (name, held) = member;
                    own.push((name, JsonValue::from_value(held)));
                }
                let object = JsonValue::Object(own);
                assert(object.tree()->Object_0 =~= member_trees(all));
                object
            },
        }
    }

    /// Read a document.
    pub fn parse(bytes: &[u8]) -> (value: Option<JsonValue>)
        ensures
            match value {
                Some(value) => json_document(bytes@) == Some(value.tree()),
                None => json_document(bytes@) is None,
            },
    {
        match parse_document(bytes) {
            Ok(value) => Some(JsonValue::from_value(value)),
            Err(_) => None,
        }
    }
}

/// The position of the first of several names that equals `name`, or -1.
pub open spec fn name_index(names: Seq<Seq<char>>, name: Seq<char>) -> int
    decreases names.len(),
{
    if names.len() == 0 {
        -1
    } else if names[0] == name {
        0
    } else {
        let rest = name_index(names.drop_first(), name);
        if rest < 0 {
            -1
        } else {
            rest + 1
        }
    }
}

/// The names of an object's members.
pub open spec fn member_names(members: Seq<(Seq<char>, JsonTree)>) -> Seq<Seq<char>> {
    members.map_values(|member: (Seq<char>, JsonTree)| member.0)
}

/// The value of the first member with a name.
pub open spec fn member(members: Seq<(Seq<char>, JsonTree)>, name: Seq<char>) -> Option<JsonTree> {
    let i = name_index(member_names(members), name);
    if 0 <= i < members.len() {
        Some(members[i].1)
    } else {
        None
    }
}

/// Find the first member with a name.
pub(crate) fn find_name<V>(members: &[(String, V)], name: &str) -> (found: Option<usize>)
    ensures
        match found {
            Some(i) => i < members@.len() && name_index(
                members@.map_values(|member: (String, V)| member.0@),
                name@,
            ) == i,
            None => name_index(members@.map_values(|member: (String, V)| member.0@), name@) < 0,
        },
{
    let ghost names = members@.map_values(|member: (String, V)| member.0@);
    assert(names.skip(0) == names);
    for i in 0..members.len()
        invariant
            names == members@.map_values(|member: (String, V)| member.0@),
            name_index(names, name@) == (if name_index(names.skip(i as int), name@) < 0 {
                -1
            } else {
                name_index(names.skip(i as int), name@) + i
            }),
    {
        assert(names.skip(i as int).drop_first() == names.skip(i + 1));
        assert(names.skip(i as int)[0] == members@[i as int].0@);
        if same_text(members[i].0.as_str(), name) {
            return Some(i);
        }
    }
    None
}

} // verus!
