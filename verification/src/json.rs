//! The JSON reader, `serde_json`, as far as the library uses it. A parsed
//! value is carried about and asked for its parts. What it holds is spoken of
//! as a map from paths to leaves: the texts, the whole numbers and the arrays
//! in it, each under the keys and positions that lead to it.
use vstd::prelude::*;

verus! {

#[verifier::external_type_specification]
#[verifier::external_body]
pub struct ExValue(serde_json::Value);

#[verifier::external_type_specification]
#[verifier::external_body]
pub struct ExError(serde_json::Error);

/// One step on the way into a JSON value: into the member of an object with
/// a given key, or into the item of an array at a given position.
pub enum JsonStep {
    Key(Seq<char>),
    Index(int),
}

/// What is found at the end of a way into a JSON value, as far as the
/// library reads it: a text, a whole number from 0 up that fits in 64 bits,
/// or an array of a given length. Nulls, booleans, objects and other numbers
/// are no leaves.
pub enum JsonLeaf {
    Text(Seq<char>),
    Number(u64),
    Array(nat),
}

/// What a JSON value holds: each leaf in it, under the steps that lead to
/// it from the value itself. A value that is itself a leaf holds it under
/// the empty path.
pub uninterp spec fn json_contents(value: serde_json::Value) -> Map<Seq<JsonStep>, JsonLeaf>;

/// What a text holds when read as JSON; `None` where it is no JSON.
pub uninterp spec fn parsed_json(text: Seq<char>) -> Option<Map<Seq<JsonStep>, JsonLeaf>>;

/// The leaf under `path`, if there is one.
pub open spec fn leaf_at(contents: Map<Seq<JsonStep>, JsonLeaf>, path: Seq<JsonStep>) -> Option<
    JsonLeaf,
> {
    if contents.contains_key(path) {
        Some(contents[path])
    } else {
        None
    }
}

/// What is held beyond the step `step`: each leaf whose path begins with that
/// step, under the rest of its path.
pub open spec fn under(contents: Map<Seq<JsonStep>, JsonLeaf>, step: JsonStep) -> Map<
    Seq<JsonStep>,
    JsonLeaf,
> {
    Map::new(
        |path: Seq<JsonStep>| contents.contains_key(seq![step] + path),
        |path: Seq<JsonStep>| contents[seq![step] + path],
    )
}

/// The text under `path`, if a text is there.
pub open spec fn text_at(contents: Map<Seq<JsonStep>, JsonLeaf>, path: Seq<JsonStep>) -> Option<
    Seq<char>,
> {
    match leaf_at(contents, path) {
        Some(JsonLeaf::Text(text)) => Some(text),
        _ => None,
    }
}

/// The whole number under `path`, if one is there.
pub open spec fn number_at(contents: Map<Seq<JsonStep>, JsonLeaf>, path: Seq<JsonStep>) -> Option<
    u64,
> {
    match leaf_at(contents, path) {
        Some(JsonLeaf::Number(n)) => Some(n),
        _ => None,
    }
}

/// The length of the array under `path`, if an array is there.
pub open spec fn array_len_at(contents: Map<Seq<JsonStep>, JsonLeaf>, path: Seq<JsonStep>) -> Option<
    nat,
> {
    match leaf_at(contents, path) {
        Some(JsonLeaf::Array(len)) => Some(len),
        _ => None,
    }
}

/// A leaf beyond a step is the leaf under the longer path.
pub proof fn lemma_leaf_under(
    contents: Map<Seq<JsonStep>, JsonLeaf>,
    step: JsonStep,
    path: Seq<JsonStep>,
)
    ensures
        leaf_at(under(contents, step), path) == leaf_at(contents, seq![step] + path),
{
}

/// `serde_json::from_str`, reading a whole text as one JSON value. What the
/// value holds depends on the text alone, and is known by the name
/// `parsed_json`; a text that is rejected is one that is no JSON.
#[verifier::external_body]
pub(crate) fn parse(text: &str) -> (r: Result<serde_json::Value, serde_json::Error>)
    ensures
        match r {
            Ok(value) => parsed_json(text@) == Some(json_contents(value)),
            Err(_) => parsed_json(text@) is None,
        },
{
    serde_json::from_str(text)
}

/// Indexing a `serde_json::Value` by a key: the member of that name, or a
/// null value where there is none or the value is no object. Either way the
/// result holds what the value holds beyond that key.
#[verifier::external_body]
pub(crate) fn member<'a>(value: &'a serde_json::Value, key: &str) -> (r: &'a serde_json::Value)
    ensures
        json_contents(*r) == under(json_contents(*value), JsonStep::Key(key@)),
{
    &value[key]
}

/// `Value::as_str`: the text of a JSON string, `None` for any other value.
pub assume_specification[ serde_json::Value::as_str ](value: &serde_json::Value) -> (r: Option<
    &str,
>)
    ensures
        match r {
            Some(text) => text_at(json_contents(*value), Seq::empty()) == Some(text@),
            None => text_at(json_contents(*value), Seq::empty()) is None,
        },
;

/// `Value::as_u64`: the number of a JSON integer from 0 up that fits in 64
/// bits, `None` for any other value.
pub assume_specification[ serde_json::Value::as_u64 ](value: &serde_json::Value) -> (r: Option<
    u64,
>)
    ensures
        r == number_at(json_contents(*value), Seq::empty()),
;

/// `Value::as_array`: the items of a JSON array, `None` for any other value.
/// Each item holds what the array holds beyond its position.
pub assume_specification[ serde_json::Value::as_array ](value: &serde_json::Value) -> (r: Option<
    &Vec<serde_json::Value>,
>)
    ensures
        match r {
            Some(items) => {
                &&& array_len_at(json_contents(*value), Seq::empty()) == Some(items@.len())
                &&& forall|i: int|
                    0 <= i < items@.len() ==> json_contents(#[trigger] items@[i]) == under(
                        json_contents(*value),
                        JsonStep::Index(i),
                    )
            },
            None => array_len_at(json_contents(*value), Seq::empty()) is None,
        },
;

/// What a `serde_json::Error` says of itself. Nothing is claimed of the text.
#[verifier::external_body]
pub(crate) fn error_text(error: &serde_json::Error) -> (r: String) {
    error.to_string()
}

} // verus!
