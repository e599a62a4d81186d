//! JSON documents as the decoder reads them.
//!
//! The text is parsed by `serde_json`; the tree that comes out is copied into
//! [`Json`], on which the rest of the library works.

use vstd::prelude::*;

verus! {

/// A JSON number, as far as it is an integer that fits in 64 bits.
#[derive(Debug, Clone, Copy)]
pub struct JsonNumber {
    /// The number as an `i64`, where it is an integer in that range.
    pub signed: Option<i64>,
    /// The number as a `u64`, where it is an integer in that range.
    pub unsigned: Option<u64>,
}

/// A member of a JSON object.
#[derive(Debug)]
pub struct JsonField {
    pub name: String,
    pub value: Json,
}

/// A JSON document.
#[derive(Debug)]
pub enum Json {
    Null,
    Bool(bool),
    Number(JsonNumber),
    Text(String),
    Array(Vec<Json>),
    Object(Vec<JsonField>),
}

/// What a [`Json`] stands for.
pub enum JsonModel {
    Null,
    Bool(bool),
    Number(JsonNumber),
    Text(Seq<char>),
    Array(Seq<JsonModel>),
    Object(Seq<(Seq<char>, JsonModel)>),
}

impl View for JsonField {
    type V = (Seq<char>, JsonModel);

    open spec fn view(&self) -> (Seq<char>, JsonModel) {
        (self.name@, self.value@)
    }
}

impl View for Json {
    type V = JsonModel;

    open spec fn view(&self) -> JsonModel
        decreases self,
    {
        match self {
            Json::Null => JsonModel::Null,
            Json::Bool(flag) => JsonModel::Bool(*flag),
            Json::Number(number) => JsonModel::Number(*number),
            Json::Text(text) => JsonModel::Text(text@),
            Json::Array(items) => JsonModel::Array(
                Seq::new(
                    items@.len(),
                    |i: int|
                        if 0 <= i < items@.len() {
                            items@[i].view()
                        } else {
                            JsonModel::Null
                        },
                ),
            ),
            Json::Object(fields) => JsonModel::Object(
                Seq::new(
                    fields@.len(),
                    |i: int|
                        if 0 <= i < fields@.len() {
                            (fields@[i].name@, fields@[i].value.view())
                        } else {
                            (Seq::empty(), JsonModel::Null)
                        },
                ),
            ),
        }
    }
}

/// The members of an object, each by its view.
pub open spec fn fields_view(fields: Seq<JsonField>) -> Seq<(Seq<char>, JsonModel)> {
    Seq::new(fields.len(), |i: int| fields[i]@)
}

/// The elements of an array, each by its view.
pub open spec fn items_view(items: Seq<Json>) -> Seq<JsonModel> {
    Seq::new(items.len(), |i: int| items[i]@)
}

/// An object stands for its members, each by its view.
pub proof fn lemma_object_view(fields: Vec<JsonField>)
    ensures
        Json::Object(fields)@ == JsonModel::Object(fields_view(fields@)),
{
    reveal_with_fuel(<Json as View>::view, 2);
    assert(Json::Object(fields)@->Object_0 =~= fields_view(fields@));
}

/// An array stands for its elements, each by its view.
pub proof fn lemma_array_view(items: Vec<Json>)
    ensures
        Json::Array(items)@ == JsonModel::Array(items_view(items@)),
{
    reveal_with_fuel(<Json as View>::view, 2);
    assert(Json::Array(items)@->Array_0 =~= items_view(items@));
}

/// The value of the first member named `key`.
pub open spec fn member(fields: Seq<(Seq<char>, JsonModel)>, key: Seq<char>) -> Option<JsonModel>
    decreases fields.len(),
{
    if fields.len() == 0 {
        None
    } else if fields[0].0 == key {
        Some(fields[0].1)
    } else {
        member(fields.skip(1), key)
    }
}

/// `serde_json::Value`, of which nothing is known here but what
/// [`json_tree`] names.
#[verifier::external_type_specification]
#[verifier::external_body]
pub struct ExValue(serde_json::Value);

/// `serde_json::Error`, of which nothing is known here.
#[verifier::external_type_specification]
#[verifier::external_body]
pub struct ExError(serde_json::Error);

/// The document that `serde_json::from_slice` reads from a text, if it reads
/// one.
pub uninterp spec fn json_document(text: Seq<u8>) -> Option<JsonModel>;

/// The document that a `serde_json::Value` holds.
pub uninterp spec fn json_tree(value: serde_json::Value) -> JsonModel;

/// Calls `serde_json::from_slice` for a `serde_json::Value`. The contract
/// claims that whether the text is accepted, and the document read from it,
/// depend on the bytes of the text alone.
#[verifier::external_body]
fn read_value(text: &[u8]) -> (res: Result<serde_json::Value, serde_json::Error>)
    ensures
        match res {
            Ok(value) => json_document(text@) == Some(json_tree(value)),
            Err(_) => json_document(text@) is None,
        },
{
    serde_json::from_slice::<serde_json::Value>(text)
}

/// Copies a `serde_json::Value` into a [`Json`], variant by variant, and the
/// elements of an array and the members of an object in the same way. A
/// number is kept as what `Number::as_i64` and `Number::as_u64` return. The
/// contract claims that the copy stands for what the value holds.
#[verifier::external_body]
fn copy_value(value: serde_json::Value) -> (json: Json)
    ensures
        json@ == json_tree(value),
{
    match value {
        serde_json::Value::Null => Json::Null,
        serde_json::Value::Bool(flag) => Json::Bool(flag),
        serde_json::Value::Number(n) => Json::Number(
            JsonNumber { signed: n.as_i64(), unsigned: n.as_u64() },
        ),
        serde_json::Value::String(text) => Json::Text(text),
        serde_json::Value::Array(items) => Json::Array(items.into_iter().map(copy_value).collect()),
        serde_json::Value::Object(fields) => Json::Object(
            fields.into_iter().map(|(name, value)| JsonField { name, value: copy_value(value) }).collect(),
        ),
    }
}

/// Reads a JSON document from a text.
pub fn parse_json(text: &[u8]) -> (res: Option<Json>)
    ensures
        match res {
            Some(json) => json_document(text@) == Some(json@),
            None => json_document(text@) is None,
        },
{
    match read_value(text) {
        Ok(value) => Some(copy_value(value)),
        Err(_) => None,
    }
}

/// The value of the first member named `key`.
pub fn lookup<'a>(fields: &'a Vec<JsonField>, key: &str) -> (res: Option<&'a Json>)
    ensures
        match res {
            Some(json) => member(fields_view(fields@), key@) == Some(json@),
            None => member(fields_view(fields@), key@) is None,
        },
{
    let wanted: String = key.to_owned();
    let mut at: usize = 0;
    assert(fields_view(fields@).skip(0) =~= fields_view(fields@));
    while at < fields.len()
        invariant
            at <= fields.len(),
            wanted@ == key@,
            member(fields_view(fields@), key@) == member(
                fields_view(fields@).skip(at as int),
                key@,
            ),
        decreases fields.len() - at,
    {
        let ghost rest = fields_view(fields@).skip(at as int);
        assert(rest[0] == fields@[at as int]@);
        assert(rest.skip(1) =~= fields_view(fields@).skip(at + 1));
        if fields[at].name == wanted {
            return Some(&fields[at].value);
        }
        at = at + 1;
    }
    None
}

/// An optional text by its characters.
pub open spec fn text_view(text: Option<String>) -> Option<Seq<char>> {
    match text {
        Some(t) => Some(t@),
        None => None,
    }
}

/// The text of an optional member: absent and `null` are no text, anything
/// but a string is a fault (the outer `None`).
pub open spec fn optional_text(fields: Seq<(Seq<char>, JsonModel)>, key: Seq<char>) -> Option<
    Option<Seq<char>>,
> {
    match member(fields, key) {
        None => Some(None),
        Some(JsonModel::Null) => Some(None),
        Some(JsonModel::Text(text)) => Some(Some(text)),
        Some(_) => None,
    }
}

/// Whether a member is there and is an integer between `lo` and `hi`.
pub open spec fn is_integer_within(value: Option<JsonModel>, lo: int, hi: int) -> bool {
    match value {
        Some(JsonModel::Number(number)) => match number.signed {
            Some(n) => lo <= n <= hi,
            None => false,
        },
        _ => false,
    }
}

/// Whether a member is there and is a string.
pub open spec fn is_text(value: Option<JsonModel>) -> bool {
    value matches Some(JsonModel::Text(_))
}

/// The text of a member that has to be there and to be a string.
pub open spec fn text_member(fields: Seq<(Seq<char>, JsonModel)>, key: Seq<char>) -> Option<
    Seq<char>,
> {
    match member(fields, key) {
        Some(JsonModel::Text(text)) => Some(text),
        _ => None,
    }
}

/// The number of a member that has to be there and to be an integer from 0 to
/// 2^64 - 1.
pub open spec fn unsigned_member(fields: Seq<(Seq<char>, JsonModel)>, key: Seq<char>) -> Option<
    u64,
> {
    match member(fields, key) {
        Some(JsonModel::Number(number)) => number.unsigned,
        _ => None,
    }
}

/// The truth value of a member that has to be there and to be `true` or
/// `false`.
pub open spec fn flag_member(fields: Seq<(Seq<char>, JsonModel)>, key: Seq<char>) -> Option<bool> {
    match member(fields, key) {
        Some(JsonModel::Bool(flag)) => Some(flag),
        _ => None,
    }
}

/// The truth value of an optional member: absent and `null` are none,
/// anything but `true` and `false` is a fault (the outer `None`).
pub open spec fn optional_flag(fields: Seq<(Seq<char>, JsonModel)>, key: Seq<char>) -> Option<
    Option<bool>,
> {
    match member(fields, key) {
        None => Some(None),
        Some(JsonModel::Null) => Some(None),
        Some(JsonModel::Bool(flag)) => Some(Some(flag)),
        Some(_) => None,
    }
}

/// Reads an optional text member.
pub fn optional_text_of(fields: &Vec<JsonField>, key: &str) -> (res: Option<Option<String>>)
    ensures
        match res {
            Some(text) => optional_text(fields_view(fields@), key@) == Some(text_view(text)),
            None => optional_text(fields_view(fields@), key@) is None,
        },
{
    match lookup(fields, key) {
        None => Some(None),
        Some(Json::Null) => Some(None),
        Some(Json::Text(text)) => Some(Some(text.clone())),
        Some(_) => None,
    }
}

/// Tells whether a member is there and is an integer between `lo` and `hi`.
pub fn integer_within(fields: &Vec<JsonField>, key: &str, lo: i64, hi: i64) -> (res: bool)
    ensures
        res == is_integer_within(member(fields_view(fields@), key@), lo as int, hi as int),
{
    match lookup(fields, key) {
        Some(Json::Number(number)) => match number.signed {
            Some(n) => lo <= n && n <= hi,
            None => false,
        },
        _ => false,
    }
}

/// Reads a member that has to be there and to be a string.
pub fn text_member_of(fields: &Vec<JsonField>, key: &str) -> (res: Option<String>)
    ensures
        text_view(res) == text_member(fields_view(fields@), key@),
{
    match lookup(fields, key) {
        Some(Json::Text(text)) => Some(text.clone()),
        _ => None,
    }
}

/// Reads a member that has to be there and to be an integer from 0 to
/// 2^64 - 1.
pub fn unsigned_member_of(fields: &Vec<JsonField>, key: &str) -> (res: Option<u64>)
    ensures
        res == unsigned_member(fields_view(fields@), key@),
{
    match lookup(fields, key) {
        Some(Json::Number(number)) => number.unsigned,
        _ => None,
    }
}

/// Reads a member that has to be there and to be `true` or `false`.
pub fn flag_member_of(fields: &Vec<JsonField>, key: &str) -> (res: Option<bool>)
    ensures
        res == flag_member(fields_view(fields@), key@),
{
    match lookup(fields, key) {
        Some(Json::Bool(flag)) => Some(*flag),
        _ => None,
    }
}

/// Reads an optional member that is `true` or `false` where it is there.
pub fn optional_flag_of(fields: &Vec<JsonField>, key: &str) -> (res: Option<Option<bool>>)
    ensures
        res == optional_flag(fields_view(fields@), key@),
{
    match lookup(fields, key) {
        None => Some(None),
        Some(Json::Null) => Some(None),
        Some(Json::Bool(flag)) => Some(Some(*flag)),
        Some(_) => None,
    }
}

/// The members of the object that a text holds, if it holds an object.
pub open spec fn object_of(text: Seq<u8>) -> Option<Seq<(Seq<char>, JsonModel)>> {
    match json_document(text) {
        Some(JsonModel::Object(fields)) => Some(fields),
        _ => None,
    }
}

/// Reads a JSON object from a text.
pub fn parse_object(text: &[u8]) -> (res: Option<Vec<JsonField>>)
    ensures
        match res {
            Some(fields) => object_of(text@) == Some(fields_view(fields@)),
            None => object_of(text@) is None,
        },
{
    match parse_json(text) {
        Some(Json::Object(fields)) => {
            proof {
                lemma_object_view(fields);
            }
            Some(fields)
        },
        _ => None,
    }
}

} // verus!
