use vstd::prelude::*;
use crate::numeric::{parse_signed, parse_unsigned, signed_of, unsigned_of};
use crate::text::str_eq;

verus! {

/// A JSON value. A number is kept as text, with the digits that were
/// written for it.
#[derive(Debug)]
pub enum Json {
    Null,
    Bool(bool),
    Number(String),
    Str(String),
    Array(Vec<Json>),
    Object(Vec<(String, Json)>),
}

/// The content of a JSON value.
pub enum JsonModel {
    Null,
    Bool(bool),
    Number(Seq<char>),
    Str(Seq<char>),
    Array(Seq<JsonModel>),
    Object(Seq<(Seq<char>, JsonModel)>),
}

/// The content of a value.
pub open spec fn json_model(j: Json) -> JsonModel
    decreases j,
{
    match j {
        Json::Null => JsonModel::Null,
        Json::Bool(b) => JsonModel::Bool(b),
        Json::Number(n) => JsonModel::Number(n@),
        Json::Str(s) => JsonModel::Str(s@),
        Json::Array(items) => JsonModel::Array(
            Seq::new(
                items@.len(),
                |i: int|
                    if 0 <= i < items@.len() {
                        json_model(items@[i])
                    } else {
                        JsonModel::Null
                    },
            ),
        ),
        Json::Object(members) => JsonModel::Object(
            Seq::new(
                members@.len(),
                |i: int|
                    if 0 <= i < members@.len() {
                        (members@[i].0@, json_model(members@[i].1))
                    } else {
                        (Seq::empty(), JsonModel::Null)
                    },
            ),
        ),
    }
}

impl View for Json {
    type V = JsonModel;

    open spec fn view(&self) -> JsonModel {
        json_model(*self)
    }
}

/// The contents of a list of values.
pub open spec fn models(items: Seq<Json>) -> Seq<JsonModel> {
    Seq::new(items.len(), |i: int| items[i]@)
}

/// Keys and contents of the members of an object.
pub open spec fn member_models(members: Seq<(String, Json)>) -> Seq<(Seq<char>, JsonModel)> {
    Seq::new(members.len(), |i: int| (members[i].0@, members[i].1@))
}

/// The content of an array is the list of the contents of its elements.
pub proof fn lemma_array_model(items: Vec<Json>)
    ensures
        Json::Array(items)@ == JsonModel::Array(models(items@)),
{
    assert(Json::Array(items)@->Array_0 =~= models(items@));
}

/// The content of an object is the list of its keys with the contents of
/// their values.
pub proof fn lemma_object_model(members: Vec<(String, Json)>)
    ensures
        Json::Object(members)@ == JsonModel::Object(member_models(members@)),
{
    assert(Json::Object(members)@->Object_0 =~= member_models(members@));
}

/// `serde_json::Value`, in which `serde_json` holds a document.
#[verifier::external_type_specification]
#[verifier::external_body]
pub struct ExJsonValue(serde_json::Value);

/// `serde_json::Error`, which says why a text is no document.
#[verifier::external_type_specification]
#[verifier::external_body]
pub struct ExJsonError(serde_json::Error);

/// The content of the value that `serde_json::from_str` reads from a text,
/// or `None` where it reports an error.
pub uninterp spec fn json_document(text: Seq<char>) -> Option<JsonModel>;

/// The text that `serde_json::to_string` writes for a value of the given
/// content, the empty text where it reports an error.
pub uninterp spec fn json_text(value: JsonModel) -> Seq<char>;

/// Turns a `serde_json::Value` into a [`Json`], variant by variant: a
/// number by `Number::to_string`, the members of an object in the order in
/// which the map holds them.
#[verifier::external_body]
fn json_from_value(v: serde_json::Value) -> (r: Json) {
    match v {
        serde_json::Value::Null => Json::Null,
        serde_json::Value::Bool(b) => Json::Bool(b),
        serde_json::Value::Number(n) => Json::Number(n.to_string()),
        serde_json::Value::String(s) => Json::Str(s),
        serde_json::Value::Array(a) => Json::Array(a.into_iter().map(json_from_value).collect()),
        serde_json::Value::Object(o) => Json::Object(
            o.into_iter().map(|(k, v)| (k, json_from_value(v))).collect(),
        ),
    }
}

/// Reads a JSON text with `serde_json::from_str`. The contract names the
/// content of the value read; nothing is proved of it.
#[verifier::external_body]
pub(crate) fn json_from_str(raw: &str) -> (r: Result<Json, serde_json::Error>)
    ensures
        json_document(raw@) == match r {
            Ok(j) => Some(j@),
            Err(_) => None,
        },
{
    serde_json::from_str::<serde_json::Value>(raw).map(json_from_value)
}

/// Turns a [`Json`] into a `serde_json::Value`, variant by variant: a
/// number by `str::parse`, with null where the text is no number.
#[verifier::external_body]
fn value_from_json(j: &Json) -> (r: serde_json::Value) {
    match j {
        Json::Null => serde_json::Value::Null,
        Json::Bool(b) => serde_json::Value::Bool(*b),
        Json::Number(n) => n.parse().map_or(serde_json::Value::Null, serde_json::Value::Number),
        Json::Str(s) => serde_json::Value::String(s.clone()),
        Json::Array(a) => serde_json::Value::Array(a.iter().map(value_from_json).collect()),
        Json::Object(o) => serde_json::Value::Object(
            o.iter().map(|(k, v)| (k.clone(), value_from_json(v))).collect(),
        ),
    }
}

/// Writes a value as compact JSON text with `serde_json::to_string`. The
/// contract names the text written; nothing is proved of it.
#[verifier::external_body]
pub(crate) fn json_to_string(j: &Json) -> (r: String)
    ensures
        r@ == json_text(j@),
{
    serde_json::to_string(&value_from_json(j)).unwrap_or_default()
}

/// Reads a JSON text. A text that is no JSON document gives nothing.
pub fn parse_json(raw: &str) -> (r: Option<Json>)
    ensures
        json_document(raw@) == match r {
            Some(j) => Some(j@),
            None => None,
        },
{
    match json_from_str(raw) {
        Ok(j) => Some(j),
        Err(_) => None,
    }
}

/// Writes a value as compact JSON text.
pub fn write_json(j: &Json) -> (r: String)
    ensures
        r@ == json_text(j@),
{
    json_to_string(j)
}

/// The member `key` among the members of an object, the first where
/// several have the key.
pub open spec fn lookup(members: Seq<(Seq<char>, JsonModel)>, key: Seq<char>) -> Option<JsonModel>
    decreases members.len(),
{
    if members.len() == 0 {
        None
    } else if members[0].0 == key {
        Some(members[0].1)
    } else {
        lookup(members.drop_first(), key)
    }
}

/// The member `key` of an object; `None` for other values.
pub open spec fn json_member(j: JsonModel, key: Seq<char>) -> Option<JsonModel> {
    match j {
        JsonModel::Object(members) => lookup(members, key),
        _ => None,
    }
}

/// The element `i` of an array; `None` for other values.
pub open spec fn json_element(j: JsonModel, i: int) -> Option<JsonModel> {
    match j {
        JsonModel::Array(items) => if 0 <= i < items.len() {
            Some(items[i])
        } else {
            None
        },
        _ => None,
    }
}

/// The text of a string value.
pub open spec fn json_string(j: JsonModel) -> Option<Seq<char>> {
    match j {
        JsonModel::Str(s) => Some(s),
        _ => None,
    }
}

/// The text of a number value.
pub open spec fn json_number(j: JsonModel) -> Option<Seq<char>> {
    match j {
        JsonModel::Number(s) => Some(s),
        _ => None,
    }
}

/// The truth value of a boolean value.
pub open spec fn json_bool(j: JsonModel) -> Option<bool> {
    match j {
        JsonModel::Bool(b) => Some(b),
        _ => None,
    }
}

/// The elements of an array value.
pub open spec fn json_items(j: JsonModel) -> Option<Seq<JsonModel>> {
    match j {
        JsonModel::Array(items) => Some(items),
        _ => None,
    }
}

/// The text of the string member `key`.
pub open spec fn member_string(j: JsonModel, key: Seq<char>) -> Option<Seq<char>> {
    match json_member(j, key) {
        Some(v) => json_string(v),
        None => None,
    }
}

/// The text of the number member `key`.
pub open spec fn member_number(j: JsonModel, key: Seq<char>) -> Option<Seq<char>> {
    match json_member(j, key) {
        Some(v) => json_number(v),
        None => None,
    }
}

/// The elements of the array member `key`.
pub open spec fn member_items(j: JsonModel, key: Seq<char>) -> Option<Seq<JsonModel>> {
    match json_member(j, key) {
        Some(v) => json_items(v),
        None => None,
    }
}

/// The value of the member `key` that is an unsigned integer.
pub open spec fn member_unsigned(j: JsonModel, key: Seq<char>) -> Option<u64> {
    match member_number(j, key) {
        Some(s) => unsigned_of(s),
        None => None,
    }
}

/// The value of the member `key` that is a signed integer.
pub open spec fn member_signed(j: JsonModel, key: Seq<char>) -> Option<i64> {
    match member_number(j, key) {
        Some(s) => signed_of(s),
        None => None,
    }
}

/// The truth value of the boolean member `key`.
pub open spec fn member_bool(j: JsonModel, key: Seq<char>) -> Option<bool> {
    match json_member(j, key) {
        Some(v) => json_bool(v),
        None => None,
    }
}

/// The array of the strings `ts`.
pub open spec fn string_array(ts: Seq<Seq<char>>) -> JsonModel {
    JsonModel::Array(Seq::new(ts.len(), |i: int| JsonModel::Str(ts[i])))
}

/// The text behind an optional string slice.
pub open spec fn opt_text(o: Option<&str>) -> Option<Seq<char>> {
    match o {
        Some(s) => Some(s@),
        None => None,
    }
}

/// The contents behind an optional list of values.
pub open spec fn opt_items(o: Option<&Vec<Json>>) -> Option<Seq<JsonModel>> {
    match o {
        Some(v) => Some(models(v@)),
        None => None,
    }
}

/// The content behind an optional value.
pub open spec fn opt_model(o: Option<&Json>) -> Option<JsonModel> {
    match o {
        Some(v) => Some(v@),
        None => None,
    }
}

impl Json {
    /// An object of the given members, in their order.
    pub fn object(members: Vec<(String, Json)>) -> (r: Json)
        ensures
            r@ == JsonModel::Object(member_models(members@)),
    {
        proof {
            lemma_object_model(members);
        }
        Json::Object(members)
    }

    /// An array of the given elements.
    pub fn array(items: Vec<Json>) -> (r: Json)
        ensures
            r@ == JsonModel::Array(models(items@)),
    {
        proof {
            lemma_array_model(items);
        }
        Json::Array(items)
    }

    /// The member `key` of an object.
    pub fn get(&self, key: &str) -> (r: Option<&Json>)
        ensures
            opt_model(r) == json_member(self@, key@),
    {
        match self {
            Json::Object(members) => {
                let ghost all = member_models(members@);
                let mut i: usize = 0;
                proof {
                    lemma_object_model(*members);
                    assert(all.skip(0) == all);
                }
                while i < members.len()
                    invariant
                        i <= members.len(),
                        all == member_models(members@),
                        self@ == JsonModel::Object(all),
                        lookup(all, key@) == lookup(all.skip(i as int), key@),
                    decreases members.len() - i,
                {
                    proof {
                        assert(all.skip(i as int).drop_first() == all.skip(i as int + 1));
                        assert(all.skip(i as int)[0] == all[i as int]);
                    }
                    if str_eq(members[i].0.as_str(), key) {
                        return Some(&members[i].1);
                    }
                    i += 1;
                }
                None
            },
            _ => None,
        }
    }

    /// The element `i` of an array.
    pub fn at(&self, i: usize) -> (r: Option<&Json>)
        ensures
            opt_model(r) == json_element(self@, i as int),
    {
        match self {
            Json::Array(items) => {
                proof {
                    lemma_array_model(*items);
                }
                if i < items.len() {
                    Some(&items[i])
                } else {
                    None
                }
            },
            _ => None,
        }
    }

    /// The text of a string value.
    pub fn as_str(&self) -> (r: Option<&str>)
        ensures
            opt_text(r) == json_string(self@),
    {
        match self {
            Json::Str(s) => Some(s.as_str()),
            _ => None,
        }
    }

    /// The text of a number value.
    pub fn as_number(&self) -> (r: Option<&str>)
        ensures
            opt_text(r) == json_number(self@),
    {
        match self {
            Json::Number(s) => Some(s.as_str()),
            _ => None,
        }
    }

/// The truth value of a boolean value.
    pub fn as_bool(&self) -> (r: Option<bool>)
        ensures
            r == json_bool(self@),
    {
        match self {
            Json::Bool(b) => Some(*b),
            _ => None,
        }
    }

    /// The elements of an array value.
    pub fn as_array(&self) -> (r: Option<&Vec<Json>>)
        ensures
            opt_items(r) == json_items(self@),
    {
        match self {
            Json::Array(items) => {
                proof {
                    lemma_array_model(*items);
                }
                Some(items)
            },
            _ => None,
        }
    }

    /// The value of a number that is an unsigned integer of 64 bits.
    pub fn as_u64(&self) -> (r: Option<u64>)
        ensures
            r == match json_number(self@) {
                Some(s) => unsigned_of(s),
                None => None,
            },
    {
        match self {
            Json::Number(s) => parse_unsigned(s.as_str()),
            _ => None,
        }
    }

    /// The value of a number that is a signed integer of 64 bits.
    pub fn as_i64(&self) -> (r: Option<i64>)
        ensures
            r == match json_number(self@) {
                Some(s) => signed_of(s),
                None => None,
            },
    {
        match self {
            Json::Number(s) => parse_signed(s.as_str()),
            _ => None,
        }
    }

    /// The text of the string member `key`.
    pub fn get_str(&self, key: &str) -> (r: Option<&str>)
        ensures
            opt_text(r) == member_string(self@, key@),
    {
        match self.get(key) {
            Some(v) => v.as_str(),
            None => None,
        }
    }

    /// The text of the number member `key`.
    pub fn get_number(&self, key: &str) -> (r: Option<&str>)
        ensures
            opt_text(r) == member_number(self@, key@),
    {
        match self.get(key) {
            Some(v) => v.as_number(),
            None => None,
        }
    }

    /// The elements of the array member `key`.
    pub fn get_array(&self, key: &str) -> (r: Option<&Vec<Json>>)
        ensures
            opt_items(r) == member_items(self@, key@),
    {
        match self.get(key) {
            Some(v) => v.as_array(),
            None => None,
        }
    }

    /// The value of the member `key` that is an unsigned integer.
    pub fn get_u64(&self, key: &str) -> (r: Option<u64>)
        ensures
            r == member_unsigned(self@, key@),
    {
        match self.get(key) {
            Some(v) => v.as_u64(),
            None => None,
        }
    }

    /// The value of the member `key` that is a signed integer.
    pub fn get_i64(&self, key: &str) -> (r: Option<i64>)
        ensures
            r == member_signed(self@, key@),
    {
        match self.get(key) {
            Some(v) => v.as_i64(),
            None => None,
        }
    }

/// The truth value of the boolean member `key`.
    pub fn get_bool(&self, key: &str) -> (r: Option<bool>)
        ensures
            r == member_bool(self@, key@),
    {
        match self.get(key) {
            Some(v) => v.as_bool(),
            None => None,
        }
    }
}

/// The array of the strings `ts`.
pub fn text_array(ts: &Vec<String>) -> (r: Json)
    ensures
        r@ == string_array(Seq::new(ts@.len(), |i: int| ts@[i]@)),
{
    let mut items: Vec<Json> = Vec::new();
    let mut i: usize = 0;
    while i < ts.len()
        invariant
            i <= ts.len(),
            items@.len() == i,
            forall|k: int| 0 <= k < i ==> (#[trigger] items@[k])@ == JsonModel::Str(ts@[k]@),
        decreases ts.len() - i,
    {
        items.push(Json::Str(ts[i].clone()));
        i += 1;
    }
    proof {
        assert(models(items@) =~= string_array(Seq::new(ts@.len(), |i: int| ts@[i]@))->Array_0);
    }
    Json::array(items)
}

} // verus!
