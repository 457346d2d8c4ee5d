//! JSON documents as the discovery code reads them.

use vstd::prelude::*;

use crate::text;

verus! {

/// A JSON document. Of a number only its value as an unsigned 64-bit integer
/// is kept, where it has one.
#[derive(Debug)]
pub enum Json {
    Null,
    Bool(bool),
    Number(Option<u64>),
    Text(String),
    List(Vec<Json>),
    Object(Vec<(String, Json)>),
}

/// A JSON document as a mathematical value.
pub enum JsonView {
    Null,
    Bool(bool),
    Number(Option<u64>),
    Text(Seq<char>),
    List(Seq<JsonView>),
    Object(Seq<(Seq<char>, JsonView)>),
}

/// The document that a value holds.
pub open spec fn document(j: Json) -> JsonView
    decreases j,
{
    match j {
        Json::Null => JsonView::Null,
        Json::Bool(b) => JsonView::Bool(b),
        Json::Number(n) => JsonView::Number(n),
        Json::Text(s) => JsonView::Text(s@),
        Json::List(items) => JsonView::List(
            Seq::new(
                items@.len(),
                |i: int|
                    if 0 <= i < items@.len() {
                        document(items@[i])
                    } else {
                        JsonView::Null
                    },
            ),
        ),
        Json::Object(fields) => JsonView::Object(
            Seq::new(
                fields@.len(),
                |i: int|
                    if 0 <= i < fields@.len() {
                        (fields@[i].0@, document(fields@[i].1))
                    } else {
                        (Seq::empty(), JsonView::Null)
                    },
            ),
        ),
    }
}

impl View for Json {
    type V = JsonView;

    open spec fn view(&self) -> JsonView {
        document(*self)
    }
}

/// A parsed document as `serde_json` holds it.
#[verifier::external_type_specification]
#[verifier::external_body]
pub struct ExValue(serde_json::Value);

/// What `serde_json` says of a text that is no JSON document.
#[verifier::external_type_specification]
#[verifier::external_body]
pub struct ExError(serde_json::Error);

/// The document that a `serde_json::Value` holds: the values in its arrays in
/// their order, and the entries of its objects in the order in which
/// `serde_json::Map` walks them.
pub uninterp spec fn value_model(v: serde_json::Value) -> JsonView;

/// The document that `serde_json::from_str` reads out of a text; `None` where
/// it reports an error.
pub uninterp spec fn text_document(s: Seq<char>) -> Option<JsonView>;

/// The document that `serde_json::from_slice` reads out of bytes; `None` where
/// it reports an error.
pub uninterp spec fn bytes_document(s: Seq<u8>) -> Option<JsonView>;

/// `serde_json::from_str` for `serde_json::Value`: a document or an error, a
/// function of the text alone.
#[verifier::external_body]
fn value_from_str(s: &str) -> (r: Result<serde_json::Value, serde_json::Error>)
    ensures
        match r {
            Ok(v) => text_document(s@) == Some(value_model(v)),
            Err(_) => text_document(s@) is None,
        },
{
    serde_json::from_str::<serde_json::Value>(s)
}

/// `serde_json::from_slice` for `serde_json::Value`: a document or an error, a
/// function of the bytes alone.
#[verifier::external_body]
fn value_from_slice(s: &[u8]) -> (r: Result<serde_json::Value, serde_json::Error>)
    ensures
        match r {
            Ok(v) => bytes_document(s@) == Some(value_model(v)),
            Err(_) => bytes_document(s@) is None,
        },
{
    serde_json::from_slice::<serde_json::Value>(s)
}

/// The outermost layer of a `serde_json::Value`.
enum Layer {
    Null,
    Bool(bool),
    Number(Option<u64>),
    Text(String),
    List(Vec<serde_json::Value>),
    Object(Vec<(String, serde_json::Value)>),
}

spec fn layer_model(l: Layer) -> JsonView {
    match l {
        Layer::Null => JsonView::Null,
        Layer::Bool(b) => JsonView::Bool(b),
        Layer::Number(n) => JsonView::Number(n),
        Layer::Text(s) => JsonView::Text(s@),
        Layer::List(items) => JsonView::List(
            items@.map_values(|v: serde_json::Value| value_model(v)),
        ),
        Layer::Object(fields) => JsonView::Object(
            fields@.map_values(|f: (String, serde_json::Value)| (f.0@, value_model(f.1))),
        ),
    }
}

/// Tells the variants of a `serde_json::Value` apart and hands out what each
/// holds; of a number what `serde_json::Number::as_u64` gives.
#[verifier::external_body]
fn open_value(v: serde_json::Value) -> (r: Layer)
    ensures
        layer_model(r) == value_model(v),
{
    match v {
        serde_json::Value::Null => Layer::Null,
        serde_json::Value::Bool(b) => Layer::Bool(b),
        serde_json::Value::Number(n) => Layer::Number(n.as_u64()),
        serde_json::Value::String(s) => Layer::Text(s),
        serde_json::Value::Array(items) => Layer::List(items),
        serde_json::Value::Object(fields) => Layer::Object(fields.into_iter().collect()),
    }
}

/// The value of the first field named `key`.
pub open spec fn field(fields: Seq<(Seq<char>, JsonView)>, key: Seq<char>) -> Option<JsonView>
    decreases fields.len(),
{
    if fields.len() == 0 {
        None
    } else if fields[0].0 == key {
        Some(fields[0].1)
    } else {
        field(fields.drop_first(), key)
    }
}

impl JsonView {
    /// The member `key` of an object.
    pub open spec fn member(self, key: Seq<char>) -> Option<JsonView> {
        match self {
            JsonView::Object(fields) => field(fields, key),
            _ => None,
        }
    }

    /// The characters of a string.
    pub open spec fn text(self) -> Option<Seq<char>> {
        match self {
            JsonView::Text(s) => Some(s),
            _ => None,
        }
    }

    /// The elements of an array.
    pub open spec fn elements(self) -> Option<Seq<JsonView>> {
        match self {
            JsonView::List(items) => Some(items),
            _ => None,
        }
    }

    /// The value of an unsigned integer.
    pub open spec fn unsigned(self) -> Option<u64> {
        match self {
            JsonView::Number(n) => n,
            _ => None,
        }
    }

    /// The member `key` of an object, where it is a string.
    pub open spec fn member_text(self, key: Seq<char>) -> Option<Seq<char>> {
        match self.member(key) {
            Some(v) => v.text(),
            None => None,
        }
    }

    /// The member `key` of an object, where it is an array.
    pub open spec fn member_elements(self, key: Seq<char>) -> Option<Seq<JsonView>> {
        match self.member(key) {
            Some(v) => v.elements(),
            None => None,
        }
    }
}

/// The documents that a sequence of documents holds.
pub open spec fn documents(s: Seq<Json>) -> Seq<JsonView> {
    s.map_values(|j: Json| j@)
}

/// The fields that a sequence of named documents holds.
pub open spec fn field_documents(s: Seq<(String, Json)>) -> Seq<(Seq<char>, JsonView)> {
    s.map_values(|f: (String, Json)| (f.0@, f.1@))
}

/// An array holds the documents of its elements.
pub proof fn lemma_list_view(items: Vec<Json>)
    ensures
        Json::List(items)@ == JsonView::List(documents(items@)),
{
    assert(Json::List(items)@->List_0 =~= documents(items@));
}

/// An object holds the documents of its fields.
pub proof fn lemma_object_view(fields: Vec<(String, Json)>)
    ensures
        Json::Object(fields)@ == JsonView::Object(field_documents(fields@)),
{
    assert(Json::Object(fields)@->Object_0 =~= field_documents(fields@));
}

impl Json {
    fn from_value(v: serde_json::Value) -> (r: Json)
        ensures
            r@ == value_model(v),
        decreases value_model(v),
    {
        match open_value(v) {
            Layer::Null => Json::Null,
            Layer::Bool(b) => Json::Bool(b),
            Layer::Number(n) => Json::Number(n),
            Layer::Text(s) => Json::Text(s),
            Layer::List(items) => {
                let mut out: Vec<Json> = Vec::new();
                let ghost model = value_model(v);
                for item in it: items
                    invariant
                        model == value_model(v),
                        model is List,
                        model->List_0 == it.seq().map_values(
                            |v: serde_json::Value| value_model(v),
                        ),
                        out@.len() == it.index(),
                        forall|i: int|
                            0 <= i < out@.len() ==> (#[trigger] out@[i])@ == model->List_0[i],
                {
                    assert(value_model(item) == model->List_0[it.index() as int]);
                    assert(decreases_to!(model => model->List_0));
                    assert(decreases_to!(model->List_0 => model->List_0[it.index() as int]));
                    out.push(Json::from_value(item));
                }
                let r = Json::List(out);
                assert(r@->List_0 =~= model->List_0);
                r
            },
            Layer::Object(fields) => {
                let mut out: Vec<(String, Json)> = Vec::new();
                let ghost model = value_model(v);
                for f in it: fields
                    invariant
                        model == value_model(v),
                        model is Object,
                        model->Object_0 == it.seq().map_values(
                            |f: (String, serde_json::Value)| (f.0@, value_model(f.1)),
                        ),
                        out@.len() == it.index(),
                        forall|i: int|
                            0 <= i < out@.len() ==> ((#[trigger] out@[i]).0@, out@[i].1@)
                                == model->Object_0[i],
                {
                    assert((f.0@, value_model(f.1)) == model->Object_0[it.index() as int]);
                    assert(decreases_to!(model => model->Object_0));
                    assert(decreases_to!(model->Object_0 => model->Object_0[it.index() as int]));
                    assert(decreases_to!(model->Object_0[it.index() as int] => model->Object_0[it.index() as int].1));
                    out.push((f.0, Json::from_value(f.1)));
                }
                let r = Json::Object(out);
                assert(r@->Object_0 =~= model->Object_0);
                r
            },
        }
    }

    /// The document written in a text; `None` where the text is no JSON.
    pub fn from_text(s: &str) -> (r: Option<Json>)
        ensures
            match r {
                Some(j) => text_document(s@) == Some(j@),
                None => text_document(s@) is None,
            },
    {
        match value_from_str(s) {
            Ok(v) => Some(Json::from_value(v)),
            Err(_) => None,
        }
    }

    /// The document written in bytes; `None` where the bytes are no JSON.
    pub fn from_bytes(s: &[u8]) -> (r: Option<Json>)
        ensures
            match r {
                Some(j) => bytes_document(s@) == Some(j@),
                None => bytes_document(s@) is None,
            },
    {
        match value_from_slice(s) {
            Ok(v) => Some(Json::from_value(v)),
            Err(_) => None,
        }
    }

    /// The member `key` of an object.
    pub fn get(&self, key: &str) -> (r: Option<&Json>)
        ensures
            match r {
                Some(j) => self@.member(key@) == Some(j@),
                None => self@.member(key@) is None,
            },
    {
        match self {
            Json::Object(fields) => {
                let ghost model = field_documents(fields@);
                proof {
                    lemma_object_view(*fields);
                    assert(model.skip(0) =~= model);
                }
                for i in 0..fields.len()
                    invariant
                        self@ == JsonView::Object(model),
                        model == field_documents(fields@),
                        field(model, key@) == field(model.skip(i as int), key@),
                {
                    assert(model[i as int] == (fields@[i as int].0@, fields@[i as int].1@));
                    assert(model.skip(i as int).drop_first() =~= model.skip(i + 1));
                    if text::str_eq(fields[i].0.as_str(), key) {
                        return Some(&fields[i].1);
                    }
                }
                None
            },
            _ => None,
        }
    }

    /// The string that the document is.
    pub fn as_str(&self) -> (r: Option<&String>)
        ensures
            match r {
                Some(s) => self@.text() == Some(s@),
                None => self@.text() is None,
            },
    {
        match self {
            Json::Text(s) => Some(s),
            _ => None,
        }
    }

    /// The array that the document is.
    pub fn as_array(&self) -> (r: Option<&Vec<Json>>)
        ensures
            match r {
                Some(items) => self@.elements() == Some(documents(items@)),
                None => self@.elements() is None,
            },
    {
        match self {
            Json::List(items) => {
                proof {
                    lemma_list_view(*items);
                }
                Some(items)
            },
            _ => None,
        }
    }

    /// The unsigned integer that the document is.
    pub fn as_u64(&self) -> (r: Option<u64>)
        ensures
            r == self@.unsigned(),
    {
        match self {
            Json::Number(n) => *n,
            _ => None,
        }
    }

    /// The member `key`, where it is a string.
    pub fn get_str(&self, key: &str) -> (r: Option<&String>)
        ensures
            match r {
                Some(s) => self@.member_text(key@) == Some(s@),
                None => self@.member_text(key@) is None,
            },
    {
        match self.get(key) {
            Some(v) => v.as_str(),
            None => None,
        }
    }

    /// The member `key`, where it is an array.
    pub fn get_array(&self, key: &str) -> (r: Option<&Vec<Json>>)
        ensures
            match r {
                Some(items) => self@.member_elements(key@) == Some(documents(items@)),
                None => self@.member_elements(key@) is None,
            },
    {
        match self.get(key) {
            Some(v) => v.as_array(),
            None => None,
        }
    }
}

} // verus!
