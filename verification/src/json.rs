//! JSON documents as trees of plain values, and the reading of fields out of
//! them.

use crate::error::Error;
use crate::string_map::StringMap;
use vstd::prelude::*;

verus! {

/// What a JSON value stands for.
pub enum JsonView {
    Null,
    Bool(bool),
    Number(Seq<char>),
    Text(Seq<char>),
    Array(Seq<JsonView>),
    Object(Seq<(Seq<char>, JsonView)>),
}

/// A JSON value. A number is kept as text; the fields of an object are kept in
/// a list, and where a name occurs twice the later field counts.
#[derive(Debug)]
pub enum Json {
    Null,
    Bool(bool),
    Number(String),
    Text(String),
    Array(Vec<Json>),
    Object(Vec<(String, Json)>),
}

/// What a JSON value stands for.
pub open spec fn content(j: Json) -> JsonView
    decreases j,
{
    match j {
        Json::Null => JsonView::Null,
        Json::Bool(b) => JsonView::Bool(b),
        Json::Number(n) => JsonView::Number(n@),
        Json::Text(s) => JsonView::Text(s@),
        Json::Array(items) => JsonView::Array(
            Seq::new(
                items@.len(),
                |i: int|
                    if 0 <= i < items@.len() {
                        content(items@[i])
                    } else {
                        JsonView::Null
                    },
            ),
        ),
        Json::Object(fields) => JsonView::Object(
            Seq::new(
                fields@.len(),
                |i: int|
                    if 0 <= i < fields@.len() {
                        (fields@[i].0@, content(fields@[i].1))
                    } else {
                        (Seq::empty(), JsonView::Null)
                    },
            ),
        ),
    }
}

impl DeepView for Json {
    type V = JsonView;

    open spec fn deep_view(&self) -> JsonView {
        content(*self)
    }
}

/// The JSON document that a text holds, as `serde_json` reads it; `None` where
/// the text is not JSON.
pub uninterp spec fn json_document(text: Seq<char>) -> Option<JsonView>;

/// What a value of `serde_json` holds.
pub uninterp spec fn value_content(value: serde_json::Value) -> JsonView;

/// `serde_json::Value`, carried from the parser to where it is taken apart;
/// nothing is known of what is inside but through `value_content`.
#[verifier::external_type_specification]
#[verifier::external_body]
pub struct ExValue(serde_json::Value);

/// `serde_json::from_str` at the type `serde_json::Value`: the value that the
/// text holds, or nothing where it reports an error because the text is not
/// JSON. What it reads depends on the text alone.
#[verifier::external_body]
fn parse_value(text: &str) -> (r: Option<serde_json::Value>)
    ensures
        json_document(text@) == match r {
            Some(value) => Some(value_content(value)),
            None => None,
        },
{
    serde_json::from_str::<serde_json::Value>(text).ok()
}

/// One level of a `serde_json::Value`: what kind of value it is and what it
/// holds directly.
enum Parts {
    Null,
    Bool(bool),
    Number(String),
    Text(String),
    Array(Vec<serde_json::Value>),
    Object(Vec<(String, serde_json::Value)>),
}

/// What the items of an array hold.
spec fn values_content(items: Seq<serde_json::Value>) -> Seq<JsonView> {
    Seq::new(items.len(), |i: int| value_content(items[i]))
}

/// What the fields of an object hold.
spec fn members_content(fields: Seq<(String, serde_json::Value)>) -> Seq<(Seq<char>, JsonView)> {
    Seq::new(fields.len(), |i: int| (fields[i].0@, value_content(fields[i].1)))
}

/// What one level of a value holds.
spec fn parts_content(parts: Parts) -> JsonView {
    match parts {
        Parts::Null => JsonView::Null,
        Parts::Bool(b) => JsonView::Bool(b),
        Parts::Number(n) => JsonView::Number(n@),
        Parts::Text(s) => JsonView::Text(s@),
        Parts::Array(items) => JsonView::Array(values_content(items@)),
        Parts::Object(fields) => JsonView::Object(members_content(fields@)),
    }
}

/// Tells the variants of a `serde_json::Value` apart and moves out what the
/// value holds: a boolean, a text, the items of an array or the fields of an
/// object in the order in which its map hands them out. A number is handed
/// over as its `to_string` prints it.
#[verifier::external_body]
fn take_apart(value: serde_json::Value) -> (r: Parts)
    ensures
        parts_content(r) == value_content(value),
{
    match value {
        serde_json::Value::Null => Parts::Null,
        serde_json::Value::Bool(b) => Parts::Bool(b),
        serde_json::Value::Number(n) => Parts::Number(n.to_string()),
        serde_json::Value::String(s) => Parts::Text(s),
        serde_json::Value::Array(items) => Parts::Array(items),
        serde_json::Value::Object(fields) => Parts::Object(fields.into_iter().collect()),
    }
}

/// The items of `list` in reverse order.
fn reversed<T>(list: Vec<T>) -> (r: Vec<T>)
    ensures
        r@ == list@.reverse(),
{
    let ghost all = list@;
    let mut list = list;
    let mut out: Vec<T> = Vec::new();
    while list.len() > 0
        invariant
            list@ == all.take(list.len() as int),
            out.len() + list.len() == all.len(),
            forall|k: int| 0 <= k < out.len() ==> out@[k] == all[all.len() - 1 - k],
        decreases list.len(),
    {
        let ghost n = list.len() as int;
        let item = list.pop().unwrap();
        proof {
            assert(item == all.take(n)[n - 1]);
            assert(list@ =~= all.take(n - 1));
        }
        out.push(item);
    }
    proof {
        assert(out@ =~= all.reverse());
    }
    out
}

/// The tree that holds what a `serde_json::Value` holds.
fn json_of_value(value: serde_json::Value) -> (r: Json)
    ensures
        r.deep_view() == value_content(value),
    decreases value_content(value),
{
    let ghost whole = value_content(value);
    match take_apart(value) {
        Parts::Null => Json::Null,
        Parts::Bool(b) => Json::Bool(b),
        Parts::Number(n) => Json::Number(n),
        Parts::Text(s) => Json::Text(s),
        Parts::Array(items) => {
            let ghost all = items@;
            let mut items = items;
            let mut back: Vec<Json> = Vec::new();
            while items.len() > 0
                invariant
                    whole == value_content(value),
                    whole == JsonView::Array(values_content(all)),
                    items@ == all.take(items.len() as int),
                    back.len() + items.len() == all.len(),
                    forall|k: int|
                        0 <= k < back.len() ==> content(#[trigger] back@[k]) == value_content(
                            all[all.len() - 1 - k],
                        ),
                decreases items.len(),
            {
                let ghost n = items.len() as int;
                let item = items.pop().unwrap();
                proof {
                    assert(item == all.take(n)[n - 1]);
                    assert(items@ =~= all.take(n - 1));
                    assert(values_content(all)[n - 1] == value_content(item));
                    assert(decreases_to!(whole => whole->Array_0));
                    assert(decreases_to!(whole->Array_0 => whole->Array_0[n - 1]));
                }
                let converted = json_of_value(item);
                back.push(converted);
            }
            let out = reversed(back);
            proof {
                assert(items_view(out@) =~= values_content(all));
                assert(content(Json::Array(out))->Array_0 =~= items_view(out@));
            }
            Json::Array(out)
        },
        Parts::Object(fields) => {
            let ghost all = fields@;
            let mut fields = fields;
            let mut back: Vec<(String, Json)> = Vec::new();
            while fields.len() > 0
                invariant
                    whole == value_content(value),
                    whole == JsonView::Object(members_content(all)),
                    fields@ == all.take(fields.len() as int),
                    back.len() + fields.len() == all.len(),
                    forall|k: int|
                        0 <= k < back.len() ==> (#[trigger] back@[k]).0@ == all[all.len() - 1
                            - k].0@ && content(back@[k].1) == value_content(
                            all[all.len() - 1 - k].1,
                        ),
                decreases fields.len(),
            {
                let ghost n = fields.len() as int;
                let (name, item) = fields.pop().unwrap();
                proof {
                    assert((name, item) == all.take(n)[n - 1]);
                    assert(fields@ =~= all.take(n - 1));
                    assert(members_content(all)[n - 1] == (name@, value_content(item)));
                    assert(decreases_to!(whole => whole->Object_0));
                    assert(decreases_to!(whole->Object_0 => whole->Object_0[n - 1]));
                    assert(decreases_to!(whole->Object_0[n - 1] => whole->Object_0[n - 1].1));
                }
                let converted = json_of_value(item);
                back.push((name, converted));
            }
            let out = reversed(back);
            proof {
                assert(fields_view(out@) =~= members_content(all));
                assert(content(Json::Object(out))->Object_0 =~= fields_view(out@));
            }
            Json::Object(out)
        },
    }
}

/// A value that does not have the shape that was asked for.
#[derive(Clone, Copy, Debug, PartialEq, Eq, Structural)]
pub struct Mismatch {}

/// The value of the last field named `name`.
pub open spec fn lookup(fields: Seq<(Seq<char>, JsonView)>, name: Seq<char>) -> Option<JsonView>
    decreases fields.len(),
{
    if fields.len() == 0 {
        None
    } else if fields.last().0 == name {
        Some(fields.last().1)
    } else {
        lookup(fields.drop_last(), name)
    }
}

/// The field `name` of an object; `None` for anything else and for an object
/// without that field.
pub open spec fn field_of(doc: JsonView, name: Seq<char>) -> Option<JsonView> {
    match doc {
        JsonView::Object(fields) => lookup(fields, name),
        _ => None,
    }
}

/// An optional text: nothing where the field is absent or null.
pub open spec fn optional_text(field: Option<JsonView>) -> Result<Option<Seq<char>>, Mismatch> {
    match field {
        None => Ok(None),
        Some(JsonView::Null) => Ok(None),
        Some(JsonView::Text(s)) => Ok(Some(s)),
        Some(_) => Err(Mismatch {  }),
    }
}

/// The texts of a list of values, if all of them are texts.
pub open spec fn texts_of(items: Seq<JsonView>) -> Result<Seq<Seq<char>>, Mismatch>
    decreases items.len(),
{
    if items.len() == 0 {
        Ok(seq![])
    } else {
        match (texts_of(items.drop_last()), items.last()) {
            (Ok(texts), JsonView::Text(s)) => Ok(texts.push(s)),
            _ => Err(Mismatch {  }),
        }
    }
}

/// An optional list of texts: nothing where the field is absent or null.
pub open spec fn optional_texts(field: Option<JsonView>) -> Result<
    Option<Seq<Seq<char>>>,
    Mismatch,
> {
    match field {
        None => Ok(None),
        Some(JsonView::Null) => Ok(None),
        Some(JsonView::Array(items)) => match texts_of(items) {
            Ok(texts) => Ok(Some(texts)),
            Err(e) => Err(e),
        },
        Some(_) => Err(Mismatch {  }),
    }
}

/// The map from names to texts that a list of fields stands for, if every
/// value is a text.
pub open spec fn text_map_of(fields: Seq<(Seq<char>, JsonView)>) -> Result<
    Map<Seq<char>, Seq<char>>,
    Mismatch,
>
    decreases fields.len(),
{
    if fields.len() == 0 {
        Ok(Map::empty())
    } else {
        match (text_map_of(fields.drop_last()), fields.last().1) {
            (Ok(map), JsonView::Text(s)) => Ok(map.insert(fields.last().0, s)),
            _ => Err(Mismatch {  }),
        }
    }
}

/// An optional map from names to texts: nothing where the field is absent or
/// null.
pub open spec fn optional_text_map(field: Option<JsonView>) -> Result<
    Option<Map<Seq<char>, Seq<char>>>,
    Mismatch,
> {
    match field {
        None => Ok(None),
        Some(JsonView::Null) => Ok(None),
        Some(JsonView::Object(fields)) => match text_map_of(fields) {
            Ok(map) => Ok(Some(map)),
            Err(e) => Err(e),
        },
        Some(_) => Err(Mismatch {  }),
    }
}

/// The fields of an object as the view sees them.
pub open spec fn fields_view(fields: Seq<(String, Json)>) -> Seq<(Seq<char>, JsonView)> {
    Seq::new(
        fields.len(),
        |i: int|
            if 0 <= i < fields.len() {
                (fields[i].0@, content(fields[i].1))
            } else {
                (Seq::empty(), JsonView::Null)
            },
    )
}

/// The items of an array as the view sees them.
pub open spec fn items_view(items: Seq<Json>) -> Seq<JsonView> {
    Seq::new(
        items.len(),
        |i: int|
            if 0 <= i < items.len() {
                content(items[i])
            } else {
                JsonView::Null
            },
    )
}

impl Json {
    /// Reads a JSON document from `text`.
    pub fn parse(text: &str) -> (r: Result<Json, Error>)
        ensures
            match json_document(text@) {
                Some(doc) => r is Ok && r->Ok_0.deep_view() == doc,
                None => r == Err::<Json, Error>(Error::Parse),
            },
    {
        match parse_value(text) {
            Some(value) => Ok(json_of_value(value)),
            None => Err(Error::Parse),
        }
    }

    /// The field `name` of this object.
    pub fn field(&self, name: &str) -> (r: Option<&Json>)
        ensures
            r.deep_view() == field_of(self.deep_view(), name@),
    {
        match self {
            Json::Object(fields) => {
                let wanted = name.to_owned();
                let ghost all = fields_view(fields@);
                let mut i: usize = fields.len();
                proof {
                    assert(all.take(i as int) =~= all);
                    assert(self.deep_view()->Object_0 =~= all);
                }
                while i > 0
                    invariant
                        i <= fields.len(),
                        wanted@ == name@,
                        all == fields_view(fields@),
                        self.deep_view() == JsonView::Object(all),
                        lookup(all, name@) == lookup(all.take(i as int), name@),
                    decreases i,
                {
                    i -= 1;
                    proof {
                        assert(all.take(i + 1).drop_last() =~= all.take(i as int));
                        assert(all.take(i + 1).last() == all[i as int]);
                    }
                    if fields[i].0 == wanted {
                        proof {
                            assert(all[i as int] == (fields@[i as int].0@, content(fields@[i as int].1)));
                            assert(lookup(all.take(i + 1), name@) == Some(all[i as int].1));
                        }
                        return Some(&fields[i].1);
                    }
                }
                proof {
                    assert(all.take(0).len() == 0);
                }
                None
            },
            _ => None,
        }
    }

    /// This value as an optional text.
    pub fn to_optional_text(field: Option<&Json>) -> (r: Result<Option<String>, Mismatch>)
        ensures
            match optional_text(field.deep_view()) {
                Ok(text) => r is Ok && r->Ok_0.deep_view() == text,
                Err(e) => r == Err::<Option<String>, Mismatch>(e),
            },
    {
        match field {
            None => Ok(None),
            Some(Json::Null) => Ok(None),
            Some(Json::Text(s)) => Ok(Some(s.clone())),
            Some(_) => Err(Mismatch {  }),
        }
    }

    /// The texts of `items`, if all of them are texts.
    pub fn to_texts(items: &Vec<Json>) -> (r: Result<Vec<String>, Mismatch>)
        ensures
            match texts_of(items_view(items@)) {
                Ok(texts) => r is Ok && r->Ok_0.deep_view() == texts,
                Err(e) => r == Err::<Vec<String>, Mismatch>(e),
            },
    {
        let ghost all = items_view(items@);
        let mut texts: Vec<String> = Vec::new();
        let mut i: usize = 0;
        proof {
            assert(all.take(0) =~= seq![]);
            assert(texts.deep_view() =~= seq![]);
        }
        while i < items.len()
            invariant
                i <= items.len(),
                all == items_view(items@),
                texts_of(all.take(i as int)) == Ok::<Seq<Seq<char>>, Mismatch>(texts.deep_view()),
            decreases items.len() - i,
        {
            proof {
                assert(all.take(i + 1).drop_last() =~= all.take(i as int));
                assert(all.take(i + 1).last() == all[i as int]);
            }
            match &items[i] {
                Json::Text(s) => {
                    let ghost before = texts.deep_view();
                    texts.push(s.clone());
                    proof {
                        assert(texts.deep_view() =~= before.push(s@));
                    }
                },
                _ => {
                    proof {
                        lemma_texts_of_prefix(all, i + 1);
                    }
                    return Err(Mismatch {  });
                },
            }
            i += 1;
        }
        proof {
            assert(all.take(i as int) =~= all);
        }
        Ok(texts)
    }

    /// This value as an optional list of texts.
    pub fn to_optional_texts(field: Option<&Json>) -> (r: Result<Option<Vec<String>>, Mismatch>)
        ensures
            match optional_texts(field.deep_view()) {
                Ok(texts) => r is Ok && r->Ok_0.deep_view() == texts,
                Err(e) => r == Err::<Option<Vec<String>>, Mismatch>(e),
            },
    {
        match field {
            None => Ok(None),
            Some(Json::Null) => Ok(None),
            Some(Json::Array(items)) => {
                proof {
                    assert(field.deep_view()->Some_0->Array_0 =~= items_view(items@));
                }
                match Json::to_texts(items) {
                    Ok(texts) => Ok(Some(texts)),
                    Err(e) => Err(e),
                }
            },
            Some(_) => Err(Mismatch {  }),
        }
    }

    /// The map from names to texts that `fields` stands for, if every value is
    /// a text.
    pub fn to_text_map(fields: &Vec<(String, Json)>) -> (r: Result<StringMap, Mismatch>)
        ensures
            match text_map_of(fields_view(fields@)) {
                Ok(map) => r is Ok && r->Ok_0@ == map,
                Err(e) => r == Err::<StringMap, Mismatch>(e),
            },
    {
        let ghost all = fields_view(fields@);
        let mut map = StringMap::new();
        let mut i: usize = 0;
        proof {
            assert(all.take(0) =~= seq![]);
        }
        while i < fields.len()
            invariant
                i <= fields.len(),
                all == fields_view(fields@),
                text_map_of(all.take(i as int)) == Ok::<Map<Seq<char>, Seq<char>>, Mismatch>(map@),
            decreases fields.len() - i,
        {
            proof {
                assert(all.take(i + 1).drop_last() =~= all.take(i as int));
                assert(all.take(i + 1).last() == all[i as int]);
            }
            match &fields[i].1 {
                Json::Text(s) => {
                    map.insert(fields[i].0.clone(), s.clone());
                },
                _ => {
                    proof {
                        lemma_text_map_of_prefix(all, i + 1);
                    }
                    return Err(Mismatch {  });
                },
            }
            i += 1;
        }
        proof {
            assert(all.take(i as int) =~= all);
        }
        Ok(map)
    }

    /// This value as an optional map from names to texts.
    pub fn to_optional_text_map(field: Option<&Json>) -> (r: Result<Option<StringMap>, Mismatch>)
        ensures
            match optional_text_map(field.deep_view()) {
                Ok(Some(map)) => r is Ok && r->Ok_0 is Some && r->Ok_0->Some_0@ == map,
                Ok(None) => r is Ok && r->Ok_0 is None,
                Err(e) => r == Err::<Option<StringMap>, Mismatch>(e),
            },
    {
        match field {
            None => Ok(None),
            Some(Json::Null) => Ok(None),
            Some(Json::Object(fields)) => {
                proof {
                    assert(field.deep_view()->Some_0->Object_0 =~= fields_view(fields@));
                }
                match Json::to_text_map(fields) {
                    Ok(map) => Ok(Some(map)),
                    Err(e) => Err(e),
                }
            },
            Some(_) => Err(Mismatch {  }),
        }
    }
}

/// A list whose prefix holds something other than a text does so itself.
pub proof fn lemma_texts_of_prefix(items: Seq<JsonView>, n: int)
    requires
        0 <= n <= items.len(),
        texts_of(items.take(n)) is Err,
    ensures
        texts_of(items) is Err,
    decreases items.len() - n,
{
    if n < items.len() {
        assert(items.take(n + 1).drop_last() =~= items.take(n));
        lemma_texts_of_prefix(items, n + 1);
    } else {
        assert(items.take(n) =~= items);
    }
}

/// A list of fields whose prefix holds something other than a text does so
/// itself.
pub proof fn lemma_text_map_of_prefix(fields: Seq<(Seq<char>, JsonView)>, n: int)
    requires
        0 <= n <= fields.len(),
        text_map_of(fields.take(n)) is Err,
    ensures
        text_map_of(fields) is Err,
    decreases fields.len() - n,
{
    if n < fields.len() {
        assert(fields.take(n + 1).drop_last() =~= fields.take(n));
        lemma_text_map_of_prefix(fields, n + 1);
    } else {
        assert(fields.take(n) =~= fields);
    }
}

} // verus!
