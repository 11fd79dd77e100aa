//! The structured-document value that messages carry in decoded form.

use crate::assoc::{last_index, lookup, upsert};
use crate::text::str_eq;
use vstd::prelude::*;

verus! {

#[verifier::external_type_specification]
#[verifier::external_body]
pub struct ExNumber(serde_json::Number);

/// Copies a number with `serde_json::Number`'s `Clone`, which the crate
/// derives: the copy equals the number copied.
#[verifier::external_body]
pub(crate) fn clone_number(n: &serde_json::Number) -> (r: serde_json::Number)
    ensures
        r == *n,
{
    n.clone()
}

/// A JSON-like tree. An object keeps its fields in the order in which they
/// were first written; where a name occurs twice, the later field is the one
/// that counts.
#[derive(Debug, PartialEq)]
pub enum Json {
    Null,
    Bool(bool),
    Number(serde_json::Number),
    String(String),
    Array(Vec<Json>),
    Object(Vec<(String, Json)>),
}

/// The mathematical value of a [`Json`].
pub ghost enum JsonView {
    Null,
    Bool(bool),
    Number(serde_json::Number),
    String(Seq<char>),
    Array(Seq<JsonView>),
    Object(Seq<(Seq<char>, JsonView)>),
}

/// The fields of an object, as name and value.
pub type FieldsView = Seq<(Seq<char>, JsonView)>;

impl JsonView {
    /// The field `key` of an object; nothing of any other value.
    pub open spec fn get(self, key: Seq<char>) -> Option<JsonView> {
        match self {
            JsonView::Object(fields) => lookup(fields, key),
            _ => None,
        }
    }

    /// The text of a string value.
    pub open spec fn as_text(self) -> Option<Seq<char>> {
        match self {
            JsonView::String(s) => Some(s),
            _ => None,
        }
    }

    /// The number of a number value.
    pub open spec fn as_number(self) -> Option<serde_json::Number> {
        match self {
            JsonView::Number(n) => Some(n),
            _ => None,
        }
    }

    /// An object with the field `key` set to `value`; any other value unchanged.
    pub open spec fn with_field(self, key: Seq<char>, value: JsonView) -> JsonView {
        match self {
            JsonView::Object(fields) => JsonView::Object(upsert(fields, key, value)),
            other => other,
        }
    }
}

/// The values of `items`.
pub open spec fn items_view(items: Seq<Json>) -> Seq<JsonView> {
    Seq::new(items.len(), |i: int| items[i]@)
}

/// The names and values of `fields`.
pub open spec fn fields_view(fields: Seq<(String, Json)>) -> FieldsView {
    Seq::new(fields.len(), |i: int| (fields[i].0@, fields[i].1@))
}

impl View for Json {
    type V = JsonView;

    open spec fn view(&self) -> JsonView
        decreases self,
    {
        match self {
            Json::Null => JsonView::Null,
            Json::Bool(b) => JsonView::Bool(*b),
            Json::Number(n) => JsonView::Number(*n),
            Json::String(s) => JsonView::String(s@),
            Json::Array(items) => JsonView::Array(
                Seq::new(
                    items.len() as nat,
                    |i: int|
                        if 0 <= i < items.len() {
                            items[i].view()
                        } else {
                            JsonView::Null
                        },
                ),
            ),
            Json::Object(fields) => JsonView::Object(
                Seq::new(
                    fields.len() as nat,
                    |i: int|
                        if 0 <= i < fields.len() {
                            (fields[i].0.view(), fields[i].1.view())
                        } else {
                            (Seq::<char>::empty(), JsonView::Null)
                        },
                ),
            ),
        }
    }
}

/// The view of an array is the views of its items.
pub proof fn lemma_array_view(items: Vec<Json>)
    ensures
        Json::Array(items)@ == JsonView::Array(items_view(items@)),
{
    assert(Json::Array(items)@->Array_0 =~= items_view(items@));
}

/// The view of an object is the names and views of its fields.
pub proof fn lemma_object_view(fields: Vec<(String, Json)>)
    ensures
        Json::Object(fields)@ == JsonView::Object(fields_view(fields@)),
{
    reveal_with_fuel(<Json as View>::view, 2);
    assert(Json::Object(fields)@->Object_0 =~= fields_view(fields@));
}

impl Clone for Json {
    fn clone(&self) -> (r: Json)
        ensures
            r@ == self@,
        decreases self,
    {
        match self {
            Json::Null => Json::Null,
            Json::Bool(b) => Json::Bool(*b),
            Json::Number(n) => Json::Number(clone_number(n)),
            Json::String(s) => Json::String(s.clone()),
            Json::Array(items) => {
                let mut out: Vec<Json> = Vec::new();
                let mut i: usize = 0;
                while i < items.len()
                    invariant
                        *self == Json::Array(*items),
                        i <= items.len(),
                        out.len() == i,
                        forall|j: int| 0 <= j < i ==> out[j]@ == items[j]@,
                    decreases items.len() - i,
                {
                    proof {
                        vstd::std_specs::vec::axiom_vec_index_decreases(*items, i as int);
                        assert(self->Array_0 == *items);
                    }
                    out.push(items[i].clone());
                    i += 1;
                }
                proof {
                    lemma_array_view(*items);
                    lemma_array_view(out);
                    assert(items_view(out@) =~= items_view(items@));
                }
                Json::Array(out)
            },
            Json::Object(fields) => {
                let mut out: Vec<(String, Json)> = Vec::new();
                let mut i: usize = 0;
                while i < fields.len()
                    invariant
                        *self == Json::Object(*fields),
                        i <= fields.len(),
                        out.len() == i,
                        forall|j: int|
                            0 <= j < i ==> out[j].0@ == fields[j].0@ && out[j].1@ == fields[j].1@,
                    decreases fields.len() - i,
                {
                    proof {
                        vstd::std_specs::vec::axiom_vec_index_decreases(*fields, i as int);
                        assert(self->Object_0 == *fields);
                    }
                    out.push((fields[i].0.clone(), fields[i].1.clone()));
                    i += 1;
                }
                proof {
                    lemma_object_view(*fields);
                    lemma_object_view(out);
                    assert(fields_view(out@) =~= fields_view(fields@));
                }
                Json::Object(out)
            },
        }
    }
}

impl Json {
    /// The field `key` of an object; nothing of any other value.
    pub fn get(&self, key: &str) -> (r: Option<&Json>)
        ensures
            match r {
                Some(v) => self@.get(key@) == Some(v@),
                None => self@.get(key@) is None,
            },
    {
        match self {
            Json::Object(fields) => {
                proof {
                    lemma_object_view(*fields);
                }
                let ghost all = fields_view(fields@);
                let mut i: usize = fields.len();
                proof {
                    assert(all.take(i as int) =~= all);
                }
                while i > 0
                    invariant
                        i <= fields.len(),
                        self@ == JsonView::Object(all),
                        all == fields_view(fields@),
                        last_index(all, key@) == last_index(all.take(i as int), key@),
                    decreases i,
                {
                    i -= 1;
                    proof {
                        assert(all.take(i + 1).drop_last() =~= all.take(i as int));
                    }
                    if str_eq(fields[i].0.as_str(), key) {
                        return Some(&fields[i].1);
                    }
                }
                None
            },
            _ => None,
        }
    }

    /// Whether this is an object with a field `key`.
    pub fn contains_key(&self, key: &str) -> (r: bool)
        ensures
            r == self@.get(key@).is_some(),
    {
        self.get(key).is_some()
    }

    /// The text of a string value.
    pub fn as_str(&self) -> (r: Option<&str>)
        ensures
            match r {
                Some(s) => self@.as_text() == Some(s@),
                None => self@.as_text() is None,
            },
    {
        match self {
            Json::String(s) => Some(s.as_str()),
            _ => None,
        }
    }

    /// The number of a number value.
    pub fn as_number(&self) -> (r: Option<&serde_json::Number>)
        ensures
            match r {
                Some(n) => self@.as_number() == Some(*n),
                None => self@.as_number() is None,
            },
    {
        match self {
            Json::Number(n) => Some(n),
            _ => None,
        }
    }

    /// Sets the field `key` of an object to `value`, in place where the name
    /// is present and at the end where it is new. Any other value is returned
    /// unchanged.
    pub fn with_field(self, key: String, value: Json) -> (r: Json)
        ensures
            r@ == self@.with_field(key@, value@),
    {
        match self {
            Json::Object(fields) => {
                let mut fields = fields;
                let ghost before = fields_view(fields@);
                let mut i: usize = fields.len();
                proof {
                    lemma_object_view(fields);
                    assert(before.take(i as int) =~= before);
                }
                while i > 0
                    invariant
                        i <= fields.len(),
                        self@ == JsonView::Object(before),
                        before == fields_view(fields@),
                        last_index(before, key@) == last_index(before.take(i as int), key@),
                    decreases i,
                {
                    i -= 1;
                    proof {
                        assert(before.take(i + 1).drop_last() =~= before.take(i as int));
                    }
                    if str_eq(fields[i].0.as_str(), key.as_str()) {
                        fields.set(i, (key, value));
                        proof {
                            lemma_object_view(fields);
                            assert(fields_view(fields@) =~= before.update(
                                i as int,
                                (key@, value@),
                            ));
                        }
                        return Json::Object(fields);
                    }
                }
                fields.push((key, value));
                proof {
                    lemma_object_view(fields);
                    assert(fields_view(fields@) =~= before.push((key@, value@)));
                }
                Json::Object(fields)
            },
            other => other,
        }
    }
}

} // verus!
