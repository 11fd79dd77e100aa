//! The check of a document against the `required` list of a schema.

use crate::json::{Json, JsonView, lemma_array_view};
use vstd::prelude::*;

verus! {

/// The first name in `required` that `doc` has no field for. Entries of
/// `required` that are not strings are passed over.
pub open spec fn first_missing(required: Seq<JsonView>, doc: JsonView) -> Option<Seq<char>>
    decreases required.len(),
{
    if required.len() == 0 {
        None
    } else {
        match required[0] {
            JsonView::String(name) => if doc.get(name) is None {
                Some(name)
            } else {
                first_missing(required.drop_first(), doc)
            },
            _ => first_missing(required.drop_first(), doc),
        }
    }
}

/// The names that a schema lists under `required`, where it lists any.
pub open spec fn required_of(schema: JsonView) -> Option<Seq<JsonView>> {
    match schema.get("required"@) {
        Some(JsonView::Array(required)) => Some(required),
        _ => None,
    }
}

/// The first required field that `doc` lacks. A document that is not an
/// object lacks none, and so does any document when there is no schema or the
/// schema has no `required` list.
pub open spec fn missing_required(schema: Option<JsonView>, doc: JsonView) -> Option<Seq<char>> {
    match schema {
        Some(s) => match required_of(s) {
            Some(required) => if doc is Object {
                first_missing(required, doc)
            } else {
                None
            },
            None => None,
        },
        None => None,
    }
}

/// The view of an optional document.
pub open spec fn optional_view(v: Option<Json>) -> Option<JsonView> {
    match v {
        Some(v) => Some(v@),
        None => None,
    }
}

/// Finds the first required field that `doc` lacks.
pub fn missing_required_field(schema: &Option<Json>, doc: &Json) -> (r: Option<String>)
    ensures
        match r {
            Some(name) => missing_required(optional_view(*schema), doc@) == Some(name@),
            None => missing_required(optional_view(*schema), doc@) is None,
        },
{
    let rules = match schema {
        Some(s) => s,
        None => {
            return None;
        },
    };
    let required = match rules.get("required") {
        Some(Json::Array(required)) => required,
        _ => {
            return None;
        },
    };
    proof {
        lemma_array_view(*required);
    }
    match doc {
        Json::Object(_) => {},
        _ => {
            return None;
        },
    }
    let ghost all = crate::json::items_view(required@);
    let mut i: usize = 0;
    proof {
        assert(all.skip(0) =~= all);
    }
    while i < required.len()
        invariant
            i <= required.len(),
            missing_required(optional_view(*schema), doc@) == first_missing(all, doc@),
            all == crate::json::items_view(required@),
            first_missing(all, doc@) == first_missing(all.skip(i as int), doc@),
        decreases required.len() - i,
    {
        proof {
            assert(all.skip(i as int).drop_first() =~= all.skip(i + 1));
        }
        match &required[i] {
            Json::String(name) => {
                if !doc.contains_key(name.as_str()) {
                    return Some(name.clone());
                }
            },
            _ => {},
        }
        i += 1;
    }
    None
}

} // verus!
