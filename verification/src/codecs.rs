//! Codecs between the payload of a message and its decoded value.

use crate::json::{items_view, lemma_array_view, Json, JsonView};
use crate::wire::{
    decoded_bytes, encoded_bytes, from_bytes, from_outside, to_bytes, to_outside,
};
use vstd::prelude::*;

verus! {

#[verifier::external_type_specification]
#[verifier::external_body]
pub struct ExCsvError(csv::Error);

/// The rows that a `csv::Reader` over the bytes yields when each record is
/// read as a `serde_json::Value`, where every record is accepted.
pub uninterp spec fn csv_decoded(bytes: Seq<u8>) -> Option<Seq<JsonView>>;

/// The bytes that a `csv::Writer` has written once every item was handed to
/// its `serialize`, where every item is accepted.
pub uninterp spec fn csv_encoded(items: Seq<JsonView>) -> Option<Seq<u8>>;

/// Runs a `csv::Reader` over `payload` and collects what its `deserialize`
/// yields for `serde_json::Value`, up to the first record that is refused.
/// Whether all are accepted and what is read are functions of the bytes alone.
#[verifier::external_body]
fn csv_read(payload: &[u8]) -> (r: Result<Vec<Json>, csv::Error>)
    ensures
        match r {
            Ok(rows) => csv_decoded(payload@) == Some(items_view(rows@)),
            Err(_) => csv_decoded(payload@) is None,
        },
{
    let mut reader = csv::Reader::from_reader(payload);
    let mut rows = Vec::new();
    for record in reader.deserialize::<serde_json::Value>() {
        rows.push(from_outside(record?));
    }
    Ok(rows)
}

/// Hands every item to the `serialize` of a `csv::Writer` over a byte
/// vector, flushes it and takes the vector out. Whether all are accepted and
/// what is written are functions of the items alone.
#[verifier::external_body]
fn csv_write(items: &Vec<Json>) -> (r: Result<Vec<u8>, csv::Error>)
    ensures
        match r {
            Ok(bytes) => csv_encoded(items_view(items@)) == Some(bytes@),
            Err(_) => csv_encoded(items_view(items@)) is None,
        },
{
    let mut writer = csv::Writer::from_writer(Vec::new());
    for item in items {
        writer.serialize(to_outside(item))?;
    }
    writer.flush()?;
    writer.into_inner().map_err(|e| csv::Error::from(e.into_error()))
}

/// The message of a `csv::Error`, as its `Display` writes it.
#[verifier::external_body]
fn csv_error_text(e: &csv::Error) -> (r: String) {
    e.to_string()
}

/// Why a payload was not decoded or a value not encoded.
#[derive(Debug)]
pub struct CodecError {
    pub message: String,
}

/// A way between payloads and decoded values.
pub trait Codec {
    /// Reads the value that `payload` holds.
    fn decode(&self, payload: &[u8]) -> Result<Json, CodecError>;

    /// Writes `v` as a payload.
    fn encode(&self, v: &Json) -> Result<Vec<u8>, CodecError>;
}

/// Payloads of JSON.
pub struct JsonCodec;

impl Codec for JsonCodec {
    fn decode(&self, payload: &[u8]) -> (r: Result<Json, CodecError>)
        ensures
            match r {
                Ok(v) => decoded_bytes(payload@) == Some(v@),
                Err(_) => decoded_bytes(payload@) is None,
            },
    {
        match from_bytes(payload) {
            Ok(v) => Ok(v),
            Err(e) => Err(CodecError { message: e.message }),
        }
    }

    fn encode(&self, v: &Json) -> (r: Result<Vec<u8>, CodecError>)
        ensures
            r matches Ok(bytes) && bytes@ == encoded_bytes(v@),
    {
        Ok(to_bytes(v))
    }
}

/// Payloads of CSV: a header line and records.
pub struct CsvCodec;

/// The items that a value is written as: its elements where it is an array,
/// else the value alone.
pub open spec fn items_to_write(v: JsonView) -> Seq<JsonView> {
    match v {
        JsonView::Array(items) => items,
        other => seq![other],
    }
}

impl Codec for CsvCodec {
    fn decode(&self, payload: &[u8]) -> (r: Result<Json, CodecError>)
        ensures
            match r {
                Ok(v) => csv_decoded(payload@) matches Some(rows) && v@ == JsonView::Array(rows),
                Err(_) => csv_decoded(payload@) is None,
            },
    {
        match csv_read(payload) {
            Ok(rows) => {
                proof {
                    lemma_array_view(rows);
                }
                Ok(Json::Array(rows))
            },
            Err(e) => Err(CodecError { message: csv_error_text(&e) }),
        }
    }

    fn encode(&self, v: &Json) -> (r: Result<Vec<u8>, CodecError>)
        ensures
            match r {
                Ok(bytes) => csv_encoded(items_to_write(v@)) == Some(bytes@),
                Err(_) => csv_encoded(items_to_write(v@)) is None,
            },
    {
        let written = match v {
            Json::Array(items) => {
                proof {
                    lemma_array_view(*items);
                }
                csv_write(items)
            },
            other => {
                let mut alone: Vec<Json> = Vec::new();
                alone.push(other.clone());
                proof {
                    assert(items_view(alone@) =~= seq![other@]);
                }
                csv_write(&alone)
            },
        };
        match written {
            Ok(bytes) => Ok(bytes),
            Err(e) => Err(CodecError { message: csv_error_text(&e) }),
        }
    }
}

} // verus!
