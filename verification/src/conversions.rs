//! Conversion of whole documents between file formats: what is read becomes
//! one JSON document, and that document is shaped for the format to write.

use crate::assoc::upsert;
use crate::connectors::{decode_lines, first_failure, line_records, records_view};
use crate::json::{fields_view, items_view, lemma_array_view, lemma_object_view, Json, JsonView};
use crate::message::pairs_view;
use crate::text::{join, joined, lines, lines_of, lowercase, str_eq, texts_view, to_lowercase};
use crate::wire::{
    decoded_text, encoded_text, error_text, from_outside, from_text, to_outside, to_text,
};
use vstd::prelude::*;
use vstd::string::StringExecFns;

verus! {

/// The file formats that a document can be read from and written to.
#[derive(Clone, Copy, Debug, PartialEq, Eq, Structural)]
pub enum Format {
    Json,
    Csv,
    Yaml,
    Toml,
    Parquet,
    Avro,
    MsgPack,
    Cbor,
    Ndjson,
}

/// The format that a file extension in lower case names.
pub open spec fn format_named(ext: Seq<char>) -> Option<Format> {
    if ext == "json"@ {
        Some(Format::Json)
    } else if ext == "csv"@ {
        Some(Format::Csv)
    } else if ext == "yaml"@ || ext == "yml"@ {
        Some(Format::Yaml)
    } else if ext == "toml"@ {
        Some(Format::Toml)
    } else if ext == "parquet"@ {
        Some(Format::Parquet)
    } else if ext == "avro"@ {
        Some(Format::Avro)
    } else if ext == "msgpack"@ {
        Some(Format::MsgPack)
    } else if ext == "cbor"@ {
        Some(Format::Cbor)
    } else if ext == "ndjson"@ {
        Some(Format::Ndjson)
    } else {
        None
    }
}

impl Format {
    /// The format that a file extension in lower case names.
    pub fn from_lowercase(ext: &str) -> (r: Option<Format>)
        ensures
            r == format_named(ext@),
    {
        if str_eq(ext, "json") {
            Some(Format::Json)
        } else if str_eq(ext, "csv") {
            Some(Format::Csv)
        } else if str_eq(ext, "yaml") || str_eq(ext, "yml") {
            Some(Format::Yaml)
        } else if str_eq(ext, "toml") {
            Some(Format::Toml)
        } else if str_eq(ext, "parquet") {
            Some(Format::Parquet)
        } else if str_eq(ext, "avro") {
            Some(Format::Avro)
        } else if str_eq(ext, "msgpack") {
            Some(Format::MsgPack)
        } else if str_eq(ext, "cbor") {
            Some(Format::Cbor)
        } else if str_eq(ext, "ndjson") {
            Some(Format::Ndjson)
        } else {
            None
        }
    }

    /// The format that a file extension names, whatever its case.
    pub fn from_ext(ext: &str) -> (r: Option<Format>)
        ensures
            r == format_named(lowercase(ext@)),
    {
        let lower = to_lowercase(ext);
        Format::from_lowercase(lower.as_str())
    }
}

// ---------------------------------------------------------------------------
// The text formats, read and written by their crates
// ---------------------------------------------------------------------------

#[verifier::external_type_specification]
#[verifier::external_body]
pub struct ExYamlError(serde_yaml::Error);

/// The indented JSON text that `serde_json::to_string_pretty` writes for a
/// document, where it writes any.
pub uninterp spec fn pretty_text(v: JsonView) -> Option<Seq<char>>;

/// The document that `serde_yaml::from_str` reads from text, where it
/// accepts it.
pub uninterp spec fn yaml_decoded(text: Seq<char>) -> Option<JsonView>;

/// The YAML text that `serde_yaml::to_string` writes for a document, where
/// it writes any.
pub uninterp spec fn yaml_encoded(v: JsonView) -> Option<Seq<char>>;

/// The document that `serde_json::to_value` makes of the `toml::Value` that
/// `toml::from_str` reads from text, where both accept.
pub uninterp spec fn toml_decoded(text: Seq<char>) -> Option<JsonView>;

/// The TOML text that `toml::to_string_pretty` writes for the `toml::Value`
/// that `serde_json::from_value` makes of a document, where both accept.
pub uninterp spec fn toml_encoded(v: JsonView) -> Option<Seq<char>>;

/// Calls `serde_json::to_string_pretty`. Whether it succeeds and what it
/// writes are functions of the document alone.
#[verifier::external_body]
fn json_to_string_pretty(v: &Json) -> (r: Result<String, serde_json::Error>)
    ensures
        match r {
            Ok(text) => pretty_text(v@) == Some(text@),
            Err(_) => pretty_text(v@) is None,
        },
{
    serde_json::to_string_pretty(&to_outside(v))
}

/// Calls `serde_yaml::from_str` for a `serde_json::Value`. Whether it
/// accepts the text and what it reads are functions of the text alone.
#[verifier::external_body]
fn yaml_from_str(text: &str) -> (r: Result<Json, serde_yaml::Error>)
    ensures
        match r {
            Ok(v) => yaml_decoded(text@) == Some(v@),
            Err(_) => yaml_decoded(text@) is None,
        },
{
    serde_yaml::from_str::<serde_json::Value>(text).map(from_outside)
}

/// Calls `serde_yaml::to_string`. Whether it succeeds and what it writes are
/// functions of the document alone.
#[verifier::external_body]
fn yaml_to_string(v: &Json) -> (r: Result<String, serde_yaml::Error>)
    ensures
        match r {
            Ok(text) => yaml_encoded(v@) == Some(text@),
            Err(_) => yaml_encoded(v@) is None,
        },
{
    serde_yaml::to_string(&to_outside(v))
}

/// The message of a `serde_yaml::Error`, as its `Display` writes it.
#[verifier::external_body]
fn yaml_error_text(e: &serde_yaml::Error) -> (r: String) {
    e.to_string()
}

/// Calls `toml::from_str` for a `toml::Value` and hands that value on as a
/// document through `serde_json::to_value`; where either refuses, its
/// message comes back. Whether both accept and what document results are
/// functions of the text alone.
#[verifier::external_body]
fn toml_read(text: &str) -> (r: Result<Json, String>)
    ensures
        match r {
            Ok(v) => toml_decoded(text@) == Some(v@),
            Err(_) => toml_decoded(text@) is None,
        },
{
    match toml::from_str::<toml::Value>(text) {
        Ok(value) => match serde_json::to_value(value) {
            Ok(v) => Ok(from_outside(v)),
            Err(e) => Err(e.to_string()),
        },
        Err(e) => Err(e.to_string()),
    }
}

/// Makes a `toml::Value` of a document with `serde_json::from_value` and
/// writes it with `toml::to_string_pretty`; where either refuses, its
/// message comes back. Whether both accept and what text results are
/// functions of the document alone.
#[verifier::external_body]
fn toml_write(v: &Json) -> (r: Result<String, String>)
    ensures
        match r {
            Ok(text) => toml_encoded(v@) == Some(text@),
            Err(_) => toml_encoded(v@) is None,
        },
{
    match serde_json::from_value::<toml::Value>(to_outside(v)) {
        Ok(value) => match toml::to_string_pretty(&value) {
            Ok(text) => Ok(text),
            Err(e) => Err(e.to_string()),
        },
        Err(e) => Err(e.to_string()),
    }
}

/// What went wrong in a conversion.
#[derive(Clone, Copy, Debug, PartialEq, Eq, Structural)]
pub enum ErrorKind {
    /// What was read is not of the format it was said to be.
    Decode,
    /// The document cannot be written in the format asked for.
    Encode,
    /// The format writes rows, and the document is no array.
    ExpectedArray,
    /// The format writes rows, and the document is an empty array.
    NoRows,
    /// The first row is no object.
    ExpectedObjectRows,
    /// A later row is no object.
    ExpectedObjectRow,
    /// What was read is not the kind of input that the format takes.
    WrongInput,
}

/// Why a conversion failed.
#[derive(Debug)]
pub struct ConvertError {
    pub kind: ErrorKind,
    /// The format that was being read or written.
    pub format: Format,
    /// What the decoder or encoder said, where one failed.
    pub detail: Option<String>,
}

/// The name of a format in messages.
pub open spec fn format_title(format: Format) -> Seq<char> {
    match format {
        Format::Json => "JSON"@,
        Format::Csv => "CSV"@,
        Format::Yaml => "YAML"@,
        Format::Toml => "TOML"@,
        Format::Parquet => "Parquet"@,
        Format::Avro => "Avro"@,
        Format::MsgPack => "MsgPack"@,
        Format::Cbor => "CBOR"@,
        Format::Ndjson => "NDJSON"@,
    }
}

/// The text that tells a user what went wrong, for the errors that come
/// from the shape of the document.
pub open spec fn shape_message(kind: ErrorKind, format: Format) -> Seq<char> {
    match kind {
        ErrorKind::ExpectedArray => "Expected array for "@ + format_title(format) + " export"@,
        ErrorKind::NoRows => "No rows found for "@ + format_title(format) + " export"@,
        ErrorKind::ExpectedObjectRows => "Expected object rows in array"@,
        ErrorKind::ExpectedObjectRow => "Expected object row"@,
        ErrorKind::WrongInput => "Input does not fit the format"@,
        ErrorKind::Decode => "Input is not of the format"@,
        ErrorKind::Encode => "Document cannot be written in the format"@,
    }
}

/// The name of a format in messages.
fn title_of(format: Format) -> (r: &'static str)
    ensures
        r@ == format_title(format),
{
    match format {
        Format::Json => "JSON",
        Format::Csv => "CSV",
        Format::Yaml => "YAML",
        Format::Toml => "TOML",
        Format::Parquet => "Parquet",
        Format::Avro => "Avro",
        Format::MsgPack => "MsgPack",
        Format::Cbor => "CBOR",
        Format::Ndjson => "NDJSON",
    }
}

impl ConvertError {
    /// An error of the kind given, without detail.
    pub fn new(kind: ErrorKind, format: Format) -> (r: ConvertError)
        ensures
            r.kind == kind,
            r.format == format,
            r.detail is None,
    {
        ConvertError { kind, format, detail: None }
    }

    /// The text that tells a user what went wrong: what the decoder or
    /// encoder said where one failed, else a sentence on the shape of the
    /// document.
    pub fn message(&self) -> (r: String)
        ensures
            r@ == match self.detail {
                Some(detail) => detail@,
                None => shape_message(self.kind, self.format),
            },
    {
        match &self.detail {
            Some(detail) => detail.clone(),
            None => match self.kind {
                ErrorKind::ExpectedArray => String::from_str("Expected array for ").concat(
                    title_of(self.format),
                ).concat(" export"),
                ErrorKind::NoRows => String::from_str("No rows found for ").concat(
                    title_of(self.format),
                ).concat(" export"),
                ErrorKind::ExpectedObjectRows => String::from_str("Expected object rows in array"),
                ErrorKind::ExpectedObjectRow => String::from_str("Expected object row"),
                ErrorKind::WrongInput => String::from_str("Input does not fit the format"),
                ErrorKind::Decode => String::from_str("Input is not of the format"),
                ErrorKind::Encode => String::from_str("Document cannot be written in the format"),
            },
        }
    }
}

/// A decoder failed with `detail`.
fn decode_failure(format: Format, detail: String) -> (r: ConvertError)
    ensures
        r.kind == ErrorKind::Decode,
        r.format == format,
{
    ConvertError { kind: ErrorKind::Decode, format, detail: Some(detail) }
}

/// An encoder failed with `detail`.
fn encode_failure(format: Format, detail: String) -> (r: ConvertError)
    ensures
        r.kind == ErrorKind::Encode,
        r.format == format,
{
    ConvertError { kind: ErrorKind::Encode, format, detail: Some(detail) }
}

/// Reads a JSON document.
pub fn import_json(text: &str) -> (r: Result<Json, ConvertError>)
    ensures
        match r {
            Ok(v) => decoded_text(text@) == Some(v@),
            Err(e) => decoded_text(text@) is None && e.kind == ErrorKind::Decode,
        },
{
    match from_text(text) {
        Ok(v) => Ok(v),
        Err(e) => Err(decode_failure(Format::Json, e.message)),
    }
}

/// Writes a document as indented JSON.
pub fn export_json(value: &Json) -> (r: Result<String, ConvertError>)
    ensures
        match r {
            Ok(text) => pretty_text(value@) == Some(text@),
            Err(e) => pretty_text(value@) is None && e.kind == ErrorKind::Encode,
        },
{
    match json_to_string_pretty(value) {
        Ok(text) => Ok(text),
        Err(e) => Err(encode_failure(Format::Json, error_text(&e))),
    }
}

/// Reads a YAML document.
pub fn import_yaml(text: &str) -> (r: Result<Json, ConvertError>)
    ensures
        match r {
            Ok(v) => yaml_decoded(text@) == Some(v@),
            Err(e) => yaml_decoded(text@) is None && e.kind == ErrorKind::Decode,
        },
{
    match yaml_from_str(text) {
        Ok(v) => Ok(v),
        Err(e) => Err(decode_failure(Format::Yaml, yaml_error_text(&e))),
    }
}

/// Writes a document as YAML.
pub fn export_yaml(value: &Json) -> (r: Result<String, ConvertError>)
    ensures
        match r {
            Ok(text) => yaml_encoded(value@) == Some(text@),
            Err(e) => yaml_encoded(value@) is None && e.kind == ErrorKind::Encode,
        },
{
    match yaml_to_string(value) {
        Ok(text) => Ok(text),
        Err(e) => Err(encode_failure(Format::Yaml, yaml_error_text(&e))),
    }
}

/// Reads a TOML document: the text is parsed as TOML and the value then
/// turned into a JSON document. Either step may refuse.
pub fn import_toml(text: &str) -> (r: Result<Json, ConvertError>)
    ensures
        match r {
            Ok(v) => toml_decoded(text@) == Some(v@),
            Err(e) => toml_decoded(text@) is None && e.kind == ErrorKind::Decode && e.format
                == Format::Toml,
        },
{
    match toml_read(text) {
        Ok(v) => Ok(v),
        Err(detail) => Err(decode_failure(Format::Toml, detail)),
    }
}

/// Writes a document as TOML: the document is turned into a TOML value and
/// that value written. Either step may refuse.
pub fn export_toml(value: &Json) -> (r: Result<String, ConvertError>)
    ensures
        match r {
            Ok(text) => toml_encoded(value@) == Some(text@),
            Err(e) => toml_encoded(value@) is None && e.kind == ErrorKind::Encode && e.format
                == Format::Toml,
        },
{
    match toml_write(value) {
        Ok(text) => Ok(text),
        Err(detail) => Err(encode_failure(Format::Toml, detail)),
    }
}

// ---------------------------------------------------------------------------
// Newline-delimited JSON
// ---------------------------------------------------------------------------

/// The decoded values of `records`, in order.
pub open spec fn parsed_of(records: Seq<crate::connectors::RecordView>) -> Seq<JsonView> {
    Seq::new(records.len(), |i: int| records[i].parsed)
}

/// The array that newline-delimited JSON writes: one element for each line
/// that is not blank. Nothing where one of those lines is no JSON.
pub open spec fn ndjson_document(text: Seq<char>) -> Option<JsonView> {
    if first_failure(lines(text), true, 0) == lines(text).len() {
        Some(JsonView::Array(parsed_of(line_records(lines(text), true, lines(text).len()))))
    } else {
        None
    }
}

/// Reads newline-delimited JSON into one array.
pub fn import_ndjson(text: &str) -> (r: Result<Json, ConvertError>)
    ensures
        match r {
            Ok(v) => ndjson_document(text@) == Some(v@),
            Err(e) => ndjson_document(text@) is None && e.kind == ErrorKind::Decode,
        },
{
    let all = lines_of(text);
    let decoded = decode_lines(&all, true);
    match decoded.error {
        Some(e) => Err(decode_failure(Format::Ndjson, e.message)),
        None => {
            let ghost seen = records_view(decoded.records@);
            let mut records = decoded.records;
            let mut values: Vec<Json> = Vec::new();
            let n = records.len();
            let mut i: usize = 0;
            while i < n
                invariant
                    i <= n,
                    n == seen.len(),
                    records.len() == n - i,
                    records_view(records@) == seen.skip(i as int),
                    values.len() == i,
                    forall|j: int| 0 <= j < i ==> (#[trigger] values[j])@ == seen[j].parsed,
                decreases n - i,
            {
                let ghost waiting = records@;
                let record = records.remove(0);
                proof {
                    assert(records_view(waiting)[0] == seen.skip(i as int)[0]);
                    assert forall|j: int| 0 <= j < records.len() implies records_view(records@)[j]
                        == seen.skip(i + 1)[j] by {
                        assert(records_view(waiting)[j + 1] == seen.skip(i as int)[j + 1]);
                    }
                }
                values.push(record.parsed);
                i += 1;
            }
            proof {
                lemma_array_view(values);
                assert(items_view(values@) =~= parsed_of(seen));
            }
            Ok(Json::Array(values))
        },
    }
}

/// The lines that newline-delimited JSON writes for `items`: each as
/// compact JSON with a line feed behind it.
pub open spec fn ndjson_text(items: Seq<JsonView>) -> Seq<char>
    decreases items.len(),
{
    if items.len() == 0 {
        Seq::empty()
    } else {
        ndjson_text(items.drop_last()) + encoded_text(items.last()) + seq!['\n']
    }
}

/// Writes an array as newline-delimited JSON.
pub fn export_ndjson(value: &Json) -> (r: Result<String, ConvertError>)
    ensures
        match r {
            Ok(text) => value@ matches JsonView::Array(items) && text@ == ndjson_text(items),
            Err(e) => !(value@ is Array) && e.kind == ErrorKind::ExpectedArray && e.format
                == Format::Ndjson && e.detail is None,
        },
{
    match value {
        Json::Array(items) => {
            proof {
                lemma_array_view(*items);
                reveal_strlit("\n");
            }
            let ghost all = items_view(items@);
            let mut out = String::new();
            let mut i: usize = 0;
            while i < items.len()
                invariant
                    i <= items.len(),
                    "\n"@ == seq!['\n'],
                    all == items_view(items@),
                    out@ == ndjson_text(all.take(i as int)),
                decreases items.len() - i,
            {
                proof {
                    assert(all.take(i + 1).drop_last() =~= all.take(i as int));
                }
                out.append(to_text(&items[i]).as_str());
                out.append("\n");
                i += 1;
            }
            proof {
                assert(all.take(items.len() as int) =~= all);
            }
            Ok(out)
        },
        _ => Err(ConvertError::new(ErrorKind::ExpectedArray, Format::Ndjson)),
    }
}

// ---------------------------------------------------------------------------
// Tables
// ---------------------------------------------------------------------------

/// The names and texts of `pairs`.
pub open spec fn text_fields(pairs: Seq<(Seq<char>, Seq<char>)>, n: nat) -> Seq<(Seq<char>, JsonView)>
    decreases n,
{
    if n == 0 || n > pairs.len() {
        Seq::empty()
    } else {
        upsert(
            text_fields(pairs, (n - 1) as nat),
            pairs[n - 1].0,
            JsonView::String(pairs[n - 1].1),
        )
    }
}

/// The object that holds each text of `pairs` under its name; where a name
/// comes again, the later text stands.
pub open spec fn text_object(pairs: Seq<(Seq<char>, Seq<char>)>) -> JsonView {
    JsonView::Object(text_fields(pairs, pairs.len()))
}

/// Builds the object that holds each text under its name.
pub fn object_of_texts(pairs: &Vec<(String, String)>) -> (r: Json)
    ensures
        r@ == text_object(pairs_view(pairs@)),
{
    let empty: Vec<(String, Json)> = Vec::new();
    proof {
        lemma_object_view(empty);
        assert(fields_view(empty@) =~= Seq::empty());
    }
    let mut value = Json::Object(empty);
    let mut i: usize = 0;
    while i < pairs.len()
        invariant
            i <= pairs.len(),
            value@ == JsonView::Object(text_fields(pairs_view(pairs@), i as nat)),
        decreases pairs.len() - i,
    {
        value = value.with_field(pairs[i].0.clone(), Json::String(pairs[i].1.clone()));
        i += 1;
    }
    value
}

/// The rows of a table as documents: one object of texts for each row.
pub open spec fn rows_document(rows: Seq<Seq<(Seq<char>, Seq<char>)>>) -> JsonView {
    JsonView::Array(Seq::new(rows.len(), |i: int| text_object(rows[i])))
}

/// The rows of `rows`, each as names and texts.
pub open spec fn rows_view(rows: Seq<Vec<(String, String)>>) -> Seq<Seq<(Seq<char>, Seq<char>)>> {
    Seq::new(rows.len(), |i: int| pairs_view(rows[i]@))
}

/// Reads the rows of a Parquet file, each a list of column name and text,
/// into one array of objects.
pub fn import_parquet(rows: &Vec<Vec<(String, String)>>) -> (r: Json)
    ensures
        r@ == rows_document(rows_view(rows@)),
{
    let mut items: Vec<Json> = Vec::new();
    let mut i: usize = 0;
    while i < rows.len()
        invariant
            i <= rows.len(),
            items.len() == i,
            forall|j: int| 0 <= j < i ==> (#[trigger] items[j])@ == text_object(pairs_view(rows[j]@)),
        decreases rows.len() - i,
    {
        items.push(object_of_texts(&rows[i]));
        i += 1;
    }
    proof {
        lemma_array_view(items);
        assert(items_view(items@) =~= Seq::new(
            rows.len() as nat,
            |i: int| text_object(rows_view(rows@)[i]),
        ));
    }
    Json::Array(items)
}

/// The cells of a CSV record under the headers: the first with the first,
/// and so on, as far as both go.
pub open spec fn zipped(headers: Seq<Seq<char>>, record: Seq<Seq<char>>) -> Seq<(Seq<char>, Seq<char>)> {
    Seq::new(
        if headers.len() <= record.len() {
            headers.len()
        } else {
            record.len()
        },
        |i: int| (headers[i], record[i]),
    )
}

/// The records of `records`, each as texts.
pub open spec fn records_texts(records: Seq<Vec<String>>) -> Seq<Seq<Seq<char>>> {
    Seq::new(records.len(), |i: int| texts_view(records[i]@))
}

/// The rows of a CSV file as names and texts.
pub open spec fn csv_rows(headers: Seq<Seq<char>>, records: Seq<Seq<Seq<char>>>) -> Seq<
    Seq<(Seq<char>, Seq<char>)>,
> {
    Seq::new(records.len(), |i: int| zipped(headers, records[i]))
}

/// Reads the headers and records of a CSV file into one array of objects,
/// every cell a text under its header.
pub fn import_csv(headers: &Vec<String>, records: &Vec<Vec<String>>) -> (r: Json)
    ensures
        r@ == rows_document(csv_rows(texts_view(headers@), records_texts(records@))),
{
    let mut rows: Vec<Vec<(String, String)>> = Vec::new();
    let mut i: usize = 0;
    while i < records.len()
        invariant
            i <= records.len(),
            rows.len() == i,
            forall|j: int|
                0 <= j < i ==> pairs_view((#[trigger] rows[j])@) == zipped(
                    texts_view(headers@),
                    texts_view(records[j]@),
                ),
        decreases records.len() - i,
    {
        let record = &records[i];
        let mut row: Vec<(String, String)> = Vec::new();
        let mut k: usize = 0;
        while k < headers.len() && k < record.len()
            invariant
                k <= headers.len(),
                k <= record.len(),
                row.len() == k,
                forall|j: int|
                    0 <= j < k ==> (#[trigger] row[j]).0@ == headers[j]@ && row[j].1@ == record[j]@,
            decreases headers.len() - k,
        {
            row.push((headers[k].clone(), record[k].clone()));
            k += 1;
        }
        rows.push(row);
        i += 1;
    }
    proof {
        assert(rows_view(rows@) =~= csv_rows(texts_view(headers@), records_texts(records@)));
    }
    import_parquet(&rows)
}

/// The fields of an object as names and texts: each value written as
/// compact JSON.
pub open spec fn field_texts(fields: Seq<(Seq<char>, JsonView)>) -> Seq<(Seq<char>, Seq<char>)> {
    Seq::new(fields.len(), |i: int| (fields[i].0, encoded_text(fields[i].1)))
}

/// Position of the first of `items` from `from` on that is no object; the
/// number of items where all are objects.
pub open spec fn first_non_object(items: Seq<JsonView>, from: int) -> int
    decreases items.len() - from,
{
    if from < 0 || from >= items.len() {
        items.len() as int
    } else if !(items[from] is Object) {
        from
    } else {
        first_non_object(items, from + 1)
    }
}

/// The rows that a format of rows writes for a document: the fields of each
/// element as names and texts. The document has to be an array that is not
/// empty, and every element an object.
pub open spec fn table_of(value: JsonView) -> Result<Seq<Seq<(Seq<char>, Seq<char>)>>, ErrorKind> {
    match value {
        JsonView::Array(items) => if items.len() == 0 {
            Err(ErrorKind::NoRows)
        } else if !(items[0] is Object) {
            Err(ErrorKind::ExpectedObjectRows)
        } else if first_non_object(items, 0) < items.len() {
            Err(ErrorKind::ExpectedObjectRow)
        } else {
            Ok(Seq::new(items.len(), |i: int| field_texts(items[i]->Object_0)))
        },
        _ => Err(ErrorKind::ExpectedArray),
    }
}

/// The fields of an object as names and texts.
fn texts_of_fields(fields: &Vec<(String, Json)>) -> (r: Vec<(String, String)>)
    ensures
        pairs_view(r@) == field_texts(fields_view(fields@)),
{
    let mut out: Vec<(String, String)> = Vec::new();
    let mut i: usize = 0;
    while i < fields.len()
        invariant
            i <= fields.len(),
            out.len() == i,
            forall|j: int|
                0 <= j < i ==> (#[trigger] out[j]).0@ == fields[j].0@ && out[j].1@ == encoded_text(
                    fields[j].1@,
                ),
        decreases fields.len() - i,
    {
        out.push((fields[i].0.clone(), to_text(&fields[i].1)));
        i += 1;
    }
    out
}

/// Shapes a document into the rows that a format of rows writes.
pub fn table_rows(value: &Json, format: Format) -> (r: Result<Vec<Vec<(String, String)>>, ConvertError>)
    ensures
        match r {
            Ok(rows) => table_of(value@) == Ok::<Seq<Seq<(Seq<char>, Seq<char>)>>, ErrorKind>(
                rows_view(rows@),
            ),
            Err(e) => table_of(value@) == Err::<Seq<Seq<(Seq<char>, Seq<char>)>>, ErrorKind>(
                e.kind,
            ) && e.format == format && e.detail is None,
        },
        r matches Ok(rows) ==> rows.len() > 0,
{
    let items = match value {
        Json::Array(items) => items,
        _ => {
            return Err(ConvertError::new(ErrorKind::ExpectedArray, format));
        },
    };
    proof {
        lemma_array_view(*items);
    }
    let ghost all = items_view(items@);
    if items.len() == 0 {
        return Err(ConvertError::new(ErrorKind::NoRows, format));
    }
    match &items[0] {
        Json::Object(_) => {},
        _ => {
            return Err(ConvertError::new(ErrorKind::ExpectedObjectRows, format));
        },
    }
    let mut rows: Vec<Vec<(String, String)>> = Vec::new();
    let mut i: usize = 0;
    while i < items.len()
        invariant
            i <= items.len(),
            all == items_view(items@),
            value@ == JsonView::Array(all),
            all.len() > 0,
            all[0] is Object,
            first_non_object(all, 0) == first_non_object(all, i as int),
            rows.len() == i,
            forall|j: int| 0 <= j < i ==> (#[trigger] all[j]) is Object,
            forall|j: int|
                0 <= j < i ==> pairs_view((#[trigger] rows[j])@) == field_texts(all[j]->Object_0),
        decreases items.len() - i,
    {
        match &items[i] {
            Json::Object(fields) => {
                proof {
                    lemma_object_view(*fields);
                }
                let row = texts_of_fields(fields);
                rows.push(row);
                proof {
                    assert forall|j: int| 0 <= j < i + 1 implies pairs_view(
                        (#[trigger] rows[j])@,
                    ) == field_texts(all[j]->Object_0) by {
                    }
                }
            },
            _ => {
                return Err(ConvertError::new(ErrorKind::ExpectedObjectRow, format));
            },
        }
        i += 1;
    }
    proof {
        assert(rows_view(rows@) =~= Seq::new(all.len(), |i: int| field_texts(all[i]->Object_0)));
    }
    Ok(rows)
}

/// The names of `pairs`, in order.
pub open spec fn names_of(pairs: Seq<(Seq<char>, Seq<char>)>) -> Seq<Seq<char>> {
    Seq::new(pairs.len(), |i: int| pairs[i].0)
}

/// The names of `pairs`, in order.
pub fn names(pairs: &Vec<(String, String)>) -> (r: Vec<String>)
    ensures
        texts_view(r@) == names_of(pairs_view(pairs@)),
{
    let mut out: Vec<String> = Vec::new();
    let mut i: usize = 0;
    while i < pairs.len()
        invariant
            i <= pairs.len(),
            out.len() == i,
            forall|j: int| 0 <= j < i ==> (#[trigger] out[j])@ == pairs[j].0@,
        decreases pairs.len() - i,
    {
        out.push(pairs[i].0.clone());
        i += 1;
    }
    out
}

/// The cell of a row under `header`: the text of the field of that name, or
/// the empty text where the row has none.
pub open spec fn cell(row: Seq<(Seq<char>, Seq<char>)>, header: Seq<char>) -> Seq<char> {
    match crate::assoc::lookup(row, header) {
        Some(text) => text,
        None => Seq::empty(),
    }
}

/// The record of a row under `headers`.
pub open spec fn record_of(row: Seq<(Seq<char>, Seq<char>)>, headers: Seq<Seq<char>>) -> Seq<Seq<char>> {
    Seq::new(headers.len(), |i: int| cell(row, headers[i]))
}

/// The cell of a row under `header`.
fn cell_of(row: &Vec<(String, String)>, header: &str) -> (r: String)
    ensures
        r@ == cell(pairs_view(row@), header@),
{
    let ghost all = pairs_view(row@);
    let mut i: usize = row.len();
    proof {
        assert(all.take(i as int) =~= all);
    }
    while i > 0
        invariant
            i <= row.len(),
            all == pairs_view(row@),
            crate::assoc::last_index(all, header@) == crate::assoc::last_index(
                all.take(i as int),
                header@,
            ),
        decreases i,
    {
        i -= 1;
        proof {
            assert(all.take(i + 1).drop_last() =~= all.take(i as int));
        }
        if str_eq(row[i].0.as_str(), header) {
            return row[i].1.clone();
        }
    }
    String::new()
}

/// What is written to a CSV file.
#[derive(Debug)]
pub struct CsvTable {
    pub headers: Vec<String>,
    pub records: Vec<Vec<String>>,
}

/// Shapes a document into the headers and records of a CSV file: the
/// headers are the names of the first row, and every row gives one record
/// with its cells under those headers.
pub fn export_csv(value: &Json) -> (r: Result<CsvTable, ConvertError>)
    ensures
        match r {
            Ok(table) => table_of(value@) matches Ok(rows) && texts_view(table.headers@)
                == names_of(rows[0]) && records_texts(table.records@) == Seq::new(
                rows.len(),
                |i: int| record_of(rows[i], names_of(rows[0])),
            ),
            Err(e) => table_of(value@) == Err::<Seq<Seq<(Seq<char>, Seq<char>)>>, ErrorKind>(
                e.kind,
            ) && e.format == Format::Csv,
        },
{
    let rows = match table_rows(value, Format::Csv) {
        Ok(rows) => rows,
        Err(e) => {
            return Err(e);
        },
    };
    let headers = names(&rows[0]);
    let mut records: Vec<Vec<String>> = Vec::new();
    let mut i: usize = 0;
    while i < rows.len()
        invariant
            i <= rows.len(),
            records.len() == i,
            forall|j: int|
                0 <= j < i ==> texts_view((#[trigger] records[j])@) == record_of(
                    pairs_view(rows[j]@),
                    texts_view(headers@),
                ),
        decreases rows.len() - i,
    {
        let mut record: Vec<String> = Vec::new();
        let mut k: usize = 0;
        while k < headers.len()
            invariant
                i < rows.len(),
                k <= headers.len(),
                record.len() == k,
                forall|j: int|
                    0 <= j < k ==> (#[trigger] record[j])@ == cell(pairs_view(rows[i as int]@), headers[j]@),
            decreases headers.len() - k,
        {
            record.push(cell_of(&rows[i], headers[k].as_str()));
            k += 1;
        }
        records.push(record);
        i += 1;
    }
    Ok(CsvTable { headers, records })
}

/// The schema that an Avro file of rows declares: a record named `row`
/// with one field of type `string` for each name.
pub open spec fn avro_schema(names: Seq<Seq<char>>) -> Seq<char> {
    "{\"type\":\"record\",\"name\":\"row\",\"fields\":["@ + join(
        Seq::new(names.len(), |i: int| "{\"name\":\""@ + names[i] + "\",\"type\":\"string\"}"@),
        ","@,
    ) + "]}"@
}

/// Writes the schema that an Avro file of rows declares.
pub fn avro_schema_text(names: &Vec<String>) -> (r: String)
    ensures
        r@ == avro_schema(texts_view(names@)),
{
    let mut fields: Vec<String> = Vec::new();
    let mut i: usize = 0;
    while i < names.len()
        invariant
            i <= names.len(),
            fields.len() == i,
            forall|j: int|
                0 <= j < i ==> (#[trigger] fields[j])@ == "{\"name\":\""@ + names[j]@
                    + "\",\"type\":\"string\"}"@,
        decreases names.len() - i,
    {
        let mut field = String::from_str("{\"name\":\"");
        field.append(names[i].as_str());
        field.append("\",\"type\":\"string\"}");
        fields.push(field);
        i += 1;
    }
    proof {
        assert(texts_view(fields@) =~= Seq::new(
            names.len() as nat,
            |i: int| "{\"name\":\""@ + texts_view(names@)[i] + "\",\"type\":\"string\"}"@,
        ));
    }
    let mut schema = String::from_str("{\"type\":\"record\",\"name\":\"row\",\"fields\":[");
    schema.append(joined(&fields, ",").as_str());
    schema.append("]}");
    schema
}

// ---------------------------------------------------------------------------
// Avro values
// ---------------------------------------------------------------------------

/// The lower-case hexadecimal digit for `d`.
pub open spec fn hex_digit(d: int) -> char {
    if d == 0 {
        '0'
    } else if d == 1 {
        '1'
    } else if d == 2 {
        '2'
    } else if d == 3 {
        '3'
    } else if d == 4 {
        '4'
    } else if d == 5 {
        '5'
    } else if d == 6 {
        '6'
    } else if d == 7 {
        '7'
    } else if d == 8 {
        '8'
    } else if d == 9 {
        '9'
    } else if d == 10 {
        'a'
    } else if d == 11 {
        'b'
    } else if d == 12 {
        'c'
    } else if d == 13 {
        'd'
    } else if d == 14 {
        'e'
    } else {
        'f'
    }
}

/// The bytes written in hexadecimal, two lower-case digits for each.
pub open spec fn hex_text(bytes: Seq<u8>) -> Seq<char> {
    Seq::new(
        2 * bytes.len(),
        |i: int|
            if i % 2 == 0 {
                hex_digit(bytes[i / 2] as int / 16)
            } else {
                hex_digit(bytes[i / 2] as int % 16)
            },
    )
}

/// Calls `hex::encode`, which writes every byte as two lower-case
/// hexadecimal digits, the high one first.
#[verifier::external_body]
fn hex_encode(bytes: &Vec<u8>) -> (r: String)
    ensures
        r@ == hex_text(bytes@),
{
    hex::encode(bytes)
}

/// The JSON number that `serde_json::Number::from` makes of an integer.
pub uninterp spec fn integer_number(i: int) -> serde_json::Number;

/// Makes a JSON number of an integer with `serde_json::Number::from`; the
/// number is a function of the integer alone.
#[verifier::external_body]
fn number_from(i: i64) -> (r: serde_json::Number)
    ensures
        r == integer_number(i as int),
{
    serde_json::Number::from(i)
}

/// A value as an Avro file holds it. A float or double is held as the JSON
/// number it writes, or as nothing where it is not finite.
#[derive(Debug)]
pub enum AvroValue {
    Null,
    Boolean(bool),
    Int(i32),
    Long(i64),
    Float(Option<serde_json::Number>),
    Double(Option<serde_json::Number>),
    Bytes(Vec<u8>),
    String(String),
    Array(Vec<AvroValue>),
    /// A map from text to values.
    Dictionary(Vec<(String, AvroValue)>),
    Record(Vec<(String, AvroValue)>),
    /// Any other kind of value.
    Other,
}

/// The mathematical value of an [`AvroValue`].
pub ghost enum AvroView {
    Null,
    Boolean(bool),
    Int(int),
    Long(int),
    Float(Option<serde_json::Number>),
    Double(Option<serde_json::Number>),
    Bytes(Seq<u8>),
    Text(Seq<char>),
    Array(Seq<AvroView>),
    Dictionary(Seq<(Seq<char>, AvroView)>),
    Record(Seq<(Seq<char>, AvroView)>),
    Other,
}

/// The views of `items`, in order.
pub open spec fn avro_items_view(items: Seq<AvroValue>) -> Seq<AvroView> {
    Seq::new(items.len(), |i: int| items[i]@)
}

/// The names and views of `entries`, in order.
pub open spec fn avro_entries_view(entries: Seq<(String, AvroValue)>) -> Seq<(Seq<char>, AvroView)> {
    Seq::new(entries.len(), |i: int| (entries[i].0@, entries[i].1@))
}

impl View for AvroValue {
    type V = AvroView;

    open spec fn view(&self) -> AvroView
        decreases self,
    {
        match self {
            AvroValue::Null => AvroView::Null,
            AvroValue::Boolean(b) => AvroView::Boolean(*b),
            AvroValue::Int(i) => AvroView::Int(*i as int),
            AvroValue::Long(i) => AvroView::Long(*i as int),
            AvroValue::Float(n) => AvroView::Float(*n),
            AvroValue::Double(n) => AvroView::Double(*n),
            AvroValue::Bytes(bytes) => AvroView::Bytes(bytes@),
            AvroValue::String(text) => AvroView::Text(text@),
            AvroValue::Array(items) => AvroView::Array(
                Seq::new(
                    items.len() as nat,
                    |i: int|
                        if 0 <= i < items.len() {
                            items[i].view()
                        } else {
                            AvroView::Null
                        },
                ),
            ),
            AvroValue::Dictionary(entries) => AvroView::Dictionary(
                Seq::new(
                    entries.len() as nat,
                    |i: int|
                        if 0 <= i < entries.len() {
                            (entries[i].0.view(), entries[i].1.view())
                        } else {
                            (Seq::<char>::empty(), AvroView::Null)
                        },
                ),
            ),
            AvroValue::Record(entries) => AvroView::Record(
                Seq::new(
                    entries.len() as nat,
                    |i: int|
                        if 0 <= i < entries.len() {
                            (entries[i].0.view(), entries[i].1.view())
                        } else {
                            (Seq::<char>::empty(), AvroView::Null)
                        },
                ),
            ),
            AvroValue::Other => AvroView::Other,
        }
    }
}

/// The view of an array is the views of its items.
pub proof fn lemma_avro_array_view(items: Vec<AvroValue>)
    ensures
        AvroValue::Array(items)@ == AvroView::Array(avro_items_view(items@)),
{
    reveal_with_fuel(<AvroValue as View>::view, 2);
    assert(AvroValue::Array(items)@->Array_0 =~= avro_items_view(items@));
}

/// The view of a dictionary or record is the names and views of its entries.
pub proof fn lemma_avro_entries_view(entries: Vec<(String, AvroValue)>)
    ensures
        AvroValue::Dictionary(entries)@ == AvroView::Dictionary(avro_entries_view(entries@)),
        AvroValue::Record(entries)@ == AvroView::Record(avro_entries_view(entries@)),
{
    reveal_with_fuel(<AvroValue as View>::view, 2);
    assert(AvroValue::Dictionary(entries)@->Dictionary_0 =~= avro_entries_view(entries@));
}

/// The number as a document, or `null` where there is none.
pub open spec fn number_document(n: Option<serde_json::Number>) -> JsonView {
    match n {
        Some(n) => JsonView::Number(n),
        None => JsonView::Null,
    }
}

/// The document for an Avro value: numbers as numbers, bytes in
/// hexadecimal, arrays as arrays, dictionaries and records as objects,
/// anything else as `null`.
pub open spec fn avro_document(avro: AvroView) -> JsonView
    decreases avro, 0nat,
{
    match avro {
        AvroView::Null => JsonView::Null,
        AvroView::Boolean(b) => JsonView::Bool(b),
        AvroView::Int(i) => JsonView::Number(integer_number(i)),
        AvroView::Long(i) => JsonView::Number(integer_number(i)),
        AvroView::Float(n) => number_document(n),
        AvroView::Double(n) => number_document(n),
        AvroView::Bytes(bytes) => JsonView::String(hex_text(bytes)),
        AvroView::Text(text) => JsonView::String(text),
        AvroView::Array(items) => JsonView::Array(avro_documents(items, items.len())),
        AvroView::Dictionary(entries) => JsonView::Object(avro_fields(entries, entries.len())),
        AvroView::Record(entries) => JsonView::Object(avro_fields(entries, entries.len())),
        AvroView::Other => JsonView::Null,
    }
}

/// The documents for the first `n` of `items`.
pub open spec fn avro_documents(items: Seq<AvroView>, n: nat) -> Seq<JsonView>
    decreases items, n + 1,
{
    if n == 0 || n > items.len() {
        Seq::empty()
    } else {
        avro_documents(items, (n - 1) as nat).push(avro_document(items[n - 1]))
    }
}

/// The fields that the first `n` of `entries` write: each value under its
/// name, a later one in place of an earlier one of the same name.
pub open spec fn avro_fields(entries: Seq<(Seq<char>, AvroView)>, n: nat) -> Seq<(Seq<char>, JsonView)>
    decreases entries, n + 1,
{
    if n == 0 || n > entries.len() {
        Seq::empty()
    } else {
        upsert(
            avro_fields(entries, (n - 1) as nat),
            entries[n - 1].0,
            avro_document(entries[n - 1].1),
        )
    }
}

/// The number, or `null` where there is none.
fn number_or_null(n: &Option<serde_json::Number>) -> (r: Json)
    ensures
        r@ == number_document(*n),
{
    match n {
        Some(n) => Json::Number(crate::json::clone_number(n)),
        None => Json::Null,
    }
}

/// The documents for `items`.
fn avro_items(items: &Vec<AvroValue>) -> (r: Vec<Json>)
    ensures
        items_view(r@) == avro_documents(avro_items_view(items@), items.len() as nat),
    decreases items, 0nat,
{
    let ghost all = avro_items_view(items@);
    let mut out: Vec<Json> = Vec::new();
    let mut i: usize = 0;
    while i < items.len()
        invariant
            i <= items.len(),
            all == avro_items_view(items@),
            items_view(out@) == avro_documents(all, i as nat),
        decreases items.len() - i,
    {
        proof {
            vstd::std_specs::vec::axiom_vec_index_decreases(*items, i as int);
        }
        let item = avro_to_json(&items[i]);
        out.push(item);
        i += 1;
    }
    out
}

/// The object that `entries` write.
fn avro_object(entries: &Vec<(String, AvroValue)>) -> (r: Json)
    ensures
        r@ == JsonView::Object(avro_fields(avro_entries_view(entries@), entries.len() as nat)),
    decreases entries, 0nat,
{
    let ghost all = avro_entries_view(entries@);
    let empty: Vec<(String, Json)> = Vec::new();
    proof {
        lemma_object_view(empty);
        assert(fields_view(empty@) =~= Seq::empty());
    }
    let mut value = Json::Object(empty);
    let mut i: usize = 0;
    while i < entries.len()
        invariant
            i <= entries.len(),
            all == avro_entries_view(entries@),
            value@ == JsonView::Object(avro_fields(all, i as nat)),
        decreases entries.len() - i,
    {
        proof {
            vstd::std_specs::vec::axiom_vec_index_decreases(*entries, i as int);
        }
        value = value.with_field(entries[i].0.clone(), avro_to_json(&entries[i].1));
        i += 1;
    }
    value
}

/// The document for an Avro value.
pub fn avro_to_json(avro: &AvroValue) -> (r: Json)
    ensures
        r@ == avro_document(avro@),
    decreases avro, 1nat,
{
    match avro {
        AvroValue::Null => Json::Null,
        AvroValue::Boolean(b) => Json::Bool(*b),
        AvroValue::Int(i) => Json::Number(number_from(*i as i64)),
        AvroValue::Long(i) => Json::Number(number_from(*i)),
        AvroValue::Float(n) => number_or_null(n),
        AvroValue::Double(n) => number_or_null(n),
        AvroValue::Bytes(bytes) => Json::String(hex_encode(bytes)),
        AvroValue::String(text) => Json::String(text.clone()),
        AvroValue::Array(items) => {
            let out = avro_items(items);
            proof {
                lemma_avro_array_view(*items);
                lemma_array_view(out);
            }
            Json::Array(out)
        },
        AvroValue::Dictionary(entries) => {
            proof {
                lemma_avro_entries_view(*entries);
            }
            avro_object(entries)
        },
        AvroValue::Record(entries) => {
            proof {
                lemma_avro_entries_view(*entries);
            }
            avro_object(entries)
        },
        AvroValue::Other => Json::Null,
    }
}

/// Reads the values of an Avro file into one array.
pub fn import_avro(values: &Vec<AvroValue>) -> (r: Json)
    ensures
        r@ == JsonView::Array(avro_documents(avro_items_view(values@), values.len() as nat)),
{
    let items = avro_items(values);
    proof {
        lemma_array_view(items);
    }
    Json::Array(items)
}

/// Shapes a document into the columns and rows of a Parquet file: the
/// columns are the names of the first row, and every row gives its fields
/// as names and texts.
pub fn export_parquet(value: &Json) -> (r: Result<(Vec<String>, Vec<Vec<(String, String)>>), ConvertError>)
    ensures
        match r {
            Ok(table) => table_of(value@) == Ok::<Seq<Seq<(Seq<char>, Seq<char>)>>, ErrorKind>(
                rows_view(table.1@),
            ) && table.1.len() > 0 && texts_view(table.0@) == names_of(pairs_view(table.1[0]@)),
            Err(e) => table_of(value@) == Err::<Seq<Seq<(Seq<char>, Seq<char>)>>, ErrorKind>(
                e.kind,
            ) && e.format == Format::Parquet,
        },
{
    match table_rows(value, Format::Parquet) {
        Ok(rows) => {
            let columns = names(&rows[0]);
            Ok((columns, rows))
        },
        Err(e) => Err(e),
    }
}

/// Shapes a document into the schema and records of an Avro file: the
/// schema declares the names of the first row as text fields, and every row
/// gives its fields as names and texts.
pub fn export_avro(value: &Json) -> (r: Result<(String, Vec<Vec<(String, String)>>), ConvertError>)
    ensures
        match r {
            Ok(file) => table_of(value@) == Ok::<Seq<Seq<(Seq<char>, Seq<char>)>>, ErrorKind>(
                rows_view(file.1@),
            ) && file.1.len() > 0 && file.0@ == avro_schema(names_of(pairs_view(file.1[0]@))),
            Err(e) => table_of(value@) == Err::<Seq<Seq<(Seq<char>, Seq<char>)>>, ErrorKind>(
                e.kind,
            ) && e.format == Format::Avro,
        },
{
    match table_rows(value, Format::Avro) {
        Ok(records) => {
            let schema = avro_schema_text(&names(&records[0]));
            Ok((schema, records))
        },
        Err(e) => Err(e),
    }
}

// ---------------------------------------------------------------------------
// The conversion
// ---------------------------------------------------------------------------

/// What was read from the input file, in the form that its format is read in.
#[derive(Debug)]
pub enum Imported {
    /// The text of a JSON, YAML, TOML or NDJSON file.
    Text(String),
    /// The document that a MsgPack or CBOR file decodes to.
    Document(Json),
    /// The headers and records of a CSV file.
    Table { headers: Vec<String>, records: Vec<Vec<String>> },
    /// The rows of a Parquet file, each a list of column name and text.
    Rows(Vec<Vec<(String, String)>>),
    /// The values of an Avro file.
    Values(Vec<AvroValue>),
}

/// What is to be written to the output file, in the form that its format is
/// written in.
#[derive(Debug)]
pub enum Exported {
    /// The text of a JSON, YAML, TOML or NDJSON file.
    Text(String),
    /// The document to encode as MsgPack or CBOR.
    Document(Json),
    /// The headers and records of a CSV file.
    Table(CsvTable),
    /// The columns of a Parquet file and its rows, each a list of column
    /// name and text.
    Rows { columns: Vec<String>, rows: Vec<Vec<(String, String)>> },
    /// The schema of an Avro file and its records, each a list of field
    /// name and text.
    Records { schema: String, records: Vec<Vec<(String, String)>> },
}

/// Whether `r` is what reading `input` in the format `from` gives: the
/// document that the format's reader makes of the input, an error of kind
/// `Decode` where the reader refuses it, and an error of kind `WrongInput`
/// where the input is not of the kind that the format is read in.
pub open spec fn import_gives(input: Imported, from: Format, r: Result<Json, ConvertError>) -> bool {
    match (from, input) {
        (Format::Json, Imported::Text(text)) => match r {
            Ok(v) => decoded_text(text@) == Some(v@),
            Err(e) => decoded_text(text@) is None && e.kind == ErrorKind::Decode,
        },
        (Format::Yaml, Imported::Text(text)) => match r {
            Ok(v) => yaml_decoded(text@) == Some(v@),
            Err(e) => yaml_decoded(text@) is None && e.kind == ErrorKind::Decode,
        },
        (Format::Toml, Imported::Text(text)) => match r {
            Ok(v) => toml_decoded(text@) == Some(v@),
            Err(e) => toml_decoded(text@) is None && e.kind == ErrorKind::Decode,
        },
        (Format::Ndjson, Imported::Text(text)) => match r {
            Ok(v) => ndjson_document(text@) == Some(v@),
            Err(e) => ndjson_document(text@) is None && e.kind == ErrorKind::Decode,
        },
        (Format::MsgPack, Imported::Document(doc)) => r matches Ok(v) && v@ == doc@,
        (Format::Cbor, Imported::Document(doc)) => r matches Ok(v) && v@ == doc@,
        (Format::Csv, Imported::Table { headers, records }) => r matches Ok(v) && v@
            == rows_document(csv_rows(texts_view(headers@), records_texts(records@))),
        (Format::Parquet, Imported::Rows(rows)) => r matches Ok(v) && v@ == rows_document(
            rows_view(rows@),
        ),
        (Format::Avro, Imported::Values(values)) => r matches Ok(v) && v@ == JsonView::Array(
            avro_documents(avro_items_view(values@), values.len() as nat),
        ),
        _ => r matches Err(e) && e.kind == ErrorKind::WrongInput,
    }
}

/// Makes one document of what was read in the format `from`.
pub fn import(input: Imported, from: Format) -> (r: Result<Json, ConvertError>)
    ensures
        import_gives(input, from, r),
{
    match (from, input) {
        (Format::Json, Imported::Text(text)) => import_json(text.as_str()),
        (Format::Yaml, Imported::Text(text)) => import_yaml(text.as_str()),
        (Format::Toml, Imported::Text(text)) => import_toml(text.as_str()),
        (Format::Ndjson, Imported::Text(text)) => import_ndjson(text.as_str()),
        (Format::MsgPack, Imported::Document(doc)) => Ok(doc),
        (Format::Cbor, Imported::Document(doc)) => Ok(doc),
        (Format::Csv, Imported::Table { headers, records }) => Ok(import_csv(&headers, &records)),
        (Format::Parquet, Imported::Rows(rows)) => Ok(import_parquet(&rows)),
        (Format::Avro, Imported::Values(values)) => {
            Ok(import_avro(&values))
        },
        _ => Err(ConvertError::new(ErrorKind::WrongInput, from)),
    }
}

/// Whether `r` is what shaping `value` for the format `to` gives: the text
/// that the format's writer makes of the document; the document itself
/// where an encoder is to write it; or the table, rows or records that a
/// format of rows writes.
pub open spec fn export_gives(value: JsonView, to: Format, r: Result<Exported, ConvertError>) -> bool {
    match to {
        Format::Json => match r {
            Ok(out) => out matches Exported::Text(text) && pretty_text(value) == Some(text@),
            Err(e) => pretty_text(value) is None && e.kind == ErrorKind::Encode,
        },
        Format::Yaml => match r {
            Ok(out) => out matches Exported::Text(text) && yaml_encoded(value) == Some(text@),
            Err(e) => yaml_encoded(value) is None && e.kind == ErrorKind::Encode,
        },
        Format::Toml => match r {
            Ok(out) => out matches Exported::Text(text) && toml_encoded(value) == Some(text@),
            Err(e) => toml_encoded(value) is None && e.kind == ErrorKind::Encode,
        },
        Format::Ndjson => match r {
            Ok(out) => out matches Exported::Text(text) && value matches JsonView::Array(items)
                && text@ == ndjson_text(items),
            Err(e) => !(value is Array) && e.kind == ErrorKind::ExpectedArray,
        },
        Format::MsgPack => r matches Ok(Exported::Document(doc)) && doc@ == value,
        Format::Cbor => r matches Ok(Exported::Document(doc)) && doc@ == value,
        Format::Csv => match r {
            Ok(out) => out matches Exported::Table(table) && table_of(value) matches Ok(rows)
                && texts_view(table.headers@) == names_of(rows[0]) && records_texts(
                table.records@,
            ) == Seq::new(rows.len(), |i: int| record_of(rows[i], names_of(rows[0]))),
            Err(e) => table_of(value) == Err::<Seq<Seq<(Seq<char>, Seq<char>)>>, ErrorKind>(
                e.kind,
            ),
        },
        Format::Parquet => match r {
            Ok(out) => out matches Exported::Rows { columns, rows } && table_of(value) == Ok::<
                Seq<Seq<(Seq<char>, Seq<char>)>>,
                ErrorKind,
            >(rows_view(rows@)) && rows.len() > 0 && texts_view(columns@) == names_of(
                pairs_view(rows[0]@),
            ),
            Err(e) => table_of(value) == Err::<Seq<Seq<(Seq<char>, Seq<char>)>>, ErrorKind>(
                e.kind,
            ),
        },
        Format::Avro => match r {
            Ok(out) => out matches Exported::Records { schema, records } && table_of(value)
                == Ok::<Seq<Seq<(Seq<char>, Seq<char>)>>, ErrorKind>(rows_view(records@))
                && records.len() > 0 && schema@ == avro_schema(names_of(pairs_view(records[0]@))),
            Err(e) => table_of(value) == Err::<Seq<Seq<(Seq<char>, Seq<char>)>>, ErrorKind>(
                e.kind,
            ),
        },
    }
}

/// Shapes a document for the format `to`.
pub fn export(value: &Json, to: Format) -> (r: Result<Exported, ConvertError>)
    ensures
        export_gives(value@, to, r),
{
    match to {
        Format::Json => match export_json(value) {
            Ok(text) => Ok(Exported::Text(text)),
            Err(e) => Err(e),
        },
        Format::Yaml => match export_yaml(value) {
            Ok(text) => Ok(Exported::Text(text)),
            Err(e) => Err(e),
        },
        Format::Toml => match export_toml(value) {
            Ok(text) => Ok(Exported::Text(text)),
            Err(e) => Err(e),
        },
        Format::Ndjson => match export_ndjson(value) {
            Ok(text) => Ok(Exported::Text(text)),
            Err(e) => Err(e),
        },
        Format::MsgPack => Ok(Exported::Document(value.clone())),
        Format::Cbor => Ok(Exported::Document(value.clone())),
        Format::Csv => match export_csv(value) {
            Ok(table) => Ok(Exported::Table(table)),
            Err(e) => Err(e),
        },
        Format::Parquet => match export_parquet(value) {
            Ok((columns, rows)) => Ok(Exported::Rows { columns, rows }),
            Err(e) => Err(e),
        },
        Format::Avro => match export_avro(value) {
            Ok((schema, records)) => Ok(Exported::Records { schema, records }),
            Err(e) => Err(e),
        },
    }
}

/// Converts what was read in the format `from` into what is to be written
/// in the format `to`: the input becomes one document, and the document is
/// shaped for the output. An error of the reading is the error of the
/// conversion.
pub fn convert(input: Imported, from: Format, to: Format) -> (r: Result<Exported, ConvertError>)
    ensures
        exists|read: Result<Json, ConvertError>|
            import_gives(input, from, read) && match read {
                Ok(value) => export_gives(value@, to, r),
                Err(e) => r == Err::<Exported, ConvertError>(e),
            },
{
    match import(input, from) {
        Ok(value) => export(&value, to),
        Err(e) => Err(e),
    }
}

} // verus!
