//! Parsing a column of JSON strings into a record batch of a given schema.
//!
//! The strings are joined into newline-delimited JSON, one line per non-null
//! string, which `arrow_json` decodes; the decoded batches are concatenated into one.

use arrow_array::cast::AsArray;
use arrow_array::RecordBatch;
use arrow_schema::{ArrowError, Schema};
use std::sync::Arc;
use vstd::prelude::*;
use vstd::utf8::encode_utf8;

verus! {

#[verifier::external_type_specification]
#[verifier::external_body]
pub struct ExArrowError(ArrowError);

/// An arrow record batch, held whole: Verus cannot take `RecordBatch` as a declared
/// type (its `Index` impl names the trait `arrow_array::Array`), so the batch lives in
/// this struct's field, which Verus does not see. What it holds is read through the
/// name `batch_string_columns`.
#[verifier::external_body]
pub struct ArrowBatch {
    pub batch: RecordBatch,
}

/// The arrow schema that parsed JSON is decoded into, held whole like `ArrowBatch`;
/// what decoding under it gives is named by `json_decode` and `json_decoder_builds`.
#[verifier::external_body]
pub struct OutputSchema {
    pub schema: Arc<Schema>,
}

/// Why JSON strings could not be parsed.
#[derive(Debug)]
pub enum JsonParseError {
    /// The input does not have exactly one column.
    MissingColumn(String),
    /// The input's column does not hold strings.
    UnexpectedColumnType(String),
    /// `arrow_json` or `arrow_select` refused the data.
    Arrow(ArrowError),
}

/// A column's strings, by their text (`None` for a null entry).
pub open spec fn strings_view(values: Seq<Option<String>>) -> Seq<Option<Seq<char>>> {
    values.map_values(
        |v: Option<String>|
            match v {
                Some(s) => Some(s@),
                None => None,
            },
    )
}

/// A batch's columns read as strings: per column, its strings where it holds
/// strings, else `None`.
pub open spec fn columns_view(columns: Seq<Option<Vec<Option<String>>>>) -> Seq<
    Option<Seq<Option<Seq<char>>>>,
> {
    columns.map_values(
        |c: Option<Vec<Option<String>>>|
            match c {
                Some(v) => Some(strings_view(v@)),
                None => None,
            },
    )
}

/// The bytes handed to the JSON decoder: each non-null string, UTF-8 encoded and
/// followed by a newline, in order; null entries contribute nothing.
pub open spec fn json_lines(values: Seq<Option<Seq<char>>>) -> Seq<u8>
    decreases values.len(),
{
    if values.len() == 0 {
        Seq::empty()
    } else {
        let prev = json_lines(values.drop_last());
        match values.last() {
            Some(s) => prev + encode_utf8(s) + seq![10u8],
            None => prev,
        }
    }
}

/// Framing appends exactly one line per non-null entry, whatever its neighbours hold:
/// a further non-null string adds its UTF-8 bytes and a newline, a further null adds
/// nothing.
pub proof fn lemma_json_lines_push(values: Seq<Option<Seq<char>>>, next: Option<Seq<char>>)
    ensures
        json_lines(values.push(next)) == match next {
            Some(s) => json_lines(values) + encode_utf8(s) + seq![10u8],
            None => json_lines(values),
        },
{
    assert(values.push(next).drop_last() =~= values);
}

/// Framing is taken entry by entry: the bytes for two runs of entries, one after
/// the other, are the bytes for the first run followed by those for the second.
pub proof fn lemma_json_lines_concat(a: Seq<Option<Seq<char>>>, b: Seq<Option<Seq<char>>>)
    ensures
        json_lines(a + b) == json_lines(a) + json_lines(b),
    decreases b.len(),
{
    if b.len() == 0 {
        assert(a + b =~= a);
        assert(json_lines(b) =~= Seq::<u8>::empty());
        assert(json_lines(a) + json_lines(b) =~= json_lines(a));
    } else {
        lemma_json_lines_concat(a, b.drop_last());
        assert((a + b).drop_last() =~= a + b.drop_last());
        assert((a + b).last() == b.last());
        match b.last() {
            Some(s) => {
                assert(json_lines(a) + json_lines(b.drop_last()) + encode_utf8(s) + seq![10u8]
                    =~= json_lines(a) + (json_lines(b.drop_last()) + encode_utf8(s) + seq![10u8]));
            },
            None => {},
        }
    }
}

/// One non-null string is one line: its UTF-8 bytes and a newline; one null is no
/// bytes at all.
pub proof fn lemma_json_lines_single(next: Option<Seq<char>>)
    ensures
        json_lines(seq![next]) == match next {
            Some(s) => encode_utf8(s) + seq![10u8],
            None => Seq::<u8>::empty(),
        },
{
    lemma_json_lines_push(Seq::empty(), next);
    assert(Seq::<Option<Seq<char>>>::empty().push(next) =~= seq![next]);
    assert(json_lines(Seq::<Option<Seq<char>>>::empty()) =~= Seq::<u8>::empty());
    match next {
        Some(s) => {
            assert(Seq::<u8>::empty() + encode_utf8(s) + seq![10u8] =~= encode_utf8(s) + seq![10u8]);
        },
        None => {},
    }
}

/// A column without a non-null string hands the decoder no bytes.
pub proof fn lemma_json_lines_of_nulls(values: Seq<Option<Seq<char>>>)
    requires
        forall|i: int| 0 <= i < values.len() ==> #[trigger] values[i] is None,
    ensures
        json_lines(values) == Seq::<u8>::empty(),
    decreases values.len(),
{
    if values.len() > 0 {
        lemma_json_lines_of_nulls(values.drop_last());
    }
}

/// Joins the non-null strings into newline-delimited JSON.
pub fn frame_json_lines(values: &Vec<Option<String>>) -> (data: Vec<u8>)
    ensures
        data@ == json_lines(strings_view(values@)),
{
    let mut data: Vec<u8> = Vec::new();
    let mut i: usize = 0;
    while i < values.len()
        invariant
            0 <= i <= values.len(),
            data@ == json_lines(strings_view(values@.take(i as int))),
        decreases values.len() - i,
    {
        proof {
            let next = strings_view(values@.take(i + 1));
            assert(next.drop_last() =~= strings_view(values@.take(i as int)));
            assert(next.last() == strings_view(values@)[i as int]);
        }
        match &values[i] {
            Some(s) => {
                let bytes = s.as_str().as_bytes();
                let ghost before = data@;
                let mut j: usize = 0;
                while j < bytes.len()
                    invariant
                        0 <= j <= bytes@.len(),
                        bytes@ == encode_utf8(s@),
                        data@ == before + bytes@.take(j as int),
                    decreases bytes@.len() - j,
                {
                    data.push(bytes[j]);
                    proof {
                        assert(bytes@.take(j + 1) =~= bytes@.take(j as int).push(bytes@[j as int]));
                    }
                    j = j + 1;
                }
                proof {
                    assert(bytes@.take(bytes@.len() as int) =~= bytes@);
                }
                data.push(10u8);
            },
            None => {},
        }
        i = i + 1;
    }
    proof {
        assert(values@.take(values@.len() as int) =~= values@);
    }
    data
}

/// The message of the error for an input without exactly one column.
pub open spec fn missing_column_message() -> Seq<char> {
    "Expected single column"@
}

/// The message of the error for an input whose column does not hold strings.
pub open spec fn unexpected_type_message() -> Seq<char> {
    "Expected column to be String"@
}

/// Checks that the input is a single column of strings and joins its non-null
/// strings into newline-delimited JSON, ready for the decoder. The input holds one
/// entry per column of the batch to parse: the column's values where it holds
/// strings, `None` where it does not.
pub fn json_lines_of_columns(columns: &Vec<Option<Vec<Option<String>>>>) -> (r: Result<
    Vec<u8>,
    JsonParseError,
>)
    ensures
        columns@.len() != 1 <==> (r matches Err(JsonParseError::MissingColumn(m))
            && m@ == missing_column_message()),
        (columns@.len() == 1 && columns@[0] is None) <==> (r matches Err(
            JsonParseError::UnexpectedColumnType(m),
        ) && m@ == unexpected_type_message()),
        columns@.len() == 1 && columns@[0] is Some ==> (r matches Ok(data) && data@ == json_lines(
            strings_view(columns@[0]->0@),
        )),
{
    if columns.len() != 1 {
        return Err(JsonParseError::MissingColumn(String::from_str("Expected single column")));
    }
    match &columns[0] {
        None => Err(
            JsonParseError::UnexpectedColumnType(String::from_str("Expected column to be String")),
        ),
        Some(values) => Ok(frame_json_lines(values)),
    }
}

/// The columns of a batch read as strings by `string_columns`: per column, the
/// values of a UTF-8 column with 32-bit offsets (`None` for a null entry), `None` for
/// any other column.
pub uninterp spec fn batch_string_columns(batch: ArrowBatch) -> Seq<Option<Seq<Option<Seq<char>>>>>;

/// Reads each column of `json_strings` as strings: a column of UTF-8 strings with
/// 32-bit offsets becomes its values (`None` for a null entry), any other column
/// `None`.
///
/// Calls `arrow_array::cast::AsArray::as_string_opt::<i32>` on each of the batch's
/// `RecordBatch::columns` and copies the values out. Claimed of it: what comes back
/// is what the batch holds, read so (named `batch_string_columns`).
#[verifier::external_body]
fn string_columns(json_strings: &ArrowBatch) -> (r: Vec<Option<Vec<Option<String>>>>)
    ensures
        columns_view(r@) == batch_string_columns(*json_strings),
{
    json_strings.batch.columns().iter().map(
        |c| c.as_string_opt::<i32>().map(|a| a.iter().map(|v| v.map(String::from)).collect()),
    ).collect()
}

/// Whether `arrow_json::ReaderBuilder::build` makes a decoder for the schema (it
/// refuses some field types); it depends on the schema alone.
pub uninterp spec fn json_decoder_builds(schema: OutputSchema) -> bool;

/// What decoding `data` under `schema` gives: the one batch made of the batches that
/// the `arrow_json` reader reads, joined by `concat_batches`, or `None` where a step
/// fails.
pub uninterp spec fn json_decode(schema: OutputSchema, data: Seq<u8>) -> Option<ArrowBatch>;

/// Decodes newline-delimited JSON into one record batch of `schema`: the batches that
/// `arrow_json::ReaderBuilder::new(schema).build(..)` reads from `data`, joined by
/// `arrow_select::concat::concat_batches`.
///
/// Claimed of it, as the sources show: the outcome depends on the schema and the data
/// alone (named `json_decode`); it fails where the decoder cannot be built for the
/// schema; with no data it succeeds exactly where the decoder can be built (the reader
/// then yields no batch, and no batches concatenate to an empty batch). How JSON text
/// becomes rows is `arrow_json`'s and is not stated.
#[verifier::external_body]
fn decode_json_lines(schema: &OutputSchema, data: Vec<u8>) -> (r: Result<ArrowBatch, ArrowError>)
    ensures
        r is Ok <==> json_decode(*schema, data@) is Some,
        r matches Ok(b) ==> json_decode(*schema, data@) == Some(b),
        r is Ok ==> json_decoder_builds(*schema),
        data@.len() == 0 ==> (r is Ok <==> json_decoder_builds(*schema)),
{
    let batches = arrow_json::ReaderBuilder::new(schema.schema.clone()).build(
        std::io::Cursor::new(data),
    )?.collect::<Result<Vec<RecordBatch>, ArrowError>>()?;
    arrow_select::concat::concat_batches(&schema.schema, &batches).map(|batch| ArrowBatch { batch })
}

/// What parsing gives for a batch whose columns, read as strings, are `columns`:
/// an error unless there is exactly one column and it holds strings; else the
/// decoding, under `schema`, of the column's non-null strings one per line, in order
/// (so that null entries give no row). A column with no non-null string decodes to
/// a batch exactly where the decoder can be built for the schema.
pub open spec fn parse_json_outcome(
    columns: Seq<Option<Seq<Option<Seq<char>>>>>,
    schema: OutputSchema,
    r: Result<ArrowBatch, JsonParseError>,
) -> bool {
    &&& columns.len() != 1 <==> (r matches Err(JsonParseError::MissingColumn(m)) && m@
        == missing_column_message())
    &&& (columns.len() == 1 && columns[0] is None) <==> (r matches Err(
        JsonParseError::UnexpectedColumnType(m),
    ) && m@ == unexpected_type_message())
    &&& columns.len() == 1 && columns[0] is Some ==> {
        let data = json_lines(columns[0]->0);
        &&& r is Ok <==> json_decode(schema, data) is Some
        &&& r matches Ok(b) ==> json_decode(schema, data) == Some(b)
        &&& r is Err ==> (r matches Err(JsonParseError::Arrow(_)))
        &&& (forall|i: int| 0 <= i < columns[0]->0.len() ==> #[trigger] columns[0]->0[i] is None)
            ==> (r is Ok <==> json_decoder_builds(schema))
    }
}

/// Parses the JSON strings of a single string column (one entry per column of the
/// input batch: its values where it holds strings, else `None`) into one record batch
/// of `output_schema`. The decoder is handed exactly `json_lines` of the column.
pub fn parse_json_columns(columns: &Vec<Option<Vec<Option<String>>>>, output_schema: &OutputSchema) -> (r:
    Result<ArrowBatch, JsonParseError>)
    ensures
        parse_json_outcome(columns_view(columns@), *output_schema, r),
{
    let ghost cols = columns_view(columns@);
    match json_lines_of_columns(columns) {
        Err(e) => Err(e),
        Ok(data) => {
            proof {
                assert(cols[0]->0 == strings_view(columns@[0]->0@));
                if forall|i: int| 0 <= i < cols[0]->0.len() ==> #[trigger] cols[0]->0[i] is None {
                    lemma_json_lines_of_nulls(cols[0]->0);
                }
            }
            match decode_json_lines(output_schema, data) {
                Ok(batch) => Ok(batch),
                Err(e) => Err(JsonParseError::Arrow(e)),
            }
        },
    }
}

/// The JSON handler that parses with `arrow_json`.
pub struct SimpleJsonHandler {}

impl SimpleJsonHandler {
    /// Parses a batch that holds one column of JSON strings into one record batch of
    /// `output_schema`: the column's non-null strings, one per line in order, decoded
    /// by `arrow_json`; an error where the batch is not a single column of strings, or
    /// where decoding fails.
    pub fn parse_json(&self, json_strings: &ArrowBatch, output_schema: &OutputSchema) -> (r: Result<
        ArrowBatch,
        JsonParseError,
    >)
        ensures
            parse_json_outcome(batch_string_columns(*json_strings), *output_schema, r),
    {
        let columns = string_columns(json_strings);
        parse_json_columns(&columns, output_schema)
    }
}

} // verus!
