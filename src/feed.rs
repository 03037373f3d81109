//! Reading a compressed feed: decompression and the JSON shape of its elements, then decoding.
use std::io::Read;
use vstd::prelude::*;
use crate::decoder::{decode_rows, decodes_feed, elements_view, fields_view, NewEntry};

verus! {

#[verifier::external_type_specification]
#[verifier::external_body]
pub struct ExJson(json_minimal::Json);

/// Why a feed could not be read.
#[derive(Clone, Copy, Debug, PartialEq, Eq, Structural)]
pub enum FeedError {
    /// The bytes are not a valid xz stream.
    Decompress,
    /// The decompressed bytes are not a JSON document whose top level lists the rows.
    Format,
}

/// The bytes that xz2 decompresses `b` to; `None` when `b` is not a valid xz stream.
pub uninterp spec fn xz_decoded(b: Seq<u8>) -> Option<Seq<u8>>;

/// Relies on xz2's `read::XzDecoder` read to the end: the result depends on the input alone.
#[verifier::external_body]
fn decompress(bytes: &[u8]) -> (r: Option<Vec<u8>>)
    ensures
        r is Some <==> xz_decoded(bytes@) is Some,
        r is Some ==> xz_decoded(bytes@) == Some(r->0@),
{
    let mut out = Vec::new();
    match xz2::read::XzDecoder::new(bytes).read_to_end(&mut out) {
        Ok(_) => Some(out),
        Err(_) => None,
    }
}

/// A JSON value as the feed reader sees it. Numbers, booleans and null are not told apart.
#[derive(Debug)]
pub enum JsonValue {
    /// A `"name": value` member of a document.
    Member(String, Box<JsonValue>),
    /// A `{...}` document: its members.
    Document(Vec<JsonValue>),
    Array(Vec<JsonValue>),
    Text(String),
    Other,
}

/// What json_minimal's parser makes of `b`, as a `JsonValue`; `None` when it fails.
pub uninterp spec fn parsed_json(b: Seq<u8>) -> Option<JsonValue>;

/// Relies on json_minimal's `Json`: one `JsonValue` per value, variant for variant. Only
/// `parse_json` calls it, on what the parser returned.
#[verifier::external_body]
fn json_value_of(j: json_minimal::Json) -> JsonValue {
    match j {
        json_minimal::Json::OBJECT { name, value } => JsonValue::Member(name, Box::new(json_value_of(*value))),
        json_minimal::Json::JSON(v) => JsonValue::Document(v.into_iter().map(json_value_of).collect()),
        json_minimal::Json::ARRAY(v) => JsonValue::Array(v.into_iter().map(json_value_of).collect()),
        json_minimal::Json::STRING(s) => JsonValue::Text(s),
        _ => JsonValue::Other,
    }
}

/// Relies on json_minimal's `Json::parse`: the result depends on the bytes alone. It indexes
/// the input without bounds checks after its first byte, after a `,` and after a value that
/// ends the input; none of these reaches past the end when the last byte is a space, which no
/// value ends with.
#[verifier::external_body]
fn parse_json(bytes: &[u8]) -> (r: Option<JsonValue>)
    requires
        bytes@.len() > 0,
        bytes@.last() == 32u8,
    ensures
        r == parsed_json(bytes@),
{
    json_minimal::Json::parse(bytes).ok().map(json_value_of)
}

pub open spec fn text_of(v: JsonValue) -> Seq<char> {
    match v {
        JsonValue::Text(s) => s@,
        _ => Seq::empty(),
    }
}

/// The fields of one element of the feed's top level: the strings of the array that a member
/// holds, or `None` when it is not a member whose value is an array of strings.
pub open spec fn element_fields(m: JsonValue) -> Option<Seq<Seq<char>>> {
    match m {
        JsonValue::Member(_, b) => match *b {
            JsonValue::Array(items) => if forall|i: int|
                0 <= i < items@.len() ==> (#[trigger] items@[i]) is Text {
                Some(items@.map_values(|x: JsonValue| text_of(x)))
            } else {
                None
            },
            _ => None,
        },
        _ => None,
    }
}

/// The elements of a decompressed feed: the bytes, with a space after them, parse to a
/// document, whose members give the elements in order.
pub open spec fn feed_elements_of(b: Seq<u8>) -> Option<Seq<Option<Seq<Seq<char>>>>> {
    if b.len() == 0 {
        None
    } else {
        match parsed_json(b.push(32u8)) {
            Some(JsonValue::Document(ms)) => Some(ms@.map_values(|m: JsonValue| element_fields(m))),
            _ => None,
        }
    }
}

/// The fields of one top-level element.
fn element_row(m: &JsonValue) -> (r: Option<Vec<String>>)
    ensures
        match r {
            Some(v) => element_fields(*m) == Some(fields_view(v@)),
            None => element_fields(*m) is None,
        },
{
    match m {
        JsonValue::Member(_, b) => match &**b {
            JsonValue::Array(items) => {
                let ghost expected = element_fields(*m);
                assert(expected == if forall|j: int|
                    0 <= j < items@.len() ==> (#[trigger] items@[j]) is Text {
                    Some(items@.map_values(|x: JsonValue| text_of(x)))
                } else {
                    None::<Seq<Seq<char>>>
                });
                let mut out: Vec<String> = Vec::new();
                let mut i: usize = 0;
                while i < items.len()
                    invariant
                        expected == element_fields(*m),
                        expected == if forall|j: int|
                            0 <= j < items@.len() ==> (#[trigger] items@[j]) is Text {
                            Some(items@.map_values(|x: JsonValue| text_of(x)))
                        } else {
                            None::<Seq<Seq<char>>>
                        },
                        i <= items.len(),
                        out.len() == i,
                        forall|j: int| 0 <= j < i ==> (#[trigger] items@[j]) is Text,
                        forall|j: int| 0 <= j < i ==> (#[trigger] out@[j])@ == text_of(items@[j]),
                    decreases items.len() - i,
                {
                    match &items[i] {
                        JsonValue::Text(s) => out.push(s.clone()),
                        _ => {
                            assert(!(items@[i as int] is Text));
                            return None;
                        },
                    }
                    i = i + 1;
                }
                assert(fields_view(out@) =~= items@.map_values(|x: JsonValue| text_of(x)));
                Some(out)
            },
            _ => None,
        },
        _ => None,
    }
}

/// The elements of a decompressed feed, in order, each as the strings of its row or `None`.
/// Input that does not parse to a JSON document listing members is a format error.
pub fn feed_elements(bytes: &[u8]) -> (r: Result<Vec<Option<Vec<String>>>, FeedError>)
    ensures
        r is Ok <==> feed_elements_of(bytes@) is Some,
        r is Ok ==> elements_view(r->Ok_0@) == feed_elements_of(bytes@)->0,
        r is Err ==> r == Err::<Vec<Option<Vec<String>>>, FeedError>(FeedError::Format),
{
    if bytes.len() == 0 {
        return Err(FeedError::Format);
    }
    // JSON allows trailing whitespace; the parser needs it to stay within bounds.
    let mut text: Vec<u8> = Vec::new();
    let mut i: usize = 0;
    while i < bytes.len()
        invariant
            i <= bytes.len(),
            text@ == bytes@.subrange(0, i as int),
        decreases bytes.len() - i,
    {
        text.push(bytes[i]);
        i = i + 1;
    }
    text.push(32u8);
    assert(text@ =~= bytes@.push(32u8));
    let members = match parse_json(text.as_slice()) {
        Some(JsonValue::Document(ms)) => ms,
        _ => return Err(FeedError::Format),
    };
    let mut out: Vec<Option<Vec<String>>> = Vec::new();
    let mut k: usize = 0;
    while k < members.len()
        invariant
            k <= members.len(),
            out.len() == k,
            forall|j: int|
                0 <= j < k ==> elements_view(out@)[j] == element_fields(#[trigger] members@[j]),
        decreases members.len() - k,
    {
        let row = element_row(&members[k]);
        out.push(row);
        k = k + 1;
    }
    assert(elements_view(out@) =~= members@.map_values(|m: JsonValue| element_fields(m)));
    Ok(out)
}

/// Decompresses and decodes a feed. A stream that does not decompress is a `Decompress`
/// error; otherwise the entries are the decoding of the feed's elements, as `decode_rows`
/// states it, or the feed is a `Format` error.
pub fn load_feed(compressed: &[u8]) -> (r: Result<Vec<NewEntry>, FeedError>)
    ensures
        xz_decoded(compressed@) is None <==> r == Err::<Vec<NewEntry>, FeedError>(FeedError::Decompress),
        xz_decoded(compressed@) is Some && feed_elements_of(xz_decoded(compressed@)->0) is None
            ==> r == Err::<Vec<NewEntry>, FeedError>(FeedError::Format),
        xz_decoded(compressed@) is Some && feed_elements_of(xz_decoded(compressed@)->0) is Some
            ==> r is Ok && decodes_feed(r->Ok_0@, feed_elements_of(xz_decoded(compressed@)->0)->0),
{
    let bytes = match decompress(compressed) {
        Some(b) => b,
        None => return Err(FeedError::Decompress),
    };
    let raw = match feed_elements(bytes.as_slice()) {
        Ok(raw) => raw,
        Err(e) => return Err(e),
    };
    let es = decode_rows(&raw);
    let r: Result<Vec<NewEntry>, FeedError> = Ok(es);
    r
}

} // verus!
