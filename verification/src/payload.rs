use vstd::prelude::*;

use crate::errors::{error_status, path_not_found_view, HttpError, HttpErrorView, NOT_FOUND};
use crate::observability::ascii_lowercase;

use serde::de::IntoDeserializer;
use serde::Deserialize;

verus! {

/// Largest JSON request body accepted, in bytes.
pub const JSON_PAYLOAD_LIMIT: usize = 8192;

/// JSON request body; a body that cannot be read is answered as a `400` problem.
pub struct JsonPayload<T>(pub T);

/// Query string; one that cannot be read is answered as a `400` problem.
pub struct QueryPayload<T>(pub T);

/// A UUID path segment, as the 128-bit big-endian value of the UUID.
pub struct PathUuid(pub u128);

/// The value of a hexadecimal digit of either case, `-1` for any other character.
pub open spec fn hex_char_value(c: char) -> int {
    let v = c as u32;
    if 0x30 <= v <= 0x39 {
        v - 0x30
    } else if 0x61 <= v <= 0x66 {
        v - 0x61 + 10
    } else if 0x41 <= v <= 0x46 {
        v - 0x41 + 10
    } else {
        -1
    }
}

pub open spec fn all_hex(s: Seq<char>) -> bool {
    forall|i: int| 0 <= i < s.len() ==> hex_char_value(#[trigger] s[i]) >= 0
}

/// The number that a string of hexadecimal digits writes, most significant first.
pub open spec fn hex_value(s: Seq<char>) -> int
    decreases s.len(),
{
    if s.len() == 0 {
        0
    } else {
        hex_value(s.drop_last()) * 16 + hex_char_value(s.last())
    }
}

/// The 32 digits of a hyphenated UUID text, without its hyphens.
pub open spec fn hyphen_free_digits(s: Seq<char>) -> Seq<char> {
    s.subrange(0, 8) + s.subrange(9, 13) + s.subrange(14, 18) + s.subrange(19, 23) + s.subrange(
        24,
        36,
    )
}

/// `xxxxxxxx-xxxx-xxxx-xxxx-xxxxxxxxxxxx`, each `x` a hexadecimal digit of either case.
pub open spec fn is_hyphenated_uuid(s: Seq<char>) -> bool {
    &&& s.len() == 36
    &&& s[8] == '-' && s[13] == '-' && s[18] == '-' && s[23] == '-'
    &&& all_hex(hyphen_free_digits(s))
}

/// The prefix of the URN form of a UUID.
pub open spec fn urn_prefix() -> Seq<char> {
    seq!['u', 'r', 'n', ':', 'u', 'u', 'i', 'd', ':']
}

/// The 32 digits of a text that `Uuid::from_str` accepts, `None` for any other text.
/// It accepts 32 hexadecimal digits; the hyphenated form; the hyphenated form in
/// braces; and the hyphenated form after `urn:uuid:` in any case.
pub open spec fn uuid_text_digits(s: Seq<char>) -> Option<Seq<char>> {
    if s.len() == 32 {
        if all_hex(s) {
            Some(s)
        } else {
            None
        }
    } else if s.len() == 36 {
        if is_hyphenated_uuid(s) {
            Some(hyphen_free_digits(s))
        } else {
            None
        }
    } else if s.len() == 38 {
        if s[0] == '{' && s[37] == '}' && is_hyphenated_uuid(s.subrange(1, 37)) {
            Some(hyphen_free_digits(s.subrange(1, 37)))
        } else {
            None
        }
    } else if s.len() == 45 {
        if (forall|i: int| 0 <= i < 9 ==> ascii_lowercase(#[trigger] s[i]) == urn_prefix()[i])
            && is_hyphenated_uuid(s.subrange(9, 45)) {
            Some(hyphen_free_digits(s.subrange(9, 45)))
        } else {
            None
        }
    } else {
        None
    }
}

/// What `uuid::Uuid`'s `Deserialize` gives for a path segment read as a string:
/// the UUID's value, or the text of the deserializer's error.
pub uninterp spec fn uuid_from_path_segment(segment: Seq<char>) -> Result<u128, Seq<char>>;

/// Deserializes a UUID from a string with `uuid::Uuid`'s `Deserialize` impl, through
/// serde's string deserializer, as a path extractor does; its `visit_str` calls
/// `Uuid::from_str`. The contract states what `uuid`'s parser shows: the texts it
/// accepts, and that the value is the number their 32 hexadecimal digits write
/// (`from_bytes` then `as_u128`, both big-endian). The wording of its errors is
/// left unsaid; the error's text is only claimed to be determined by the segment.
#[verifier::external_body]
fn deserialize_uuid(segment: &str) -> (r: Result<u128, String>)
    ensures
        r is Ok <==> uuid_text_digits(segment@) is Some,
        r matches Ok(v) ==> v as int == hex_value(uuid_text_digits(segment@).unwrap()),
        match r {
            Ok(v) => uuid_from_path_segment(segment@) == Ok::<u128, Seq<char>>(v),
            Err(m) => uuid_from_path_segment(segment@) == Err::<u128, Seq<char>>(m@),
        },
{
    let deserializer: serde::de::value::StrDeserializer<'_, serde::de::value::Error> =
        segment.into_deserializer();
    match uuid::Uuid::deserialize(deserializer) {
        Ok(id) => Ok(id.as_u128()),
        Err(err) => Err(err.to_string()),
    }
}

/// How a path segment is answered once read: the UUID, or a `404` whose plain-text
/// body is the deserializer's message.
pub open spec fn path_uuid_answer(parsed: Result<u128, Seq<char>>) -> Result<u128, HttpErrorView> {
    match parsed {
        Ok(v) => Ok(v),
        Err(m) => Err(path_not_found_view(m)),
    }
}

pub open spec fn path_uuid_result_view(r: Result<PathUuid, HttpError>) -> Result<u128, HttpErrorView> {
    match r {
        Ok(p) => Ok(p.0),
        Err(e) => Err(e@),
    }
}

pub open spec fn parsed_view(parsed: Result<u128, String>) -> Result<u128, Seq<char>> {
    match parsed {
        Ok(v) => Ok(v),
        Err(m) => Err(m@),
    }
}

impl PathUuid {
    /// Answers the outcome of reading a path segment as a UUID.
    pub fn from_parsed(parsed: Result<u128, String>) -> (r: Result<PathUuid, HttpError>)
        ensures
            path_uuid_result_view(r) == path_uuid_answer(parsed_view(parsed)),
    {
        match parsed {
            Ok(v) => Ok(PathUuid(v)),
            Err(message) => Err(HttpError::path_not_found(message)),
        }
    }

    /// Reads a path segment as a UUID; one that is not a UUID is a `404` whose
    /// plain-text body is the deserializer's message.
    pub fn from_segment(segment: &str) -> (r: Result<PathUuid, HttpError>)
        ensures
            path_uuid_result_view(r) == path_uuid_answer(uuid_from_path_segment(segment@)),
            r is Ok <==> uuid_text_digits(segment@) is Some,
            r matches Ok(id) ==> id.0 as int == hex_value(uuid_text_digits(segment@).unwrap()),
            r matches Err(e) ==> e@ is PlainText && error_status(e@) == NOT_FOUND,
    {
        let parsed = deserialize_uuid(segment);
        PathUuid::from_parsed(parsed)
    }
}

/// 32 hexadecimal digits with hyphens put after the 8th, 12th, 16th and 20th.
pub open spec fn hyphenate(d: Seq<char>) -> Seq<char> {
    d.subrange(0, 8) + seq!['-'] + d.subrange(8, 12) + seq!['-'] + d.subrange(12, 16) + seq!['-']
        + d.subrange(16, 20) + seq!['-'] + d.subrange(20, 32)
}

/// Any 32 hexadecimal digits, of either case, name a UUID both as they are and in
/// the hyphenated form: the same digits, so the same id.
pub proof fn lemma_uuid_texts_of_digits(d: Seq<char>)
    requires
        d.len() == 32,
        all_hex(d),
    ensures
        uuid_text_digits(d) == Some(d),
        uuid_text_digits(hyphenate(d)) == Some(d),
{
    let h = hyphenate(d);
    assert(h.len() == 36);
    assert(h[8] == '-');
    assert(h[13] == '-');
    assert(h[18] == '-');
    assert(h[23] == '-');
    assert(hyphen_free_digits(h) =~= d);
}

} // verus!
