use vstd::prelude::*;

use crate::errors::{bad_request_view, precondition_required_view, HttpError, HttpErrorView};
use crate::text::{
    all_visible_ascii, ascii_text, decimal_digits, i32_text, is_digit, is_visible_ascii,
    is_visible_ascii_text, lemma_ascii_text_concat, option_bytes_view, lemma_decimal_digits, lemma_trim_untouched,
    parse_i32_range, parse_i32_text, push_decimal, split_sign, trim, trim_end_by, trim_range,
    trim_start_by, trimmed_bytes, Trimmed, all_digits, digits_value, lemma_decimal_digits_unique,
};

verus! {

/// The strong entity tag of an item version: its decimal text in double quotes.
pub open spec fn etag_text(version: i32) -> Seq<u8> {
    seq![34u8] + i32_text(version) + seq![34u8]
}

/// A text without a leading `W/`, the mark of a weak entity tag.
pub open spec fn strip_weak_prefix(t: Seq<u8>) -> Seq<u8> {
    if t.len() >= 2 && t[0] == 87 && t[1] == 47 {
        t.subrange(2, t.len() as int)
    } else {
        t
    }
}

/// The version an `If-Match` value names, once its surrounding whitespace, a weak
/// `W/` mark and the quotes around the tag are taken off.
pub open spec fn if_match_tag(trimmed: Seq<u8>) -> Seq<u8> {
    trim(Trimmed::Quote, trim(Trimmed::Whitespace, strip_weak_prefix(trimmed)))
}

/// How an update answers the `If-Match` header it was sent (`None` when absent).
pub open spec fn if_match_outcome(raw: Option<Seq<u8>>) -> Result<i32, HttpErrorView> {
    match raw {
        None => Err(precondition_required_view("missing If-Match header"@)),
        Some(bytes) => if !all_visible_ascii(bytes) {
            Err(bad_request_view("If-Match header must be valid ASCII"@))
        } else {
            let trimmed = trim(Trimmed::Whitespace, bytes);
            if trimmed == seq![42u8] {
                Err(bad_request_view("If-Match '*' is not supported for optimistic locking"@))
            } else {
                match parse_i32_text(if_match_tag(trimmed)) {
                    Some(v) => Ok(v),
                    None => Err(bad_request_view("If-Match header must contain an integer ETag"@)),
                }
            }
        },
    }
}

pub open spec fn result_view(r: Result<i32, HttpError>) -> Result<i32, HttpErrorView> {
    match r {
        Ok(v) => Ok(v),
        Err(e) => Err(e@),
    }
}

/// Formats the entity tag of a version: `"7"` for version 7.
pub fn format_etag(version: i32) -> (tag: String)
    ensures
        tag@ == ascii_text(etag_text(version)),
{
    proof {
        reveal_strlit("\"");
        reveal_strlit("-");
    }
    let mut out = "\"".to_owned();
    if version < 0 {
        out.append("-");
        let magnitude: u64 = (-(version as i64)) as u64;
        push_decimal(&mut out, magnitude);
        proof {
            lemma_ascii_text_concat(seq![34u8], seq![45u8]);
            lemma_ascii_text_concat(seq![34u8, 45u8], decimal_digits(magnitude as nat));
            assert(seq![34u8] + seq![45u8] =~= seq![34u8, 45u8]);
            assert(seq![34u8] + i32_text(version) =~= seq![34u8, 45u8] + decimal_digits(
                magnitude as nat,
            ));
        }
    } else {
        push_decimal(&mut out, version as u64);
        proof {
            lemma_ascii_text_concat(seq![34u8], decimal_digits(version as nat));
        }
    }
    out.append("\"");
    proof {
        lemma_ascii_text_concat(seq![34u8] + i32_text(version), seq![34u8]);
        assert(ascii_text(seq![34u8]) =~= seq!['"']);
    }
    out
}

/// The entity tag an update answers with: the one of the version after `version`.
pub fn etag_after_update(version: i32) -> (tag: String)
    requires
        version < i32::MAX,
    ensures
        tag@ == ascii_text(etag_text((version + 1) as i32)),
{
    format_etag(version + 1)
}

/// Reads the version an update is conditioned on from its `If-Match` header.
///
/// A missing header asks for one (`428`); a value that is not visible ASCII, the
/// wildcard `*`, or a tag that is not an `i32` is a `400`. Otherwise the value,
/// trimmed, without a weak `W/` mark, trimmed again and without its quotes, is
/// read as `i32::from_str` reads it.
pub fn parse_if_match(if_match: Option<&[u8]>) -> (r: Result<i32, HttpError>)
    ensures
        result_view(r) == if_match_outcome(option_bytes_view(if_match)),
{
    match if_match {
        None => Err(HttpError::precondition_required("missing If-Match header".to_owned())),
        Some(bytes) => {
            if !is_visible_ascii_text(bytes) {
                return Err(HttpError::bad_request("If-Match header must be valid ASCII".to_owned()));
            }
            let (s, e) = trim_range(bytes, 0, bytes.len(), Trimmed::Whitespace);
            proof {
                assert(bytes@.subrange(0, bytes@.len() as int) =~= bytes@);
            }
            let ghost trimmed = bytes@.subrange(s as int, e as int);
            if e - s == 1 && bytes[s] == 42 {
                assert(trimmed =~= seq![42u8]);
                return Err(
                    HttpError::bad_request(
                        "If-Match '*' is not supported for optimistic locking".to_owned(),
                    ),
                );
            }
            assert(trimmed != seq![42u8]) by {
                if trimmed == seq![42u8] {
                    assert(trimmed[0] == bytes@[s as int]);
                }
            }
            let mut start = s;
            if e - s >= 2 && bytes[s] == 87 && bytes[s + 1] == 47 {
                start = s + 2;
            }
            assert(bytes@.subrange(start as int, e as int) == strip_weak_prefix(trimmed)) by {
                if e - s >= 2 {
                    assert(trimmed[0] == bytes@[s as int]);
                    assert(trimmed[1] == bytes@[s + 1]);
                }
                if start == s + 2 {
                    assert(trimmed.subrange(2, trimmed.len() as int) =~= bytes@.subrange(
                        start as int,
                        e as int,
                    ));
                }
            }
            let (s2, e2) = trim_range(bytes, start, e, Trimmed::Whitespace);
            let (s3, e3) = trim_range(bytes, s2, e2, Trimmed::Quote);
            match parse_i32_range(bytes, s3, e3) {
                Some(v) => Ok(v),
                None => Err(
                    HttpError::bad_request("If-Match header must contain an integer ETag".to_owned()),
                ),
            }
        },
    }
}

proof fn lemma_i32_text_parses(v: i32)
    ensures
        parse_i32_text(i32_text(v)) == Some(v),
        i32_text(v).len() > 0,
        is_digit(i32_text(v).last()),
        i32_text(v)[0] == 45 || is_digit(i32_text(v)[0]),
{
    if v < 0 {
        let m = (-v) as nat;
        lemma_decimal_digits(m);
        let t = i32_text(v);
        assert(t[0] == 45);
        assert(t.drop_first() =~= decimal_digits(m));
        assert(split_sign(t) == (true, decimal_digits(m)));
        assert(t.last() == decimal_digits(m).last());
    } else {
        lemma_decimal_digits(v as nat);
        let t = i32_text(v);
        assert(split_sign(t) == (false, t));
    }
}

proof fn lemma_tag_of_etag(v: i32)
    ensures
        if_match_tag(etag_text(v)) == i32_text(v),
        trim(Trimmed::Whitespace, etag_text(v)) == etag_text(v),
        all_visible_ascii(etag_text(v)),
{
    lemma_i32_text_parses(v);
    let t = etag_text(v);
    let body = i32_text(v);
    assert(t[0] == 34);
    assert(t.last() == 34);
    lemma_trim_untouched(t, trimmed_bytes(Trimmed::Whitespace));
    assert(strip_weak_prefix(t) == t);
    // the quotes come off, one at each end
    assert(t.drop_first() =~= body + seq![34u8]);
    let u = body + seq![34u8];
    assert(u[0] == body[0]);
    assert(trim_start_by(u, trimmed_bytes(Trimmed::Quote)) == u);
    assert(trim_start_by(t, trimmed_bytes(Trimmed::Quote)) == u);
    assert(u.drop_last() =~= body);
    assert(body.last() == body[body.len() - 1]);
    assert(trim_end_by(body, trimmed_bytes(Trimmed::Quote)) == body);
    assert(trim_end_by(u, trimmed_bytes(Trimmed::Quote)) == body);
    assert forall|i: int| 0 <= i < t.len() implies is_visible_ascii(#[trigger] t[i]) by {
        if 0 < i < t.len() - 1 {
            assert(t[i] == body[i - 1]);
            if v < 0 && i == 1 {
            } else {
                lemma_decimal_digits(if v < 0 { (-v) as nat } else { v as nat });
                if v < 0 {
                    assert(body[i - 1] == decimal_digits((-v) as nat)[i - 2]);
                }
            }
        }
    }
}

/// The tag this service sends in `ETag`, sent back in `If-Match`, in its strong
/// form `"v"` or its weak form `W/"v"`, names the version it was made from; and it
/// is always a valid header value.
pub proof fn lemma_etag_round_trip(version: i32)
    ensures
        all_visible_ascii(etag_text(version)),
        if_match_outcome(Some(etag_text(version))) == Ok::<i32, HttpErrorView>(version),
        if_match_outcome(Some(seq![87u8, 47u8] + etag_text(version))) == Ok::<
            i32,
            HttpErrorView,
        >(version),
{
    lemma_tag_of_etag(version);
    lemma_i32_text_parses(version);
    let t = etag_text(version);
    assert(t != seq![42u8]) by {
        if t == seq![42u8] {
            assert(t[0] == 34);
        }
    }
    let w = seq![87u8, 47u8] + t;
    assert(all_visible_ascii(w)) by {
        assert forall|i: int| 0 <= i < w.len() implies is_visible_ascii(#[trigger] w[i]) by {
            if i >= 2 {
                assert(w[i] == t[i - 2]);
            }
        }
    }
    assert(w[0] == 87);
    assert(w.last() == t.last());
    lemma_trim_untouched(w, trimmed_bytes(Trimmed::Whitespace));
    assert(w != seq![42u8]) by {
        if w == seq![42u8] {
            assert(w.len() == 1);
        }
    }
    assert(strip_weak_prefix(w) =~= t);
}

/// The version in an ETag is written as `i32` displays it: a `-` for a negative
/// version, then the one decimal text of its magnitude that has no leading zero.
pub proof fn lemma_etag_writes_version_as_displayed(version: i32, digits: Seq<u8>)
    requires
        digits.len() > 0,
        all_digits(digits),
        digits.len() == 1 || digits[0] != 48,
        digits_value(digits) == if version < 0 {
            -(version as int)
        } else {
            version as int
        },
    ensures
        etag_text(version) == seq![34u8] + (if version < 0 {
            seq![45u8] + digits
        } else {
            digits
        }) + seq![34u8],
{
    lemma_decimal_digits_unique(digits);
}

} // verus!
