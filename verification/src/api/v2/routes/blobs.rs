//! The queries of the upload routes, and the texts that their responses
//! carry.

use crate::api::v2::errors::{RegistryError, RegistryErrorCode};
use crate::parse::{chars_of, digits_value, is_digit, lemma_value_grows};
use crate::utils::{decimal, push_decimal};
use vstd::prelude::*;
use vstd::string::*;

verus! {

/// The query of a request that completes an upload in one piece.
#[derive(Debug, Clone)]
pub struct MonolithicUploadQuery {
    /// The session's token, as the client echoes it.
    pub _state: String,
    /// The digest that the client expects of the content.
    pub digest: Option<String>,
}

/// The query of a request that appends one chunk.
#[derive(Debug, Clone)]
pub struct ChunkedUploadQuery {
    /// The session's token, as the client echoes it.
    pub _state: String,
}

/// Where a client sends the chunks of a session.
pub open spec fn upload_location_text(
    scheme: Seq<char>,
    host: Seq<char>,
    name: Seq<char>,
    uuid: Seq<char>,
    state: Seq<char>,
) -> Seq<char> {
    scheme + "://"@ + host + "/v2/"@ + name + "/blobs/uploads/"@ + uuid + "?_state="@ + state
}

/// Where a client finds a stored blob.
pub open spec fn blob_location_text(
    scheme: Seq<char>,
    host: Seq<char>,
    name: Seq<char>,
    digest: Seq<char>,
) -> Seq<char> {
    scheme + "://"@ + host + "/v2/"@ + name + "/blobs/"@ + digest
}

/// The range that a session of `size` bytes reports.
pub open spec fn range_text(size: u64) -> Seq<char> {
    "0-"@ + decimal(size as nat)
}

/// The `Location` of a newly opened upload session.
pub fn upload_location(scheme: &str, host: &str, name: &str, uuid: &str, state: &str) -> (url:
    String)
    ensures
        url@ == upload_location_text(scheme@, host@, name@, uuid@, state@),
{
    let mut url = String::from_str(scheme);
    url.append("://");
    url.append(host);
    url.append("/v2/");
    url.append(name);
    url.append("/blobs/uploads/");
    url.append(uuid);
    url.append("?_state=");
    url.append(state);
    url
}

/// The `Location` of a stored blob.
pub fn blob_location(scheme: &str, host: &str, name: &str, digest: &str) -> (url: String)
    ensures
        url@ == blob_location_text(scheme@, host@, name@, digest@),
{
    let mut url = String::from_str(scheme);
    url.append("://");
    url.append(host);
    url.append("/v2/");
    url.append(name);
    url.append("/blobs/");
    url.append(digest);
    url
}

/// The `Range` of a session that holds `size` bytes.
pub fn upload_range(size: u64) -> (range: String)
    ensures
        range@ == range_text(size),
{
    let mut range = String::from_str("0-");
    push_decimal(&mut range, size);
    range
}

/// Whether a text is made of decimal digits alone.
pub open spec fn all_digits(text: Seq<char>) -> bool {
    forall|i: int| 0 <= i < text.len() ==> is_digit(#[trigger] text[i])
}

/// A text without the `+` that may stand before a number.
pub open spec fn unsigned(text: Seq<char>) -> Seq<char> {
    if text.len() > 0 && text[0] == '+' {
        text.subrange(1, text.len() as int)
    } else {
        text
    }
}

/// The value of a decimal number as a header writes it: an optional `+`,
/// then at least one digit and nothing else, and a value that fits in 64
/// bits; `None` otherwise.
pub open spec fn decimal_value(text: Seq<char>) -> Option<u64> {
    let digits = unsigned(text);
    if digits.len() > 0 && all_digits(digits) && digits_value(digits) <= u64::MAX {
        Some(digits_value(digits) as u64)
    } else {
        None
    }
}

/// The value of a decimal number, digit by digit.
fn parse_u64(text: &str) -> (value: Option<u64>)
    ensures
        value == decimal_value(text@),
{
    let chars = chars_of(text);
    let start: usize = if chars.len() > 0 && chars[0] == '+' {
        1
    } else {
        0
    };
    if start >= chars.len() {
        return None;
    }
    let ghost digits = chars@.subrange(start as int, chars@.len() as int);
    assert(digits =~= unsigned(text@));
    let mut value: u64 = 0;
    let mut i: usize = start;
    assert(digits.take(0) =~= Seq::<char>::empty());
    while i < chars.len()
        invariant
            start <= i <= chars@.len(),
            digits == chars@.subrange(start as int, chars@.len() as int),
            digits == unsigned(text@),
            forall|j: int| 0 <= j < i - start ==> is_digit(#[trigger] digits[j]),
            value == digits_value(digits.take(i - start)),
        decreases chars@.len() - i,
    {
        let c = chars[i];
        assert(digits[i - start] == c);
        if !('0' <= c && c <= '9') {
            return None;
        }
        let digit = (c as u32 - '0' as u32) as u64;
        proof {
            assert(digits.take(i - start + 1).drop_last() =~= digits.take(i - start));
            assert(digits.take(i - start + 1).last() == c);
            lemma_value_grows(digits, i - start + 1, digits.len() as int);
            assert(digits.take(digits.len() as int) =~= digits);
        }
        if value > (u64::MAX - digit) / 10 {
            return None;
        }
        value = value * 10 + digit;
        i += 1;
    }
    assert(digits.take(i - start) =~= digits);
    Some(value)
}

/// The length that a monolithic upload announces: 0 without a
/// `Content-Length`, its value where it is a number, and an invalid
/// upload otherwise.
pub fn content_length(header: Option<&str>) -> (r: Result<u64, RegistryError>)
    ensures
        match header {
            None => r == Ok::<u64, RegistryError>(0),
            Some(text) => match decimal_value(text@) {
                Some(n) => r == Ok::<u64, RegistryError>(n),
                None => r matches Err(e) && e.status == 400 && e.code
                    == RegistryErrorCode::BlobUploadInvalid,
            },
        },
{
    match header {
        None => Ok(0),
        Some(text) => match parse_u64(text) {
            Some(n) => Ok(n),
            None => Err(RegistryError::new(400, RegistryErrorCode::BlobUploadInvalid)),
        },
    }
}

} // verus!
