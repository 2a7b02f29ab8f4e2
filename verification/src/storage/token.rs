//! The opaque token of an upload session.

use super::digest::is_lower_hex_digit;
use crate::utils::{decimal, push_decimal, push_quoted, quoted};
use vstd::prelude::*;
use vstd::string::*;

verus! {

/// The standard base64 form, with padding, of a byte sequence.
pub uninterp spec fn base64_of(data: Seq<u8>) -> Seq<char>;

/// `base64::encode`: the standard base64 form of `data`, with padding:
/// four characters for every three bytes, the last three filled up.
#[verifier::external_body]
fn base64_encode(data: &[u8]) -> (s: String)
    ensures
        s@ == base64_of(data@),
        s@.len() == 4 * ((data@.len() + 2) / 3),
{
    base64::encode(data)
}

/// The form of a session id: 36 characters, hyphens at four places and
/// lowercase hexadecimal digits elsewhere.
pub open spec fn is_uuid_text(s: Seq<char>) -> bool {
    &&& s.len() == 36
    &&& forall|i: int|
        0 <= i < 36 ==> if i == 8 || i == 13 || i == 18 || i == 23 {
            #[trigger] s[i] == '-'
        } else {
            is_lower_hex_digit(s[i])
        }
}

/// `uuid::Uuid::new_v4`, in its hyphenated lowercase form: a random
/// identifier. Nothing is claimed of which identifier comes. Where the
/// system gives the generator no random bytes, it ends the process, as
/// running out of memory does.
#[verifier::external_body]
pub(crate) fn random_uuid() -> (id: String)
    ensures
        is_uuid_text(id@),
{
    uuid::Uuid::new_v4().to_string()
}

/// The JSON text that a session's token carries.
pub open spec fn state_json(name: Seq<char>, uuid: Seq<char>, created_at: u64) -> Seq<char> {
    "{\"name\":"@ + quoted(name) + ",\"uuid\":"@ + quoted(uuid) + ",\"created_at\":"@ + decimal(
        created_at as nat,
    ) + "}"@
}

/// The opaque token of a session: the base64 form of its JSON text.
pub open spec fn state_token(name: Seq<char>, uuid: Seq<char>, created_at: u64) -> Seq<char> {
    base64_of(vstd::utf8::encode_utf8(state_json(name, uuid, created_at)))
}

/// The token that a client echoes with each chunk of a session. It is
/// never empty.
pub fn session_state(name: &String, uuid: &String, created_at: u64) -> (state: String)
    ensures
        state@ == state_token(name@, uuid@, created_at),
        state@.len() >= 4,
{
    let mut json = String::from_str("{\"name\":");
    push_quoted(&mut json, name.as_str());
    json.append(",\"uuid\":");
    push_quoted(&mut json, uuid.as_str());
    json.append(",\"created_at\":");
    push_decimal(&mut json, created_at);
    json.append("}");
    proof {
        reveal_strlit("}");
        assert(json@.len() > 0);
        assert(vstd::utf8::encode_utf8(json@).len() > 0);
    }
    base64_encode(json.as_str().as_bytes())
}

} // verus!
