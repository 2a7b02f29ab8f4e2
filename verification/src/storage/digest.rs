//! Digest strings: `sha256:` followed by 64 lowercase hexadecimal digits.

use sha2::Digest;
use vstd::prelude::*;
use vstd::string::*;

verus! {

/// Length of the algorithm prefix `sha256:`.
pub const PREFIX_LEN: usize = 7;

/// Length of a digest string: the prefix and 64 hexadecimal digits.
pub const DIGEST_LEN: usize = 71;

/// One of `0`..`9`, `a`..`f`.
pub open spec fn is_lower_hex_digit(c: char) -> bool {
    ('0' <= c && c <= '9') || ('a' <= c && c <= 'f')
}

/// The characters of `sha256:`.
pub open spec fn digest_prefix() -> Seq<char> {
    seq!['s', 'h', 'a', '2', '5', '6', ':']
}

/// A well-formed digest: the prefix, then exactly 64 lowercase
/// hexadecimal digits.
pub open spec fn is_digest_text(s: Seq<char>) -> bool {
    &&& s.len() == DIGEST_LEN
    &&& s.subrange(0, PREFIX_LEN as int) == digest_prefix()
    &&& forall|i: int| PREFIX_LEN <= i < DIGEST_LEN ==> is_lower_hex_digit(#[trigger] s[i])
}

/// A tag: a reference that does not begin with the digest prefix.
pub open spec fn is_tag_text(s: Seq<char>) -> bool {
    !(s.len() >= PREFIX_LEN && s.subrange(0, PREFIX_LEN as int) == digest_prefix())
}

/// A well-formed digest holds ASCII characters only.
pub proof fn lemma_digest_text_is_ascii(s: Seq<char>)
    requires
        is_digest_text(s),
    ensures
        vstd::utf8::is_ascii_chars(s),
{
    assert forall|i: int| 0 <= i < s.len() implies '\0' <= #[trigger] s[i] <= '\u{7f}' by {
        if i < PREFIX_LEN {
            assert(s[i] == s.subrange(0, PREFIX_LEN as int)[i]);
        }
    }
}

fn is_lower_hex_byte(b: u8) -> (r: bool)
    ensures
        r == ((0x30 <= b && b <= 0x39) || (0x61 <= b && b <= 0x66)),
{
    (0x30 <= b && b <= 0x39) || (0x61 <= b && b <= 0x66)
}

/// Whether `digest` is a well-formed digest string.
pub fn is_sha256_digest(digest: &String) -> (b: bool)
    ensures
        b == is_digest_text(digest@),
{
    let s = digest.as_str();
    if !s.is_ascii() {
        proof {
            if is_digest_text(digest@) {
                lemma_digest_text_is_ascii(digest@);
            }
        }
        return false;
    }
    let bytes = s.as_bytes();
    proof {
        is_ascii_spec_bytes(s);
    }
    if bytes.len() != DIGEST_LEN {
        return false;
    }
    assert(forall|i: int| 0 <= i < 71 ==> bytes@[i] == (#[trigger] digest@[i]) as u8);
    if bytes[0] != 0x73 || bytes[1] != 0x68 || bytes[2] != 0x61 || bytes[3] != 0x32 || bytes[4]
        != 0x35 || bytes[5] != 0x36 || bytes[6] != 0x3a {
        assert(!is_digest_text(digest@)) by {
            if is_digest_text(digest@) {
                let p = digest@.subrange(0, PREFIX_LEN as int);
                assert(p[0] == digest@[0] && p[1] == digest@[1] && p[2] == digest@[2] && p[3]
                    == digest@[3] && p[4] == digest@[4] && p[5] == digest@[5] && p[6]
                    == digest@[6]);
            }
        }
        return false;
    }
    assert(digest@.subrange(0, PREFIX_LEN as int) =~= digest_prefix());
    let mut i: usize = PREFIX_LEN;
    while i < DIGEST_LEN
        invariant
            PREFIX_LEN <= i <= DIGEST_LEN,
            bytes@.len() == DIGEST_LEN,
            digest@.len() == DIGEST_LEN,
            vstd::utf8::is_ascii_chars(digest@),
            forall|j: int| 0 <= j < 71 ==> bytes@[j] == (#[trigger] digest@[j]) as u8,
            forall|j: int| PREFIX_LEN <= j < i ==> is_lower_hex_digit(#[trigger] digest@[j]),
        decreases DIGEST_LEN - i,
    {
        if !is_lower_hex_byte(bytes[i]) {
            assert(!is_lower_hex_digit(digest@[i as int]));
            return false;
        }
        assert(is_lower_hex_digit(digest@[i as int]));
        i += 1;
    }
    true
}

/// The lowercase hexadecimal digit for a value below 16.
pub open spec fn hex_digit(n: int) -> char {
    if n < 10 {
        ('0' as int + n) as char
    } else {
        ('a' as int + n - 10) as char
    }
}

/// Two lowercase hexadecimal digits per byte, the high half first.
pub open spec fn hex_lower(bytes: Seq<u8>) -> Seq<char> {
    Seq::new(
        2 * bytes.len(),
        |i: int|
            if i % 2 == 0 {
                hex_digit(bytes[i / 2] as int / 16)
            } else {
                hex_digit(bytes[i / 2] as int % 16)
            },
    )
}

/// The SHA-256 hash of a byte sequence.
pub uninterp spec fn sha256(data: Seq<u8>) -> Seq<u8>;

/// The bytes that a hasher has taken in so far, in order.
pub uninterp spec fn absorbed(h: Hasher) -> Seq<u8>;

/// The digest string of a byte sequence: the prefix and the lowercase
/// hexadecimal form of its SHA-256 hash.
pub open spec fn digest_of(data: Seq<u8>) -> Seq<char> {
    digest_prefix() + hex_lower(sha256(data))
}

/// A streaming SHA-256 hasher. It holds the state of `sha2::Sha256`, whose
/// type Verus cannot take in; its view is the sequence of bytes fed so far.
#[verifier::external_body]
pub struct Hasher {
    state: sha2::Sha256,
}

/// `sha2::Sha256::new`: a hasher that has taken in nothing.
#[verifier::external_body]
fn sha256_start() -> (h: Hasher)
    ensures
        absorbed(h) == Seq::<u8>::empty(),
{
    Hasher { state: sha2::Sha256::new() }
}

/// `sha2::Sha256::update`: the hasher takes in `data` after what it holds.
#[verifier::external_body]
fn sha256_absorb(h: &mut Hasher, data: &[u8])
    ensures
        absorbed(*final(h)) == absorbed(*old(h)) + data@,
{
    h.state.update(data)
}

/// `sha2::Sha256::finalize`: the 32-byte SHA-256 hash of all that the
/// hasher has taken in.
#[verifier::external_body]
fn sha256_finish(h: Hasher) -> (out: Vec<u8>)
    ensures
        out@ == sha256(absorbed(h)),
        out@.len() == 32,
{
    h.state.finalize().to_vec()
}

/// `hex::encode`: two lowercase hexadecimal digits for each byte.
#[verifier::external_body]
fn hex_encode(data: &[u8]) -> (s: String)
    ensures
        s@ == hex_lower(data@),
{
    hex::encode(data)
}

/// The prefix followed by the hexadecimal form of a 32-byte hash is a
/// well-formed digest.
pub proof fn lemma_digest_well_formed(hash: Seq<u8>)
    requires
        hash.len() == 32,
    ensures
        is_digest_text(digest_prefix() + hex_lower(hash)),
{
    let s = digest_prefix() + hex_lower(hash);
    assert(s.subrange(0, PREFIX_LEN as int) =~= digest_prefix());
    assert forall|i: int| PREFIX_LEN <= i < DIGEST_LEN implies is_lower_hex_digit(
        #[trigger] s[i],
    ) by {
        let j = i - PREFIX_LEN;
        assert(s[i] == hex_lower(hash)[j]);
        let b = hash[j / 2] as int;
        assert(0 <= b / 16 < 16 && 0 <= b % 16 < 16);
    }
}

/// A tag is no well-formed digest, and no digest of any data.
pub proof fn lemma_tag_is_no_digest(tag: Seq<char>, data: Seq<u8>)
    requires
        is_tag_text(tag),
    ensures
        !is_digest_text(tag),
        tag != digest_of(data),
{
    assert(digest_of(data).subrange(0, PREFIX_LEN as int) =~= digest_prefix());
}

/// The digest string for a hash value.
pub fn digest_string(hash: &[u8]) -> (d: String)
    ensures
        d@ == digest_prefix() + hex_lower(hash@),
{
    proof {
        reveal_strlit("sha256:");
    }
    let prefix = String::from_str("sha256:");
    assert(prefix@ =~= digest_prefix());
    let hex = hex_encode(hash);
    prefix.concat(hex.as_str())
}

impl Hasher {
    /// The bytes fed so far.
    pub closed spec fn view(&self) -> Seq<u8> {
        absorbed(*self)
    }

    /// A hasher that has been fed nothing.
    pub fn new() -> (h: Hasher)
        ensures
            h@ == Seq::<u8>::empty(),
    {
        sha256_start()
    }

    /// Feeds one chunk.
    pub fn update(&mut self, chunk: &[u8])
        ensures
            final(self)@ == old(self)@ + chunk@,
    {
        sha256_absorb(self, chunk)
    }

    /// The digest of everything fed, as a well-formed digest string.
    pub fn finalize(self) -> (d: String)
        ensures
            d@ == digest_of(self@),
            is_digest_text(d@),
    {
        let hash = sha256_finish(self);
        proof {
            lemma_digest_well_formed(hash@);
        }
        digest_string(hash.as_slice())
    }
}

/// The digest of one byte sequence.
pub fn digest_bytes(data: &[u8]) -> (d: String)
    ensures
        d@ == digest_of(data@),
        is_digest_text(d@),
{
    let mut h = Hasher::new();
    h.update(data);
    assert(h@ =~= data@);
    h.finalize()
}

} // verus!
