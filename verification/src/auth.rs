//! Credential derivation and the wire-level authentication payload.
//!
//! The login endpoint accepts, in place of the plaintext password, a
//! one-way-derived value: the standard base64 encoding (with padding) of the
//! SHA-256 digest of the password followed by the lower-cased email. The
//! functions here derive that value, and frame the `{ email, password }`
//! JSON body that the login exchange posts.

use vstd::prelude::*;
use vstd::string::*;
use vstd::utf8::encode_utf8;
use base64ct::{Base64, Encoding as Base64Encoding};
use sha2::{Digest as Sha2Digest, Sha256};

verus! {

/// The printable, one-way-derived credential value accepted by the login
/// endpoint in place of a plaintext password.
pub type AuthHash = String;

/// The lower-cased form of a string, as `str::to_lowercase` computes it: a
/// function of the characters alone.
pub uninterp spec fn lowercased(s: Seq<char>) -> Seq<char>;

/// The SHA-256 digest of a byte sequence, as the `sha2` crate computes it:
/// a function of the bytes alone.
pub uninterp spec fn sha256_of(bytes: Seq<u8>) -> Seq<u8>;

/// The standard (padded) base64 encoding of a byte sequence, as
/// `base64ct::Base64` computes it: a function of the bytes alone.
pub uninterp spec fn base64_of(bytes: Seq<u8>) -> Seq<char>;

/// Relies on `str::to_lowercase`: the result depends only on the input
/// characters.
#[verifier::external_body]
fn to_lower(s: &str) -> (r: String)
    ensures
        r@ == lowercased(s@),
{
    s.to_lowercase()
}

/// Relies on `sha2::Sha256::digest`: a pure function of the input bytes,
/// returning the 32-byte SHA-256 digest.
#[verifier::external_body]
fn sha256(data: &[u8]) -> (r: Vec<u8>)
    ensures
        r@ == sha256_of(data@),
        r@.len() == 32,
{
    Sha256::digest(data).to_vec()
}

/// Relies on `base64ct::Base64::encode_string`: standard base64 with `=`
/// padding, a pure function of the input bytes; the encoding emits four
/// characters for every three input bytes, rounded up. The bound keeps
/// the encoded length computable, the one input class the call panics on.
#[verifier::external_body]
fn base64_encode(data: &[u8]) -> (r: String)
    requires
        data@.len() * 4 <= usize::MAX,
    ensures
        r@ == base64_of(data@),
        r@.len() == 4 * ((data@.len() + 2) / 3),
{
    Base64::encode_string(data)
}

/// The exact text that is hashed: the password first, then the lower-cased
/// email. The order is significant; case folding applies to the email only,
/// never to the password.
pub open spec fn spec_hash_input(email: Seq<char>, password: Seq<char>) -> Seq<char> {
    password + lowercased(email)
}

/// What [`generate_hash`] returns: base64 of the SHA-256 digest of the
/// UTF-8 bytes of the hash input.
pub open spec fn spec_generate_hash(email: Seq<char>, password: Seq<char>) -> Seq<char> {
    base64_of(sha256_of(encode_utf8(spec_hash_input(email, password))))
}

/// Derive the login credential value from an email and a plaintext
/// password: concatenate the password and the lower-cased email, take the
/// SHA-256 digest of the UTF-8 bytes, and base64-encode the digest.
///
/// Exposed independently of the login flow so a caller can precompute and
/// cache the value without retaining the plaintext password.
pub fn generate_hash(email: &str, password: &str) -> (r: AuthHash)
    ensures
        r@ == spec_generate_hash(email@, password@),
{
    let lower = to_lower(email);
    let mut input = String::from_str(password);
    input.append(lower.as_str());
    let digest = sha256(input.as_str().as_bytes());
    base64_encode(digest.as_slice())
}

/// Derivation is a pure function: equal inputs always give equal hashes.
pub proof fn lemma_hash_deterministic(email: Seq<char>, password: Seq<char>)
    ensures
        spec_generate_hash(email, password) == spec_generate_hash(email, password),
{
}

/// Case folding never touches the password: distinct passwords (in
/// particular, two that differ only in letter case) give distinct hash
/// inputs for the same email.
pub proof fn lemma_distinct_passwords_distinct_input(
    email: Seq<char>,
    p1: Seq<char>,
    p2: Seq<char>,
)
    requires
        p1 != p2,
    ensures
        spec_hash_input(email, p1) != spec_hash_input(email, p2),
{
    let l = lowercased(email);
    if spec_hash_input(email, p1) == spec_hash_input(email, p2) {
        assert((p1 + l).len() == (p2 + l).len());
        assert(p1.len() == p2.len());
        assert forall|i: int| 0 <= i < p1.len() implies p1[i] == p2[i] by {
            assert((p1 + l)[i] == p1[i]);
            assert((p2 + l)[i] == p2[i]);
        }
        assert(p1 =~= p2);
    }
}

/// The separation goes through to the digest itself: distinct passwords
/// hand SHA-256 distinct byte strings for the same email, since UTF-8
/// encoding loses nothing. (That the digests in turn differ is exactly
/// the collision resistance of SHA-256, which nothing here asserts.)
pub proof fn lemma_distinct_passwords_distinct_digest_input(
    email: Seq<char>,
    p1: Seq<char>,
    p2: Seq<char>,
)
    requires
        p1 != p2,
    ensures
        encode_utf8(spec_hash_input(email, p1)) != encode_utf8(spec_hash_input(email, p2)),
{
    lemma_distinct_passwords_distinct_input(email, p1, p2);
    let a = spec_hash_input(email, p1);
    let b = spec_hash_input(email, p2);
    if encode_utf8(a) == encode_utf8(b) {
        vstd::utf8::encode_utf8_decode_utf8(a);
        vstd::utf8::encode_utf8_decode_utf8(b);
    }
}

/// The lower-case hexadecimal digit for a value below sixteen.
pub open spec fn hex_digit(n: int) -> char {
    if n == 0 { '0' }
    else if n == 1 { '1' }
    else if n == 2 { '2' }
    else if n == 3 { '3' }
    else if n == 4 { '4' }
    else if n == 5 { '5' }
    else if n == 6 { '6' }
    else if n == 7 { '7' }
    else if n == 8 { '8' }
    else if n == 9 { '9' }
    else if n == 10 { 'a' }
    else if n == 11 { 'b' }
    else if n == 12 { 'c' }
    else if n == 13 { 'd' }
    else if n == 14 { 'e' }
    else { 'f' }
}

pub(crate) fn hex_digit_ex(n: u32) -> (c: char)
    requires
        n < 16,
    ensures
        c == hex_digit(n as int),
{
    if n == 0 { '0' }
    else if n == 1 { '1' }
    else if n == 2 { '2' }
    else if n == 3 { '3' }
    else if n == 4 { '4' }
    else if n == 5 { '5' }
    else if n == 6 { '6' }
    else if n == 7 { '7' }
    else if n == 8 { '8' }
    else if n == 9 { '9' }
    else if n == 10 { 'a' }
    else if n == 11 { 'b' }
    else if n == 12 { 'c' }
    else if n == 13 { 'd' }
    else if n == 14 { 'e' }
    else { 'f' }
}

/// How one character is written inside a JSON string: quotes and
/// backslashes get a backslash escape, control characters a `\u00XX`
/// escape, and everything else stands as itself.
pub open spec fn escape_char(c: char) -> Seq<char> {
    if c == '"' {
        seq!['\\', '"']
    } else if c == '\\' {
        seq!['\\', '\\']
    } else if (c as u32) < 32 {
        seq!['\\', 'u', '0', '0', hex_digit(c as u32 as int / 16), hex_digit(c as u32 as int % 16)]
    } else {
        seq![c]
    }
}

/// A string written inside JSON quotes: each character escaped in turn.
pub open spec fn json_escape(s: Seq<char>) -> Seq<char>
    decreases s.len(),
{
    if s.len() == 0 {
        Seq::empty()
    } else {
        escape_char(s[0]) + json_escape(s.drop_first())
    }
}

/// Escaping distributes over concatenation.
pub proof fn lemma_json_escape_concat(a: Seq<char>, b: Seq<char>)
    ensures
        json_escape(a + b) == json_escape(a) + json_escape(b),
    decreases a.len(),
{
    if a.len() == 0 {
        assert(a + b =~= b);
        assert(json_escape(a) + json_escape(b) =~= json_escape(b));
    } else {
        lemma_json_escape_concat(a.drop_first(), b);
        assert((a + b).drop_first() =~= a.drop_first() + b);
        assert((a + b)[0] == a[0]);
        assert(escape_char(a[0]) + (json_escape(a.drop_first()) + json_escape(b)) =~= (escape_char(
            a[0],
        ) + json_escape(a.drop_first())) + json_escape(b));
    }
}

/// Append the JSON-escaped form of `s` to `out`.
fn append_escaped(out: &mut String, s: &str)
    ensures
        final(out)@ == old(out)@ + json_escape(s@),
{
    let n = s.unicode_len();
    let mut i: usize = 0;
    while i < n
        invariant
            n == s@.len(),
            i <= n,
            out@ == old(out)@ + json_escape(s@.subrange(0, i as int)),
        decreases n - i,
    {
        let c = s.get_char(i);
        let ghost prefix = s@.subrange(0, i as int);
        if c == '"' {
            out.push('\\');
            out.push('"');
        } else if c == '\\' {
            out.push('\\');
            out.push('\\');
        } else if (c as u32) < 32 {
            out.push('\\');
            out.push('u');
            out.push('0');
            out.push('0');
            out.push(hex_digit_ex((c as u32) / 16));
            out.push(hex_digit_ex((c as u32) % 16));
        } else {
            out.push(c);
        }
        proof {
            assert(out@ =~= old(out)@ + (json_escape(prefix) + escape_char(s@[i as int])));
            lemma_json_escape_concat(prefix, seq![s@[i as int]]);
            let c = s@[i as int];
            assert(seq![c].len() == 1 && seq![c][0] == c);
            assert(seq![c].drop_first() =~= Seq::<char>::empty());
            assert(json_escape(seq![c].drop_first()) == Seq::<char>::empty());
            assert(json_escape(seq![c]) == escape_char(c) + Seq::<char>::empty());
            assert(escape_char(c) + Seq::<char>::empty() =~= escape_char(c));
            assert(prefix + seq![s@[i as int]] =~= s@.subrange(0, i + 1));
        }
        i = i + 1;
    }
    proof {
        assert(s@.subrange(0, n as int) =~= s@);
    }
}

/// Spec view of an [`AuthRequest`]: the email it carries, and the derived
/// credential value it will send in the `password` field.
pub ghost struct AuthRequestView {
    pub email: Seq<char>,
    pub password: Seq<char>,
}

/// The wire-level authentication payload: the email, and the derived hash
/// carried under the `password` field name (a compatibility requirement of
/// the upstream protocol, not a semantic description).
#[derive(Debug, Clone)]
pub struct AuthRequest {
    email: String,
    password: AuthHash,
}

impl View for AuthRequest {
    type V = AuthRequestView;

    closed spec fn view(&self) -> AuthRequestView {
        AuthRequestView { email: self.email@, password: self.password@ }
    }
}

/// What [`AuthRequest::new`] builds: the hash is derived from the
/// plaintext.
pub open spec fn spec_auth_request(email: Seq<char>, password: Seq<char>) -> AuthRequestView {
    AuthRequestView { email: email, password: spec_generate_hash(email, password) }
}

/// What [`AuthRequest::new_from_hash`] builds: the caller-supplied hash is
/// stored verbatim, with no validation of its shape.
pub open spec fn spec_auth_request_from_hash(email: Seq<char>, hash: Seq<char>) -> AuthRequestView {
    AuthRequestView { email: email, password: hash }
}

/// The exact JSON body that a request serializes to.
pub open spec fn spec_wire_body(v: AuthRequestView) -> Seq<char> {
    "{\"email\":\""@ + json_escape(v.email) + "\",\"password\":\""@ + json_escape(v.password)
        + "\"}"@
}

impl AuthRequest {
    /// Build the payload from a plaintext password, deriving the hash.
    pub fn new(email: &str, password: &str) -> (r: Self)
        ensures
            r@ == spec_auth_request(email@, password@),
    {
        AuthRequest { email: String::from_str(email), password: generate_hash(email, password) }
    }

    /// Build the payload from a precomputed hash, stored verbatim; the
    /// server is the source of truth for its validity.
    pub fn new_from_hash(email: &str, hash: AuthHash) -> (r: Self)
        ensures
            r@ == spec_auth_request_from_hash(email@, hash@),
    {
        AuthRequest { email: String::from_str(email), password: hash }
    }

    /// Serialize to the wire payload `{"email":...,"password":...}`, with
    /// the derived hash in the `password` field.
    pub fn wire_json(&self) -> (r: String)
        ensures
            r@ == spec_wire_body(self@),
    {
        let mut out = String::from_str("{\"email\":\"");
        append_escaped(&mut out, self.email.as_str());
        out.append("\",\"password\":\"");
        append_escaped(&mut out, self.password.as_str());
        out.append("\"}");
        proof {
            assert(out@ =~= spec_wire_body(self@));
        }
        out
    }
}

/// Building the payload from a precomputed hash and building it from the
/// matching plaintext are interchangeable: they serialize to identical wire
/// bodies.
pub proof fn lemma_precomputed_hash_interchangeable(email: Seq<char>, password: Seq<char>)
    ensures
        spec_wire_body(spec_auth_request(email, password)) == spec_wire_body(
            spec_auth_request_from_hash(email, spec_generate_hash(email, password)),
        ),
{
}

/// Only the email is case-folded before hashing: two emails with the same
/// lower-cased form give the same hash for any password.
pub proof fn lemma_email_case_folded(e1: Seq<char>, e2: Seq<char>, password: Seq<char>)
    requires
        lowercased(e1) == lowercased(e2),
    ensures
        spec_generate_hash(e1, password) == spec_generate_hash(e2, password),
{
}

} // verus!
