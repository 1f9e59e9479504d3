//! The pieces of the Gerrit REST client that decide rather than transfer:
//! URLs under the authenticated `/a/` prefix, path-segment encoding, the
//! `Authorization` header, and the translation of transport failures.
//!
//! Every request goes through Gerrit's `/a/` prefix, which is what makes it an
//! authenticated call. The transfer itself happens outside the library.

use vstd::prelude::*;
use vstd::string::*;
use vstd::utf8::encode_utf8;
use crate::text::{push_char, push_str, chars_of, find, contains_seq, copy_string};
use crate::gerrit::base_url::{host_of, spec_host_of};
use crate::gerrit::comment::{Comment, opt_view};
use crate::gerrit::error::{GerritError, spec_configured};
use crate::git::Credential;

verus! {

/// The character of a six-bit value in the standard base64 alphabet:
/// `A`–`Z`, `a`–`z`, `0`–`9`, `+`, `/`.
pub open spec fn base64_digit(v: int) -> char {
    if v < 26 {
        (65 + v) as char
    } else if v < 52 {
        (97 + v - 26) as char
    } else if v < 62 {
        (48 + v - 52) as char
    } else if v == 62 {
        '+'
    } else {
        '/'
    }
}

/// Standard, padded base64: every three bytes become four characters of six
/// bits each, and a final one or two bytes are padded with `=` to four.
pub open spec fn base64_standard(input: Seq<u8>) -> Seq<char>
    decreases input.len(),
{
    if input.len() == 0 {
        Seq::empty()
    } else if input.len() == 1 {
        let a = input[0] as int;
        seq![base64_digit(a / 4), base64_digit((a % 4) * 16), '=', '=']
    } else if input.len() == 2 {
        let (a, b) = (input[0] as int, input[1] as int);
        seq![base64_digit(a / 4), base64_digit((a % 4) * 16 + b / 16), base64_digit((b % 16) * 4), '=']
    } else {
        let (a, b, c) = (input[0] as int, input[1] as int, input[2] as int);
        seq![base64_digit(a / 4), base64_digit((a % 4) * 16 + b / 16), base64_digit((b % 16) * 4 + c / 64),
            base64_digit(c % 64)] + base64_standard(input.skip(3))
    }
}

/// Base64 takes four characters for every started group of three bytes.
pub proof fn lemma_base64_length(input: Seq<u8>)
    ensures
        base64_standard(input).len() == 4 * ((input.len() + 2) / 3),
    decreases input.len(),
{
    if input.len() >= 3 {
        lemma_base64_length(input.skip(3));
    }
}

/// Calls `base64::Engine::encode` on the standard, padded engine, which
/// encodes as `base64_standard` says. The encoder allocates the encoded
/// length up front, so that length must fit an allocation.
#[verifier::external_body]
fn base64_encode(input: &[u8]) -> (r: String)
    requires
        input@.len() / 3 * 4 + 4 <= isize::MAX,
    ensures
        r@ == base64_standard(input@),
{
    base64::Engine::encode(&base64::engine::general_purpose::STANDARD, input)
}

/// The Unicode lowercase mapping of a string, as `str::to_lowercase` computes it.
pub uninterp spec fn lowercase(s: Seq<char>) -> Seq<char>;

/// Calls `str::to_lowercase`; its result is named by `lowercase`.
#[verifier::external_body]
fn to_lowercase(s: &str) -> (r: String)
    ensures
        r@ == lowercase(s@),
{
    s.to_lowercase()
}

/// `s` without its trailing `/` characters.
pub open spec fn trim_trailing_slashes(s: Seq<char>) -> Seq<char>
    decreases s.len(),
{
    if s.len() > 0 && s.last() == '/' {
        trim_trailing_slashes(s.drop_last())
    } else {
        s
    }
}

/// A base URL normalised to end in exactly one `/`.
pub open spec fn spec_with_trailing_slash(s: Seq<char>) -> Seq<char> {
    trim_trailing_slashes(s).push('/')
}

/// Normalise a base URL to end in exactly one `/`.
pub fn ensure_trailing_slash(base_url: &str) -> (r: String)
    ensures
        r@ == spec_with_trailing_slash(base_url@),
{
    let v = chars_of(base_url);
    let mut end: usize = v.len();
    assert(v@.take(v@.len() as int) =~= v@);
    while end > 0 && v[end - 1] == '/'
        invariant
            end <= v@.len(),
            trim_trailing_slashes(v@) == trim_trailing_slashes(v@.take(end as int)),
        decreases end,
    {
        assert(v@.take(end as int).drop_last() =~= v@.take(end - 1));
        end = end - 1;
    }
    assert(v@.take(v@.len() as int) =~= v@);
    let mut r = String::new();
    let mut i: usize = 0;
    while i < end
        invariant
            end <= v@.len(),
            i <= end,
            r@ == v@.take(i as int),
        decreases end - i,
    {
        push_char(&mut r, v[i]);
        assert(v@.take(i + 1) =~= v@.take(i as int).push(v@[i as int]));
        i = i + 1;
    }
    assert(trim_trailing_slashes(v@.take(end as int)) == v@.take(end as int));
    push_char(&mut r, '/');
    r
}

/// Whether a byte is unreserved in a URL path (RFC 3986: letters, digits,
/// `-`, `.`, `_`, `~`).
pub open spec fn unreserved(b: u8) -> bool {
    (0x41 <= b <= 0x5a) || (0x61 <= b <= 0x7a) || (0x30 <= b <= 0x39) || b == 0x2d || b == 0x2e || b == 0x5f || b == 0x7e
}

/// An upper-case hexadecimal digit.
pub open spec fn hex_digit(d: u8) -> char {
    if d < 10 { (0x30 + d) as char } else { (0x41 + d - 10) as char }
}

/// How one byte appears in an encoded path segment.
pub open spec fn encode_byte(b: u8) -> Seq<char> {
    if unreserved(b) {
        seq![b as char]
    } else {
        seq!['%', hex_digit(b / 16), hex_digit(b % 16)]
    }
}

/// Percent-encoding of a byte sequence.
pub open spec fn spec_encode(bytes: Seq<u8>) -> Seq<char>
    decreases bytes.len(),
{
    if bytes.len() == 0 {
        Seq::empty()
    } else {
        spec_encode(bytes.drop_last()) + encode_byte(bytes.last())
    }
}

fn hex(d: u8) -> (c: char)
    requires
        d < 16,
    ensures
        c == hex_digit(d),
{
    if d < 10 { (0x30 + d) as char } else { (0x41 + d - 10) as char }
}

/// Percent-encode one URL path segment, byte by byte.
///
/// Gerrit's triple-form change id `project~branch~ChangeId` embeds the
/// project, which legitimately contains `/`; raw, it would become several path
/// segments. Unreserved characters pass through, so numeric and `I…` ids are
/// untouched.
pub fn encode_segment(segment: &str) -> (r: String)
    ensures
        r@ == spec_encode(segment.spec_bytes()),
{
    let bytes = segment.as_bytes();
    let mut out = String::new();
    let mut i: usize = 0;
    while i < bytes.len()
        invariant
            bytes@ == segment.spec_bytes(),
            i <= bytes@.len(),
            out@ == spec_encode(bytes@.take(i as int)),
        decreases bytes@.len() - i,
    {
        let b = bytes[i];
        assert(bytes@.take(i + 1).drop_last() =~= bytes@.take(i as int));
        if (0x41 <= b && b <= 0x5a) || (0x61 <= b && b <= 0x7a) || (0x30 <= b && b <= 0x39) || b == 0x2d || b == 0x2e || b == 0x5f || b == 0x7e {
            push_char(&mut out, b as char);
            assert(out@ =~= spec_encode(bytes@.take(i as int)) + seq![b as char]);
        } else {
            push_char(&mut out, '%');
            push_char(&mut out, hex(b / 16));
            push_char(&mut out, hex(b % 16));
            assert(out@ =~= spec_encode(bytes@.take(i as int)) + seq!['%', hex_digit(b / 16), hex_digit(b % 16)]);
        }
        i = i + 1;
    }
    assert(bytes@.take(bytes@.len() as int) =~= bytes@);
    out
}

/// An encoded segment stays one path segment: it holds no `/`.
pub proof fn lemma_encoded_segment_has_no_slash(bytes: Seq<u8>)
    ensures
        forall|k: int| 0 <= k < spec_encode(bytes).len() ==> spec_encode(bytes)[k] != '/',
    decreases bytes.len(),
{
    if bytes.len() > 0 {
        let b = bytes.last();
        lemma_encoded_segment_has_no_slash(bytes.drop_last());
        let head = spec_encode(bytes.drop_last());
        let tail = encode_byte(b);
        assert(b / 16 < 16 && b % 16 < 16);
        assert forall|k: int| 0 <= k < tail.len() implies tail[k] != '/' by {
            if unreserved(b) {
                assert(b != 0x2f);
            }
        }
        assert forall|k: int| 0 <= k < spec_encode(bytes).len() implies spec_encode(bytes)[k] != '/' by {
            if k < head.len() {
                assert(spec_encode(bytes)[k] == head[k]);
            } else {
                assert(spec_encode(bytes)[k] == tail[k - head.len()]);
            }
        }
    }
}

/// A segment made only of unreserved bytes (letters, digits, `-._~`) passes
/// through encoding untouched.
pub proof fn lemma_unreserved_passes_through(bytes: Seq<u8>)
    requires
        forall|k: int| 0 <= k < bytes.len() ==> unreserved(#[trigger] bytes[k]),
    ensures
        spec_encode(bytes) == bytes.map_values(|b: u8| b as char),
    decreases bytes.len(),
{
    if bytes.len() > 0 {
        let prev = bytes.drop_last();
        assert forall|k: int| 0 <= k < prev.len() implies unreserved(#[trigger] prev[k]) by {
            assert(prev[k] == bytes[k]);
        }
        lemma_unreserved_passes_through(prev);
        assert(unreserved(bytes[bytes.len() - 1]));
        assert(spec_encode(bytes) =~= bytes.map_values(|b: u8| b as char));
    }
}

proof fn lemma_trimmed_ends_without_slash(s: Seq<char>)
    ensures
        trim_trailing_slashes(s).len() > 0 ==> trim_trailing_slashes(s).last() != '/',
        trim_trailing_slashes(s).len() <= s.len(),
        trim_trailing_slashes(s) == s.take(trim_trailing_slashes(s).len() as int),
    decreases s.len(),
{
    if s.len() > 0 && s.last() == '/' {
        lemma_trimmed_ends_without_slash(s.drop_last());
        let t = trim_trailing_slashes(s.drop_last());
        assert(s.drop_last().take(t.len() as int) =~= s.take(t.len() as int));
    } else {
        assert(s.take(s.len() as int) =~= s);
    }
}

/// A normalised base URL ends in exactly one `/` and keeps everything before
/// the trailing slashes; normalising again changes nothing.
pub proof fn lemma_trailing_slash_is_exact(s: Seq<char>)
    ensures
        ({
            let n = spec_with_trailing_slash(s);
            &&& n.last() == '/'
            &&& n.len() >= 2 ==> n[n.len() - 2] != '/'
            &&& n.drop_last() == s.take(n.len() - 1)
            &&& spec_with_trailing_slash(n) == n
        }),
{
    lemma_trimmed_ends_without_slash(s);
    let t = trim_trailing_slashes(s);
    let n = t.push('/');
    assert(n.drop_last() =~= t);
    assert(trim_trailing_slashes(n) == trim_trailing_slashes(t));
    assert(trim_trailing_slashes(t) == t);
}

/// Whether `hay` contains `needle`.
pub fn contains(hay: &[char], needle: &[char]) -> (r: bool)
    ensures
        r == contains_seq(hay@, needle@),
{
    find(hay, needle).is_some()
}

/// The lowercase needles that mark a certificate rejection in a transport
/// message. They hold no spaces because rustls names its errors in CamelCase.
pub open spec fn names_certificate_failure(lowered: Seq<char>) -> bool {
    contains_seq(lowered, "certificate"@) || contains_seq(lowered, "certverify"@)
        || contains_seq(lowered, "unknownissuer"@) || contains_seq(lowered, "selfsigned"@)
}

/// Whether a transport error message describes a certificate rejection.
///
/// Matched on text because the HTTP client erases the TLS error type behind
/// its own transport variant.
pub fn is_certificate_failure(message: &str) -> (r: bool)
    ensures
        r == names_certificate_failure(lowercase(message@)),
{
    let lowered = to_lowercase(message);
    let l = chars_of(lowered.as_str());
    let n1 = chars_of("certificate");
    let n2 = chars_of("certverify");
    let n3 = chars_of("unknownissuer");
    let n4 = chars_of("selfsigned");
    contains(l.as_slice(), n1.as_slice()) || contains(l.as_slice(), n2.as_slice())
        || contains(l.as_slice(), n3.as_slice()) || contains(l.as_slice(), n4.as_slice())
}

/// How a request failed to produce a body: Gerrit answered with a non-success
/// status, or the transfer itself failed with a message.
#[derive(Debug, Clone, PartialEq, Eq)]
pub enum TransportFailure {
    Status(u16),
    Other(String),
}

/// A Gerrit REST client's configuration: one host and one credential.
#[derive(Debug, Clone)]
pub struct GerritHttp {
    /// Base URL, always with exactly one trailing slash.
    pub base_url: String,
    /// The `Authorization` header value, `Basic` and the encoded credential.
    /// Built once so the credential is not re-encoded per request.
    pub authorization: String,
    /// Git's configured CA path, folded into a TLS failure message.
    pub ca_info: Option<String>,
}

/// The bytes a credential is encoded from: `username:password` in UTF-8.
pub open spec fn credential_bytes(username: Seq<char>, password: Seq<char>) -> Seq<u8> {
    encode_utf8(username + ":"@ + password)
}

/// The host of a base URL, or the whole base URL when it names none.
pub open spec fn spec_host(base_url: Seq<char>) -> Seq<char> {
    match spec_host_of(base_url) {
        Some(h) => h,
        None => base_url,
    }
}

impl GerritHttp {
    /// A client for `base_url` authenticating as `credential`.
    pub fn new(base_url: &str, credential: &Credential, ca_info: Option<String>) -> (r: GerritHttp)
        requires
            credential_bytes(credential.username@, credential.password@).len() / 3 * 4 + 4 <= isize::MAX,
        ensures
            r.base_url@ == spec_with_trailing_slash(base_url@),
            r.authorization@ == "Basic "@ + base64_standard(credential_bytes(credential.username@, credential.password@)),
            opt_view(r.ca_info) == opt_view(ca_info),
    {
        let mut raw = String::new();
        push_str(&mut raw, credential.username.as_str());
        push_str(&mut raw, ":");
        push_str(&mut raw, credential.password.as_str());
        let bytes = raw.as_str().as_bytes();
        let encoded = base64_encode(bytes);
        let mut authorization = String::new();
        push_str(&mut authorization, "Basic ");
        push_str(&mut authorization, encoded.as_str());
        GerritHttp { base_url: ensure_trailing_slash(base_url), authorization, ca_info }
    }

    /// The absolute URL for an API path, under the authenticated `/a/` prefix.
    pub fn url_for(&self, path: &str) -> (r: String)
        ensures
            r@ == self.base_url@ + "a/"@ + path@,
    {
        let mut r = copy_string(&self.base_url);
        push_str(&mut r, "a/");
        push_str(&mut r, path);
        r
    }

    /// The host this client talks to, for error messages.
    pub fn host(&self) -> (r: &str)
        ensures
            r@ == spec_host(self.base_url@),
    {
        match host_of(self.base_url.as_str()) {
            Some(h) => h,
            None => self.base_url.as_str(),
        }
    }

    /// Translate a failed request into this module's taxonomy.
    ///
    /// A certificate rejection is reported apart from other transport
    /// failures: a Gerrit that `git push` reaches but this client cannot is a
    /// trust-store difference, not an authentication problem.
    pub fn map_transport_error(&self, failure: TransportFailure, url: &str) -> (r: GerritError)
        ensures
            match failure {
                TransportFailure::Status(status) => r matches GerritError::HttpStatus { status: s, url: u, body: b }
                    && s == status && u@ == url@ && b@.len() == 0,
                TransportFailure::Other(message) => if names_certificate_failure(lowercase(message@)) {
                    r matches GerritError::TlsTrust { host, configured } && host@ == spec_host(self.base_url@)
                        && configured@ == spec_configured(opt_view(self.ca_info))
                } else {
                    r matches GerritError::Transport { url: u, message: m } && u@ == url@ && m@ == message@
                },
            },
    {
        match failure {
            TransportFailure::Status(status) => GerritError::HttpStatus { status, url: url.to_owned(), body: String::new() },
            TransportFailure::Other(message) => {
                if is_certificate_failure(message.as_str()) {
                    let ca = match &self.ca_info {
                        Some(p) => Some(p.as_str()),
                        None => None,
                    };
                    GerritError::tls_trust(self.host(), ca)
                } else {
                    GerritError::Transport { url: url.to_owned(), message }
                }
            },
        }
    }
}

/// Whether an error is Gerrit's `404 Not Found`.
pub open spec fn spec_is_not_found(e: GerritError) -> bool {
    e matches GerritError::HttpStatus { status, .. } && status == 404
}

/// Whether an error is Gerrit's `404 Not Found`.
pub fn is_not_found(err: &GerritError) -> (r: bool)
    ensures
        r == spec_is_not_found(*err),
{
    match err {
        GerritError::HttpStatus { status, .. } => *status == 404,
        _ => false,
    }
}

/// The error reported when fetching a change failed. Gerrit answers 404 both
/// for a missing change and for one the user may not see, and deliberately
/// does not tell them apart; both become [`GerritError::NoSuchChange`].
pub fn change_lookup_error(err: GerritError, change_id: &str) -> (r: GerritError)
    ensures
        spec_is_not_found(err) ==> (r matches GerritError::NoSuchChange { change_id: c } && c@ == change_id@),
        !spec_is_not_found(err) ==> r == err,
{
    if is_not_found(&err) {
        GerritError::NoSuchChange { change_id: change_id.to_owned() }
    } else {
        err
    }
}

/// The REST endpoints the client calls, each about one change.
#[derive(Debug, Clone, Copy, PartialEq, Eq, Structural)]
pub enum Endpoint {
    /// The change, with its current revision's detail (patchset number and
    /// fetch ref).
    Change,
    /// Its published inline comments.
    Comments,
    /// Its robot comments.
    RobotComments,
    /// The review post on its current revision.
    Review,
}

/// The API path of an endpoint for a change; the change id is one encoded
/// path segment.
pub open spec fn spec_endpoint_path(endpoint: Endpoint, encoded_id: Seq<char>) -> Seq<char> {
    "changes/"@ + encoded_id + match endpoint {
        Endpoint::Change => "?o=CURRENT_REVISION"@,
        Endpoint::Comments => "/comments"@,
        Endpoint::RobotComments => "/robotcomments"@,
        Endpoint::Review => "/revisions/current/review"@,
    }
}

impl GerritHttp {
    /// The absolute URL of `endpoint` for `change_id`.
    pub fn endpoint_url(&self, endpoint: Endpoint, change_id: &str) -> (r: String)
        ensures
            r@ == self.base_url@ + "a/"@ + spec_endpoint_path(endpoint, spec_encode(change_id.spec_bytes())),
    {
        let mut path = String::new();
        push_str(&mut path, "changes/");
        let encoded = encode_segment(change_id);
        push_str(&mut path, encoded.as_str());
        match endpoint {
            Endpoint::Change => push_str(&mut path, "?o=CURRENT_REVISION"),
            Endpoint::Comments => push_str(&mut path, "/comments"),
            Endpoint::RobotComments => push_str(&mut path, "/robotcomments"),
            Endpoint::Review => push_str(&mut path, "/revisions/current/review"),
        }
        self.url_for(path.as_str())
    }
}

/// The answer of the robot-comment endpoint. Not every Gerrit serves it, so
/// a 404 there means there are no robot comments, not a failed fetch.
pub fn robot_comments_outcome(r: Result<Vec<(String, Vec<Comment>)>, GerritError>)
    -> (out: Result<Vec<(String, Vec<Comment>)>, GerritError>)
    ensures
        match r {
            Err(e) => if spec_is_not_found(e) { out matches Ok(g) && g@.len() == 0 } else { out == Err::<Vec<(String, Vec<Comment>)>, GerritError>(e) },
            Ok(g) => out == Ok::<Vec<(String, Vec<Comment>)>, GerritError>(g),
        },
{
    match r {
        Err(e) => {
            if is_not_found(&e) {
                Ok(Vec::new())
            } else {
                Err(e)
            }
        },
        Ok(g) => Ok(g),
    }
}

} // verus!
