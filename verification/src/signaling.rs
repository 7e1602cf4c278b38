//! The HTTP signaling service's endpoints and wire formats: where manifests
//! and save-state blobs live, and how a state blob travels as base64.

use vstd::prelude::*;
use base64::{engine::general_purpose, Engine};
use crate::text::{owned, trim_end_char, trim_end_matches_char};

verus! {

/// The JSON body that carries a save-state blob.
#[derive(Debug, Clone)]
pub struct StatePayload {
    /// The blob, base64-encoded with the standard alphabet and padding.
    pub state: String,
}

/// `<base without trailing slashes>/<section>/<session id>`.
pub open spec fn endpoint_url(base: Seq<char>, section: Seq<char>, session_id: Seq<char>) -> Seq<char> {
    trim_end_char(base, '/') + seq!['/'] + section + seq!['/'] + session_id
}

fn endpoint(base_url: &str, section: &str, session_id: &str) -> (r: String)
    ensures
        r@ == endpoint_url(base_url@, section@, session_id@),
{
    let mut url = trim_end_matches_char(base_url, '/');
    url.append("/");
    url.append(section);
    url.append("/");
    url.append(session_id);
    proof {
        reveal_strlit("/");
    }
    assert(url@ =~= endpoint_url(base_url@, section@, session_id@));
    url
}

/// The URL a session's manifest is posted to and fetched from.
pub fn sessions_url(base_url: &str, session_id: &str) -> (r: String)
    ensures
        r@ == endpoint_url(base_url@, "sessions"@, session_id@),
{
    endpoint(base_url, "sessions", session_id)
}

/// The URL a session's save-state blob is posted to and fetched from.
pub fn state_url(base_url: &str, session_id: &str) -> (r: String)
    ensures
        r@ == endpoint_url(base_url@, "state"@, session_id@),
{
    endpoint(base_url, "state", session_id)
}

/// A base URL with trailing slashes names the same endpoints as without.
pub proof fn lemma_trailing_slash_ignored(base: Seq<char>, section: Seq<char>, session_id: Seq<char>)
    ensures
        endpoint_url(base.push('/'), section, session_id) == endpoint_url(base, section, session_id),
{
    assert(base.push('/').drop_last() =~= base);
}

/// Whether an HTTP status code is a success (2xx).
pub open spec fn success_status(code: u16) -> bool {
    200 <= code && code <= 299
}

/// Whether the signaling server accepted or answered a request.
pub fn is_success_status(code: u16) -> (r: bool)
    ensures
        r == success_status(code),
{
    200 <= code && code <= 299
}

/// How a save-state fetch ended, by the reply's status code.
#[derive(Debug, Clone, Copy, PartialEq, Eq)]
pub enum StateFetchStatus {
    /// 404: the session has no save-state.
    Missing,
    /// Any other non-2xx status.
    Failed,
    /// 2xx: the body carries the payload.
    Ready,
}

/// Classifies the reply to a save-state fetch: a 404 first, then any other
/// failure, else the payload is ready.
pub fn classify_state_status(code: u16) -> (r: StateFetchStatus)
    ensures
        code == 404 ==> r == StateFetchStatus::Missing,
        code != 404 && !success_status(code) ==> r == StateFetchStatus::Failed,
        success_status(code) ==> r == StateFetchStatus::Ready,
{
    if code == 404 {
        StateFetchStatus::Missing
    } else if !is_success_status(code) {
        StateFetchStatus::Failed
    } else {
        StateFetchStatus::Ready
    }
}

/// The character of the standard base64 alphabet for a value below 64.
pub open spec fn base64_char(v: int) -> char {
    if v < 26 {
        (65 + v) as char
    } else if v < 52 {
        (71 + v) as char
    } else if v < 62 {
        (v - 4) as char
    } else if v == 62 {
        '+'
    } else {
        '/'
    }
}

/// Standard base64 (RFC 4648 alphabet, `=` padding) of `b`.
pub open spec fn base64_standard(b: Seq<u8>) -> Seq<char>
    decreases b.len(),
{
    if b.len() == 0 {
        Seq::empty()
    } else {
        let x0 = b[0] as int;
        if b.len() == 1 {
            seq![base64_char(x0 / 4), base64_char((x0 % 4) * 16), '=', '=']
        } else {
            let x1 = b[1] as int;
            if b.len() == 2 {
                seq![
                    base64_char(x0 / 4),
                    base64_char((x0 % 4) * 16 + x1 / 16),
                    base64_char((x1 % 16) * 4),
                    '=',
                ]
            } else {
                let x2 = b[2] as int;
                seq![
                    base64_char(x0 / 4),
                    base64_char((x0 % 4) * 16 + x1 / 16),
                    base64_char((x1 % 16) * 4 + x2 / 64),
                    base64_char(x2 % 64),
                ] + base64_standard(b.skip(3))
            }
        }
    }
}

/// Calls `base64::engine::general_purpose::STANDARD.encode` on `data`.
///
/// Trusted: the STANDARD engine writes the RFC 4648 alphabet with `=`
/// padding; the contract states that encoding in full.
#[verifier::external_body]
fn base64_encode(data: &[u8]) -> (r: String)
    ensures
        r@ == base64_standard(data@),
{
    general_purpose::STANDARD.encode(data)
}

/// The text (`Display`) of the error `general_purpose::STANDARD.decode`
/// gives for `text`.
pub uninterp spec fn base64_decode_error_text(text: Seq<char>) -> Seq<char>;

/// Calls `base64::engine::general_purpose::STANDARD.decode` on `text`.
///
/// Trusted: the STANDARD engine requires canonical padding and refuses
/// trailing bits, so it accepts exactly the texts that its `encode` writes
/// (`base64_standard`), and such a text decodes back to the bytes it was
/// written from (the crate's round-trip property). The error's text is named
/// by `base64_decode_error_text`.
#[verifier::external_body]
fn base64_decode(text: &str) -> (r: Result<Vec<u8>, String>)
    ensures
        match r {
            Ok(v) => base64_standard(v@) == text@,
            Err(e) => (forall|b: Seq<u8>| #[trigger] base64_standard(b) != text@) && e@ == base64_decode_error_text(text@),
        },
        forall|b: Seq<u8>| #[trigger] base64_standard(b) == text@ ==> (r is Ok && r.unwrap()@ == b),
{
    general_purpose::STANDARD.decode(text).map_err(|e| e.to_string())
}

impl StatePayload {
    /// The payload that carries `state_bytes`.
    pub fn from_state(state_bytes: &[u8]) -> (r: StatePayload)
        ensures
            r.state@ == base64_standard(state_bytes@),
    {
        StatePayload { state: base64_encode(state_bytes) }
    }

    /// The blob this payload carries, or why it cannot be decoded.
    pub fn decode_state(&self) -> (r: Result<Vec<u8>, String>)
        ensures
            match r {
                Ok(v) => base64_standard(v@) == self.state@,
                Err(msg) => (forall|b: Seq<u8>| #[trigger] base64_standard(b) != self.state@)
                    && msg@ == "failed to decode base64 state blob: "@ + base64_decode_error_text(self.state@),
            },
            forall|b: Seq<u8>| #[trigger] base64_standard(b) == self.state@ ==> (r matches Ok(v) && v@ == b),
    {
        match base64_decode(self.state.as_str()) {
            Ok(v) => Ok(v),
            Err(e) => {
                let msg = owned("failed to decode base64 state blob: ").concat(e.as_str());
                Err(msg)
            },
        }
    }
}

} // verus!
