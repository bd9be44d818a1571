//! Outbound requests: where they go, how much of an answer is read, and what
//! a client is told when they fail.

use vstd::prelude::*;
use vstd::utf8::encode_utf8;
use crate::config::HarnessConfig;
use crate::json;
use crate::json::Json;
use crate::text;

verus! {

/// Most bytes of a tool server's answer.
pub const MAX_TOOL_RESPONSE_BYTES: usize = 16777216;

/// Most bytes of a published key set.
pub const MAX_JWKS_BYTES: usize = 4194304;

/// The URL of chat completions: the base URL without slashes at its end, and
/// the path.
pub fn chat_url(config: &HarnessConfig) -> (url: String)
    ensures
        url@ == text::trim_end_char(config.upstream_url@, '/') + config.upstream_chat_path@,
{
    text::concat2(
        text::trim_end(config.upstream_url.as_str(), '/').as_str(),
        config.upstream_chat_path.as_str(),
    )
}

/// What the digest of a request is taken of: the payload as it is written.
/// One that cannot be written gives way to the id of its session.
pub open spec fn digest_material(written: Result<Seq<u8>, Seq<char>>, session_id: Seq<char>) -> Seq<u8> {
    match written {
        Ok(bytes) => bytes,
        Err(_) => encode_utf8(session_id),
    }
}

/// A payload as it was written, by its bytes or the words of the failure.
pub open spec fn written_view(written: Result<Vec<u8>, String>) -> Result<Seq<u8>, Seq<char>> {
    match written {
        Ok(bytes) => Ok(bytes@),
        Err(words) => Err(words@),
    }
}

/// What the digest of a request is taken of, by the payload as it was
/// written.
pub fn material_of(written: Result<Vec<u8>, String>, session_id: &str) -> (material: Vec<u8>)
    ensures
        material@ == digest_material(written_view(written), session_id@),
{
    match written {
        Ok(bytes) => bytes,
        Err(_) => {
            let mut material: Vec<u8> = Vec::new();
            material.extend_from_slice(session_id.as_bytes());
            assert(material@ =~= encode_utf8(session_id@));
            material
        },
    }
}

/// What the digest of a request is taken of. The digest marks the request as
/// on its way, and ties the response to it.
pub fn request_material(payload: &serde_json::Value, session_id: &str) -> (material: Vec<u8>)
    ensures
        material@ == digest_material(json::json_bytes(json::value_tree(*payload)), session_id@),
{
    material_of(json::write_value(payload), session_id)
}

/// Requests that cannot be written are not mistaken for each other across
/// sessions: what their digests are taken of is the same only within one
/// session.
pub proof fn law_unwritten_requests_stay_apart(
    fault: Seq<char>,
    other_fault: Seq<char>,
    session_id: Seq<char>,
    other_id: Seq<char>,
)
    ensures
        digest_material(Err(fault), session_id) == digest_material(Err(other_fault), other_id) <==> session_id
            == other_id,
{
    if digest_material(Err(fault), session_id) == digest_material(Err(other_fault), other_id) {
        text::lemma_encoding_is_injective(session_id, other_id);
    }
}

/// What an HTTP client says of a request that failed.
#[derive(Clone, Copy, Debug)]
pub struct HttpFault {
    pub is_timeout: bool,
    pub is_connect: bool,
    pub is_request: bool,
    pub is_body: bool,
    pub is_decode: bool,
    pub is_status: bool,
}

/// What a client is told of a request that failed: a kind of failure, and
/// nothing of where the request went.
pub open spec fn upstream_words(fault: HttpFault) -> Seq<char> {
    if fault.is_timeout {
        "upstream timed out"@
    } else if fault.is_connect {
        "upstream unreachable"@
    } else if fault.is_request {
        "upstream request rejected"@
    } else if fault.is_body || fault.is_decode {
        "upstream response malformed"@
    } else if fault.is_status {
        "upstream returned error status"@
    } else {
        "upstream forwarding failed"@
    }
}

/// What a client is told of a request that failed.
pub fn classify_upstream_error(fault: HttpFault) -> (words: &'static str)
    ensures
        words@ == upstream_words(fault),
{
    if fault.is_timeout {
        "upstream timed out"
    } else if fault.is_connect {
        "upstream unreachable"
    } else if fault.is_request {
        "upstream request rejected"
    } else if fault.is_body || fault.is_decode {
        "upstream response malformed"
    } else if fault.is_status {
        "upstream returned error status"
    } else {
        "upstream forwarding failed"
    }
}

/// Why reading the published keys failed.
#[derive(Debug)]
pub enum JwksFault {
    /// The request failed.
    Request(HttpFault),
    /// Anything else, in words.
    Other(String),
}

/// The kind of a failure to read the published keys, for the log.
pub open spec fn jwks_words(fault: JwksFault) -> Seq<char> {
    match fault {
        JwksFault::Request(http) => if http.is_timeout {
            "timeout"@
        } else if http.is_connect {
            "connect"@
        } else if http.is_body {
            "body"@
        } else if http.is_status {
            "status"@
        } else {
            "request"@
        },
        JwksFault::Other(words) => if text::occurs_in(words@, "exceeded"@) {
            "oversize"@
        } else if text::occurs_in(words@, "parse JWKS JSON"@) {
            "parse"@
        } else {
            "other"@
        },
    }
}

/// The kind of a failure to read the published keys, for the log.
pub fn classify_jwks_error(fault: &JwksFault) -> (words: &'static str)
    ensures
        words@ == jwks_words(*fault),
{
    match fault {
        JwksFault::Request(http) => {
            if http.is_timeout {
                "timeout"
            } else if http.is_connect {
                "connect"
            } else if http.is_body {
                "body"
            } else if http.is_status {
                "status"
            } else {
                "request"
            }
        },
        JwksFault::Other(words) => {
            if text::contains(words.as_str(), "exceeded") {
                "oversize"
            } else if text::contains(words.as_str(), "parse JWKS JSON") {
                "parse"
            } else {
                "other"
            }
        },
    }
}

/// Adds a chunk to a tool server's answer, up to its bound.
pub fn grow_tool_response(body: &mut Vec<u8>, chunk: &[u8]) -> (grown: Result<(), String>)
    ensures
        ({
            let size = old(body)@.len() + chunk@.len();
            match grown {
                Ok(()) => size <= MAX_TOOL_RESPONSE_BYTES && final(body)@ == old(body)@ + chunk@,
                Err(e) => size > MAX_TOOL_RESPONSE_BYTES && final(body)@ == old(body)@ && e@ == (if size
                    > usize::MAX {
                    "tool response size overflow"@
                } else {
                    "tool response exceeds 16777216 bytes"@
                }),
            }
        }),
{
    match body.len().checked_add(chunk.len()) {
        None => Err("tool response size overflow".to_owned()),
        Some(next) => {
            if next > MAX_TOOL_RESPONSE_BYTES {
                return Err("tool response exceeds 16777216 bytes".to_owned());
            }
            let ghost before = body@;
            body.extend_from_slice(chunk);
            assert(body@ =~= before + chunk@);
            Ok(())
        },
    }
}

/// Whether a key set of a declared length may be read at all.
pub fn check_jwks_length(declared: u64) -> (checked: Result<(), String>)
    ensures
        match checked {
            Ok(()) => declared <= MAX_JWKS_BYTES,
            Err(e) => declared > MAX_JWKS_BYTES && e@ == "JWKS declared Content-Length "@
                + text::decimal_digits(declared as nat) + " bytes; cap is 4194304"@,
        },
{
    if declared > MAX_JWKS_BYTES as u64 {
        Err(
            text::concat3(
                "JWKS declared Content-Length ",
                text::decimal(declared).as_str(),
                " bytes; cap is 4194304",
            ),
        )
    } else {
        Ok(())
    }
}

/// Adds a chunk to a key set, up to its bound.
pub fn grow_jwks(body: &mut Vec<u8>, chunk: &[u8]) -> (grown: Result<(), String>)
    ensures
        ({
            let size = old(body)@.len() + chunk@.len();
            match grown {
                Ok(()) => size <= MAX_JWKS_BYTES && final(body)@ == old(body)@ + chunk@,
                Err(e) => size > MAX_JWKS_BYTES && final(body)@ == old(body)@ && e@ == (if size > usize::MAX {
                    "JWKS body size overflowed usize"@
                } else {
                    "JWKS exceeded 4194304 bytes (received at least "@ + text::decimal_digits(size as nat)
                        + ")"@
                }),
            }
        }),
{
    match body.len().checked_add(chunk.len()) {
        None => Err("JWKS body size overflowed usize".to_owned()),
        Some(next) => {
            if next > MAX_JWKS_BYTES {
                return Err(
                    text::concat3(
                        "JWKS exceeded 4194304 bytes (received at least ",
                        text::decimal(next as u64).as_str(),
                        ")",
                    ),
                );
            }
            let ghost before = body@;
            body.extend_from_slice(chunk);
            assert(body@ =~= before + chunk@);
            Ok(())
        },
    }
}

/// The key set in a body that was parsed, or that there is none in it.
pub fn key_set(parsed: Result<Json, String>) -> (set: Result<Json, JwksFault>)
    ensures
        match (json::parsed_view(parsed), set) {
            (Ok(tree), Ok(document)) => document@ == tree,
            (Err(_), Err(fault)) => fault matches JwksFault::Other(words) && words@ == "parse JWKS JSON"@,
            _ => false,
        },
{
    match parsed {
        Ok(document) => Ok(document),
        Err(_) => Err(JwksFault::Other("parse JWKS JSON".to_owned())),
    }
}

/// Reads the body of a published key set.
pub fn read_jwks(body: &[u8]) -> (set: Result<Json, JwksFault>)
    ensures
        match (json::json_document_of_bytes(body@), set) {
            (Ok(tree), Ok(document)) => document@ == tree,
            (Err(_), Err(fault)) => fault matches JwksFault::Other(words) && words@ == "parse JWKS JSON"@,
            _ => false,
        },
{
    key_set(json::parse_json_bytes(body))
}

/// The log tells a key set that is too long from one that is no JSON, and
/// both from a request that failed.
pub proof fn law_key_set_failures_are_told_apart(size: nat, long: String, garbled: String, http: HttpFault)
    requires
        long@ == "JWKS exceeded 4194304 bytes (received at least "@ + text::decimal_digits(size) + ")"@,
        garbled@ == "parse JWKS JSON"@,
    ensures
        jwks_words(JwksFault::Other(long)) == "oversize"@,
        jwks_words(JwksFault::Other(garbled)) == "parse"@,
        jwks_words(JwksFault::Request(http)) != "oversize"@,
        jwks_words(JwksFault::Request(http)) != "parse"@,
{
    reveal_strlit("JWKS exceeded 4194304 bytes (received at least ");
    reveal_strlit("exceeded");
    reveal_strlit("parse JWKS JSON");
    reveal_strlit("oversize");
    reveal_strlit("parse");
    reveal_strlit("timeout");
    reveal_strlit("connect");
    reveal_strlit("body");
    reveal_strlit("status");
    reveal_strlit("request");
    let needle = "exceeded"@;
    assert(long@.subrange(5, 5 + needle.len() as int) =~= needle);
    assert(text::occurs_in(long@, needle));
    assert(!text::occurs_in(garbled@, needle)) by {
        assert forall|i: int| 0 <= i <= garbled@.len() - needle.len() implies #[trigger] garbled@.subrange(
            i,
            i + needle.len(),
        ) != needle by {
            assert(garbled@.subrange(i, i + needle.len())[1] == garbled@[i + 1]);
            assert(garbled@[i + 1] != 'x');
        }
    }
    assert(garbled@.subrange(0, 0int + garbled@.len()) =~= garbled@);
    assert(text::occurs_in(garbled@, garbled@));
    let words = jwks_words(JwksFault::Request(http));
    assert(words.len() == 4 || words.len() == 6 || words.len() == 7);
    assert("oversize"@.len() == 8 && "parse"@.len() == 5);
}

/// What a client is told of a provider that could not be reached says what
/// kind of failure it was, a timeout before all others, and nothing more.
pub proof fn law_upstream_failures_are_told_apart(fault: HttpFault)
    ensures
        fault.is_timeout ==> upstream_words(fault) == "upstream timed out"@,
        !fault.is_timeout && fault.is_connect ==> upstream_words(fault) == "upstream unreachable"@,
        !fault.is_timeout && !fault.is_connect && fault.is_request ==> upstream_words(fault)
            == "upstream request rejected"@,
        !fault.is_timeout && !fault.is_connect && !fault.is_request && (fault.is_body || fault.is_decode)
            ==> upstream_words(fault) == "upstream response malformed"@,
        !fault.is_timeout && !fault.is_connect && !fault.is_request && !fault.is_body && !fault.is_decode
            && fault.is_status ==> upstream_words(fault) == "upstream returned error status"@,
        !fault.is_timeout && !fault.is_connect && !fault.is_request && !fault.is_body && !fault.is_decode
            && !fault.is_status ==> upstream_words(fault) == "upstream forwarding failed"@,
{
}

/// The digest of a request is made of the request as it is written; only
/// where it cannot be written does the session stand for it.
pub proof fn law_requests_are_digested_as_written(bytes: Seq<u8>, fault: Seq<char>, session_id: Seq<char>)
    ensures
        digest_material(Ok(bytes), session_id) == bytes,
        digest_material(Err(fault), session_id) == encode_utf8(session_id),
{
}

/// A failed reading of the identity provider's keys is counted under the word
/// for what failed.
pub proof fn law_key_set_requests_fail_by_kind(http: HttpFault)
    ensures
        ({
            let words = jwks_words(JwksFault::Request(http));
            &&& http.is_timeout ==> words == "timeout"@
            &&& !http.is_timeout && http.is_connect ==> words == "connect"@
            &&& !http.is_timeout && !http.is_connect && http.is_body ==> words == "body"@
            &&& !http.is_timeout && !http.is_connect && !http.is_body && http.is_status ==> words == "status"@
            &&& !http.is_timeout && !http.is_connect && !http.is_body && !http.is_status ==> words == "request"@
        }),
{
}

} // verus!
