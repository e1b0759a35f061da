//! The boundary to the completion service.
//!
//! The service itself is reached over the network by the caller. What is
//! decided on either side of that call lives here: how the credential
//! becomes a request header, which completion of a reply counts, and whether
//! a failed call is tried again or given up.

use crate::error::{ExecutionError, GatewayError};
use reqwest::header::{HeaderValue, InvalidHeaderValue};
use vstd::prelude::*;
use vstd::string::{StringExecFns, StringSliceAdditionalSpecFns};
use vstd::utf8::{encode_scalar, encode_utf8, is_ascii_chars, is_scalar};

verus! {

/// `HeaderValue` of the `http` crate, as `reqwest` re-exports it: the value
/// of one request header. Its content is hidden; [`header_value_bytes`]
/// names the bytes that it holds.
#[verifier::external_type_specification]
#[verifier::external_body]
pub struct ExHeaderValue(HeaderValue);

/// `InvalidHeaderValue` of the `http` crate, as `reqwest` re-exports it: the
/// error of a failed conversion into a header value. It carries nothing.
#[verifier::external_type_specification]
#[verifier::external_body]
pub struct ExInvalidHeaderValue(InvalidHeaderValue);

/// Whether a header value may hold the byte: anything but a control
/// character, with the horizontal tab allowed.
pub open spec fn header_byte_allowed(byte: u8) -> bool {
    (byte >= 32 && byte != 127) || byte == 9
}

/// Whether a header value may hold all of `bytes`.
pub open spec fn header_bytes_allowed(bytes: Seq<u8>) -> bool {
    forall|i: int| 0 <= i < bytes.len() ==> header_byte_allowed(#[trigger] bytes[i])
}

/// The bytes that a header value holds.
pub uninterp spec fn header_value_bytes(value: HeaderValue) -> Seq<u8>;

/// `HeaderValue::from_str` of the `http` crate, as `reqwest` re-exports it.
/// It scans the UTF-8 bytes of `src`, fails on the first byte that is a
/// control character other than the tab, and otherwise succeeds with a
/// value that holds a copy of those bytes.
pub assume_specification[ HeaderValue::from_str ](src: &str) -> (parsed: Result<
    HeaderValue,
    InvalidHeaderValue,
>)
    ensures
        parsed is Ok <==> header_bytes_allowed(src.spec_bytes()),
        parsed matches Ok(value) ==> header_value_bytes(value) == src.spec_bytes(),
;

/// Whether a header value may hold the character: anything but a control
/// character, with the horizontal tab allowed.
pub open spec fn header_char_allowed(c: char) -> bool {
    let code = c as u32;
    code == 9 || (code >= 32 && code != 127)
}

/// Whether a header value may hold the text.
pub open spec fn header_text_allowed(text: Seq<char>) -> bool {
    forall|i: int| 0 <= i < text.len() ==> header_char_allowed(#[trigger] text[i])
}

/// The bytes of a character beyond ASCII are all beyond ASCII.
proof fn lemma_wide_bytes_allowed(scalar: u32)
    requires
        is_scalar(scalar),
        scalar >= 0x80,
    ensures
        header_bytes_allowed(encode_scalar(scalar)),
{
    assert(forall|low: u8| #![auto] (0x80u8 | low) >= 0x80u8) by (bit_vector);
    assert(forall|low: u8| #![auto] (0xC0u8 | low) >= 0x80u8) by (bit_vector);
    assert(forall|low: u8| #![auto] (0xE0u8 | low) >= 0x80u8) by (bit_vector);
    assert(forall|low: u8| #![auto] (0xF0u8 | low) >= 0x80u8) by (bit_vector);
}

/// The single byte of an ASCII character is the character's code.
proof fn lemma_narrow_byte(scalar: u32)
    requires
        scalar < 0x80,
    ensures
        encode_scalar(scalar) == seq![scalar as u8],
{
    assert((scalar & 0x7F) == scalar) by (bit_vector)
        requires
            scalar < 0x80,
    ;
}

/// A header accepts the bytes of a text exactly when it accepts each of its
/// characters.
pub proof fn lemma_header_text_by_characters(text: Seq<char>)
    ensures
        header_bytes_allowed(encode_utf8(text)) <==> header_text_allowed(text),
    decreases text.len(),
{
    if text.len() > 0 {
        let first = text[0];
        let rest = text.drop_first();
        let head = encode_scalar(first as u32);
        let tail = encode_utf8(rest);
        let whole = encode_utf8(text);
        lemma_header_text_by_characters(rest);
        vstd::utf8::char_is_scalar(first);
        let code = first as u32;
        if code >= 0x80 {
            lemma_wide_bytes_allowed(code);
        } else {
            lemma_narrow_byte(code);
            assert(head[0] == code as u8);
            if header_char_allowed(first) {
                assert forall|i: int| 0 <= i < head.len() implies header_byte_allowed(
                    #[trigger] head[i],
                ) by {
                    assert(head[i] == code as u8);
                }
            }
        }
        assert(header_bytes_allowed(head) <==> header_char_allowed(first));
        assert(whole == head + tail);
        if header_bytes_allowed(whole) {
            assert forall|i: int| 0 <= i < head.len() implies header_byte_allowed(
                #[trigger] head[i],
            ) by {
                assert(whole[i] == head[i]);
            }
            assert forall|i: int| 0 <= i < tail.len() implies header_byte_allowed(
                #[trigger] tail[i],
            ) by {
                assert(whole[head.len() + i] == tail[i]);
            }
            assert forall|i: int| 0 <= i < text.len() implies header_char_allowed(
                #[trigger] text[i],
            ) by {
                if i > 0 {
                    assert(rest[i - 1] == text[i]);
                }
            }
        }
        if header_text_allowed(text) {
            assert(header_char_allowed(text[0]));
            assert forall|i: int| 0 <= i < rest.len() implies header_char_allowed(
                #[trigger] rest[i],
            ) by {
                assert(rest[i] == text[i + 1]);
            }
            assert forall|i: int| 0 <= i < whole.len() implies header_byte_allowed(
                #[trigger] whole[i],
            ) by {
                if i < head.len() {
                    assert(whole[i] == head[i]);
                } else {
                    assert(whole[i] == tail[i - head.len()]);
                }
            }
        }
    }
}

/// Encoding a concatenation gives the concatenation of the encodings.
proof fn lemma_encode_utf8_concat(a: Seq<char>, b: Seq<char>)
    ensures
        encode_utf8(a + b) == encode_utf8(a) + encode_utf8(b),
    decreases a.len(),
{
    if a.len() == 0 {
        assert(a + b =~= b);
        assert(encode_utf8(a) + encode_utf8(b) =~= encode_utf8(b));
    } else {
        assert((a + b).drop_first() =~= a.drop_first() + b);
        lemma_encode_utf8_concat(a.drop_first(), b);
        assert(encode_utf8(a + b) =~= encode_utf8(a) + encode_utf8(b));
    }
}

/// The scheme that precedes the key in the header.
pub open spec fn bearer_prefix() -> Seq<char> {
    "Bearer "@
}

/// The text of the authorization header for `api_key`.
pub open spec fn bearer_text(api_key: Seq<char>) -> Seq<char> {
    bearer_prefix() + api_key
}

/// The prefix is plain text, so a header accepts it with a key exactly when
/// it accepts the key.
proof fn lemma_bearer_text_allowed(api_key: Seq<char>)
    ensures
        header_bytes_allowed(encode_utf8(bearer_text(api_key))) <==> header_bytes_allowed(
            encode_utf8(api_key),
        ),
{
    reveal_strlit("Bearer ");
    let prefix = bearer_prefix();
    assert(is_ascii_chars(prefix));
    vstd::utf8::is_ascii_chars_encode_utf8(prefix);
    lemma_encode_utf8_concat(prefix, api_key);
    let head = encode_utf8(prefix);
    let tail = encode_utf8(api_key);
    let whole = encode_utf8(bearer_text(api_key));
    assert(head.len() == 7);
    assert(header_bytes_allowed(head)) by {
        assert forall|i: int| 0 <= i < head.len() implies header_byte_allowed(
            #[trigger] head[i],
        ) by {
            assert(head[i] == prefix[i] as u8);
        }
    }
    if header_bytes_allowed(whole) {
        assert forall|i: int| 0 <= i < tail.len() implies header_byte_allowed(
            #[trigger] tail[i],
        ) by {
            assert(whole[7 + i] == tail[i]);
        }
    }
    if header_bytes_allowed(tail) {
        assert forall|i: int| 0 <= i < whole.len() implies header_byte_allowed(
            #[trigger] whole[i],
        ) by {
            if i < 7 {
                assert(whole[i] == head[i]);
            } else {
                assert(whole[i] == tail[i - 7]);
            }
        }
    }
}

/// Turns the configured credential into the value of the request's
/// `authorization` header: the word `Bearer`, a space, and the key.
///
/// Fails with `AuthenticationMissing` when no key is configured, and when
/// the key holds a control character other than the tab, which a header
/// value cannot carry. Every other key is accepted, and the header then
/// holds the UTF-8 bytes of the scheme followed by the key.
pub fn authorization_header(api_key: Option<&str>) -> (header: Result<HeaderValue, GatewayError>)
    ensures
        match api_key {
            Some(key) => header is Ok <==> header_text_allowed(key@),
            None => header is Err,
        },
        header matches Ok(value) ==> api_key matches Some(key) && header_value_bytes(value)
            == encode_utf8(bearer_text(key@)),
        header matches Err(error) ==> error == GatewayError::AuthenticationMissing,
{
    match api_key {
        None => Err(GatewayError::AuthenticationMissing),
        Some(key) => {
            let text = String::from_str("Bearer ").concat(key);
            proof {
                assert(text@ == bearer_text(key@));
                lemma_bearer_text_allowed(key@);
                lemma_header_text_by_characters(key@);
            }
            match HeaderValue::from_str(text.as_str()) {
                Ok(value) => Ok(value),
                Err(_) => Err(GatewayError::AuthenticationMissing),
            }
        },
    }
}

/// The status with which the service turns down a credential.
pub const STATUS_UNAUTHORIZED: u16 = 401;

/// The failure that the status of a reply stands for by itself, whatever
/// the reply's body holds: a credential that the service turned down is a
/// failure of authentication. Every other reply is judged by its body.
pub open spec fn status_failure_of(status: u16) -> Option<GatewayError> {
    if status == STATUS_UNAUTHORIZED {
        Some(GatewayError::AuthenticationMissing)
    } else {
        None
    }
}

/// Reads the status of a reply before its body is looked at.
pub fn status_failure(status: u16) -> (failure: Option<GatewayError>)
    ensures
        failure == status_failure_of(status),
{
    if status == STATUS_UNAUTHORIZED {
        Some(GatewayError::AuthenticationMissing)
    } else {
        None
    }
}

/// Picks the completion that a reply stands for: the first of its choices.
///
/// A reply without any choice is malformed.
pub fn primary_completion(choices: &Vec<String>) -> (completion: Result<String, GatewayError>)
    ensures
        match completion {
            Ok(text) => choices@.len() > 0 && text == choices@[0],
            Err(error) => choices@.len() == 0 && error == GatewayError::MalformedResponse,
        },
{
    if choices.len() == 0 {
        Err(GatewayError::MalformedResponse)
    } else {
        Ok(choices[0].clone())
    }
}

/// What an agent does with the reply to one completion request.
#[derive(Debug, PartialEq, Eq)]
pub enum ReplyVerdict {
    /// The request succeeded; this is the completion.
    Accept(String),
    /// The request failed and may be sent again.
    Retry,
    /// The request failed for the last time; the invocation fails with this.
    GiveUp(ExecutionError),
}

/// The verdict on the `attempt`-th reply (counted from 1) of a request that
/// may be sent `max_attempts` times.
pub open spec fn reply_verdict(
    reply: Result<String, GatewayError>,
    attempt: nat,
    max_attempts: nat,
) -> ReplyVerdict {
    match reply {
        Ok(text) => ReplyVerdict::Accept(text),
        Err(error) => if attempt < max_attempts {
            ReplyVerdict::Retry
        } else {
            ReplyVerdict::GiveUp(ExecutionError::Gateway(error))
        },
    }
}

/// Decides what follows a reply of the completion service. The service never
/// retries on its own: a failed request is repeated only while fewer than
/// `max_attempts` have been made, and the last failure becomes the
/// invocation's error.
pub fn judge_reply(reply: Result<String, GatewayError>, attempt: usize, max_attempts: usize) -> (verdict:
    ReplyVerdict)
    ensures
        verdict == reply_verdict(reply, attempt as nat, max_attempts as nat),
{
    match reply {
        Ok(text) => ReplyVerdict::Accept(text),
        Err(error) => if attempt < max_attempts {
            ReplyVerdict::Retry
        } else {
            ReplyVerdict::GiveUp(ExecutionError::Gateway(error))
        },
    }
}

} // verus!
