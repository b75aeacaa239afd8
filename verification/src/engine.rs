//! What the backend client computes before and after it talks to the
//! generation backend: the address to connect to, the requests to send, and
//! what to make of the replies.

use crate::text::{string_views, trim, trimmed};
use crate::tool_call::{decode, decoded, ToolCall, ToolCallError, ToolCallView};
use base64::prelude::{Engine, BASE64_STANDARD};
use vstd::prelude::*;
use vstd::string::StringExecFns;

verus! {

/// The port of the generation backend when the address names none.
pub const DEFAULT_PORT: u16 = 11434;

/// Where the generation backend listens.
#[derive(Debug, Clone, PartialEq, Eq)]
pub struct Endpoint {
    /// Scheme and host, as in `http://localhost`.
    pub host: String,
    pub port: u16,
}

/// The host part of an endpoint: the scheme, `://`, and the host, which is
/// `localhost` when the address names none.
pub open spec fn host_of(scheme: Seq<char>, host: Option<Seq<char>>) -> Seq<char> {
    scheme + "://"@ + match host {
        Some(h) => h,
        None => "localhost"@,
    }
}

/// The endpoint for the parts of a server address.
///
/// A missing host is `localhost`, a missing port is [`DEFAULT_PORT`].
pub fn endpoint(scheme: &str, host: Option<&str>, port: Option<u16>) -> (e: Endpoint)
    ensures
        e.host@ == host_of(
            scheme@,
            match host {
                Some(h) => Some(h@),
                None => None,
            },
        ),
        e.port == match port {
            Some(p) => p,
            None => DEFAULT_PORT,
        },
{
    let mut address = scheme.to_owned();
    address.append("://");
    match host {
        Some(h) => address.append(h),
        None => address.append("localhost"),
    }
    let port = match port {
        Some(p) => p,
        None => DEFAULT_PORT,
    };
    Endpoint { host: address, port }
}

/// Why a classification reply gave no invocation.
#[derive(Debug, Clone, Copy, PartialEq, Eq)]
pub enum ReplyError {
    /// The backend answered without a message.
    NoMessage,
    /// The message was not a well-formed tool call.
    ToolCall(ToolCallError),
}

/// What [`interpret_reply`] makes of a reply.
pub open spec fn interpreted(message: Option<Seq<char>>) -> Option<ToolCallView> {
    match message {
        Some(text) => decoded(text),
        None => None,
    }
}

/// Reads the invocation out of the classification backend's reply.
///
/// Fails with `NoMessage` exactly when there is no message, and with
/// `ToolCall(Malformed)` exactly when there is one and it does not decode.
pub fn interpret_reply(message: Option<&str>) -> (r: Result<ToolCall, ReplyError>)
    ensures
        match r {
            Ok(call) => message matches Some(text) && decoded(text@) == Some(call@),
            Err(ReplyError::NoMessage) => message is None,
            Err(ReplyError::ToolCall(e)) => message matches Some(text) && decoded(text@) is None
                && e == ToolCallError::Malformed,
        },
{
    match message {
        None => Err(ReplyError::NoMessage),
        Some(text) => match decode(text) {
            Ok(call) => Ok(call),
            Err(e) => Err(ReplyError::ToolCall(e)),
        },
    }
}

/// The text that goes to the conversational backend for an argument value:
/// the value without the white space around it.
pub fn conversation_input(input: &str) -> (r: String)
    ensures
        r@ == trimmed(input@),
{
    trim(input)
}

/// The standard base64 encoding, with padding, of `bytes`.
pub uninterp spec fn base64_standard(bytes: Seq<u8>) -> Seq<char>;

/// Whether `n` bytes can be encoded: the encoded length fits the machine.
pub open spec fn encodable(n: nat) -> bool {
    (n / 3 + 1) * 4 <= usize::MAX
}

/// `Engine::encode` of the base64 crate on its `STANDARD` engine. The result
/// is a function of the bytes alone, named [`base64_standard`]. The crate
/// panics where the encoded length overflows, which `requires` leaves out.
#[verifier::external_body]
fn encode_base64(bytes: &[u8]) -> (r: String)
    requires
        encodable(bytes@.len()),
    ensures
        r@ == base64_standard(bytes@),
{
    BASE64_STANDARD.encode(bytes)
}

/// The instruction that goes with every image.
pub open spec fn image_prompt() -> Seq<char> {
    "Please analyze this image"@
}

/// A request to the image model.
#[derive(Debug, Clone, PartialEq, Eq)]
pub struct ImageRequest {
    pub model: String,
    pub prompt: String,
    /// The image, base64-encoded.
    pub image: String,
}

impl ImageRequest {
    /// The request for an image that is already encoded.
    pub fn new(model: &str, image: String) -> (r: ImageRequest)
        ensures
            r.model@ == model@,
            r.prompt@ == image_prompt(),
            r.image == image,
    {
        ImageRequest {
            model: model.to_owned(),
            prompt: "Please analyze this image".to_owned(),
            image,
        }
    }

    /// The request for an image given as the bytes of its PNG file.
    ///
    /// Returns `None` exactly when the image is too long to encode.
    pub fn encode(model: &str, png: &[u8]) -> (r: Option<ImageRequest>)
        ensures
            match r {
                Some(request) => {
                    &&& encodable(png@.len())
                    &&& request.model@ == model@
                    &&& request.prompt@ == image_prompt()
                    &&& request.image@ == base64_standard(png@)
                },
                None => !encodable(png@.len()),
            },
    {
        if png.len() / 3 > (usize::MAX - 4) / 4 {
            return None;
        }
        Some(ImageRequest::new(model, encode_base64(png)))
    }
}

/// The texts of `fragments` put together, in order.
pub open spec fn concatenated(fragments: Seq<Seq<char>>) -> Seq<char>
    decreases fragments.len(),
{
    if fragments.len() == 0 {
        Seq::empty()
    } else {
        concatenated(fragments.drop_last()) + fragments.last()
    }
}

/// Puts the fragments of a streamed reply together.
pub fn collect_reply(fragments: &Vec<String>) -> (r: String)
    ensures
        r@ == concatenated(string_views(fragments@)),
{
    let mut out = String::new();
    let mut i: usize = 0;
    let ghost all = string_views(fragments@);
    while i < fragments.len()
        invariant
            i <= fragments.len(),
            all == string_views(fragments@),
            out@ == concatenated(all.take(i as int)),
        decreases fragments.len() - i,
    {
        proof {
            assert(all.take(i + 1).drop_last() =~= all.take(i as int));
            assert(all.take(i + 1).last() == fragments@[i as int]@);
        }
        out.append(fragments[i].as_str());
        i += 1;
    }
    proof {
        assert(all.take(fragments.len() as int) =~= all);
    }
    out
}

} // verus!
