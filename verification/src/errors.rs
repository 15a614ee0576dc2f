//! The error taxonomy of the provider layer.

use vstd::prelude::*;

verus! {

/// Why a chat call failed. Transient classes (transport failures and
/// rate-limit API errors) may be retried by the retry policy; every other
/// class propagates to the caller at once.
#[derive(Clone, Debug)]
pub enum ChatError {
    /// No usable credential at construction or call time.
    Auth,
    /// Connection-level failure.
    Transport,
    /// The vendor rejected the request with a non-2xx status.
    Api { status: u16, body: String },
    /// A 2xx response without extractable text.
    MalformedResponse,
    /// Stream framing violated: an unparseable JSON fragment.
    Decode,
    /// Streaming requested from a variant that cannot provide it yet.
    Unsupported,
}

impl ChatError {
    /// A short, stable label for the error class.
    pub fn label(&self) -> (r: &'static str)
        ensures
            self is Auth ==> r@ == "auth error"@,
            self is Transport ==> r@ == "transport error"@,
            self is Api ==> r@ == "api error"@,
            self is MalformedResponse ==> r@ == "malformed response"@,
            self is Decode ==> r@ == "decode error"@,
            self is Unsupported ==> r@ == "streaming not supported by this provider yet"@,
    {
        match self {
            ChatError::Auth => "auth error",
            ChatError::Transport => "transport error",
            ChatError::Api { .. } => "api error",
            ChatError::MalformedResponse => "malformed response",
            ChatError::Decode => "decode error",
            ChatError::Unsupported => "streaming not supported by this provider yet",
        }
    }
}

/// The error answered when a caller asks a variant to stream before the
/// variant supports it.
pub fn streaming_not_supported() -> (r: ChatError)
    ensures
        r is Unsupported,
{
    ChatError::Unsupported
}

} // verus!
