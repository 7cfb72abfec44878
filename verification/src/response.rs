//! Uniform result envelope handed back to the caller of each front-door
//! operation, and the settling of a reply channel's outcome into it.

use vstd::prelude::*;

verus! {

/// Text of the distinct failure a caller sees when no reply arrives:
/// the actor has shut down, or the reply sender was dropped unsent.
pub open spec fn no_response_text() -> Seq<char> {
    "Failed to receive response"@
}

/// The `{data, error}` pair surfaced to the host UI for every operation,
/// whether the failure came from the store or from the actor's absence.
/// Exactly one of the two fields is present.
pub struct CommandResponse<T> {
    pub data: Option<T>,
    pub error: Option<String>,
}

impl<T> CommandResponse<T> {
    /// Exactly one of `data` and `error` is present.
    pub open spec fn well_formed(&self) -> bool {
        self.data is Some <==> self.error is None
    }

    pub fn success(data: T) -> (r: Self)
        ensures
            r.data == Some(data),
            r.error is None,
            r.well_formed(),
    {
        Self { data: Some(data), error: None }
    }

    pub fn error(err: String) -> (r: Self)
        ensures
            r.data is None,
            r.error == Some(err),
            r.well_formed(),
    {
        Self { data: None, error: Some(err) }
    }

    /// The response for an envelope whose reply never arrived.
    pub fn no_response() -> (r: Self)
        ensures
            r.data is None,
            (r.error matches Some(m) && m@ == no_response_text()),
            r.well_formed(),
    {
        Self { data: None, error: Some(String::from_str("Failed to receive response")) }
    }
}

/// Settles what a front-door call received on its private reply channel.
/// A present reply is forwarded verbatim, success or store error alike;
/// an absent reply (actor gone, or sender dropped unsent) becomes the
/// distinct no-response failure, never a store error and never a hang.
pub fn settle_reply<T>(reply: Option<Result<T, String>>) -> (r: CommandResponse<T>)
    ensures
        r.well_formed(),
        (match reply {
            Some(Ok(v)) => r.data == Some(v) && r.error is None,
            Some(Err(e)) => r.data is None && r.error == Some(e),
            None => r.data is None && (r.error matches Some(m) && m@ == no_response_text()),
        }),
{
    match reply {
        Some(Ok(v)) => CommandResponse::success(v),
        Some(Err(e)) => CommandResponse::error(e),
        None => CommandResponse::no_response(),
    }
}

} // verus!
