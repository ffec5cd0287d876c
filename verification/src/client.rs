//! What a client makes of the daemon's answer.

use crate::message::Response;
use vstd::prelude::*;

verus! {

/// Why a client's request did not go through.
#[derive(Debug, PartialEq, Eq)]
pub enum ClientError {
    /// The daemon answered with an error; this is its message.
    Daemon { message: String },
    /// The daemon's answer does not fit the request.
    UnexpectedResponse,
}

/// The outcome of a copy: only `Stored` is success.
pub fn copy_outcome(response: Response) -> (r: Result<(), ClientError>)
    ensures
        match response {
            Response::Stored => r is Ok,
            Response::Error { message } => r == Err::<(), ClientError>(
                ClientError::Daemon { message },
            ),
            Response::Payload { .. } => r == Err::<(), ClientError>(
                ClientError::UnexpectedResponse,
            ),
        },
{
    match response {
        Response::Stored => Ok(()),
        Response::Error { message } => Err(ClientError::Daemon { message }),
        Response::Payload { .. } => Err(ClientError::UnexpectedResponse),
    }
}

/// The outcome of a paste: only `Payload` is success, and its data is what
/// the client writes out, byte for byte.
pub fn paste_outcome(response: Response) -> (r: Result<Vec<u8>, ClientError>)
    ensures
        match response {
            Response::Payload { data } => r == Ok::<Vec<u8>, ClientError>(data),
            Response::Error { message } => r == Err::<Vec<u8>, ClientError>(
                ClientError::Daemon { message },
            ),
            Response::Stored => r == Err::<Vec<u8>, ClientError>(ClientError::UnexpectedResponse),
        },
{
    match response {
        Response::Payload { data } => Ok(data),
        Response::Error { message } => Err(ClientError::Daemon { message }),
        Response::Stored => Err(ClientError::UnexpectedResponse),
    }
}

} // verus!
