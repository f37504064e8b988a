//! What a connection makes of each attempt to read a message off its transport.

use vstd::prelude::*;
use crate::message::{Message, ParseError};

verus! {

/// Why a connection can deliver no more messages.
#[derive(Debug, Clone, Copy, PartialEq, Eq, Structural)]
pub enum ConnectionError {
    /// The peer closed the stream.
    ResetConnection,
    /// The peer sent bytes that are not a frame.
    InvalidEncoding,
    /// The transport failed.
    BadIO,
}

/// Classifies what the framed transport yielded for one read: a message, the
/// end of the stream, or a failure. A partial frame is never among them: the
/// decoder reports it as "no message yet", and the transport reads on.
pub fn read_outcome(next: Option<Result<Message, ParseError>>) -> (r: Result<
    Message,
    ConnectionError,
>)
    requires
        !(next matches Some(Err(e)) && e == ParseError::Incomplete),
    ensures
        match next {
            None => r == Err::<Message, ConnectionError>(ConnectionError::ResetConnection),
            Some(Ok(m)) => r == Ok::<Message, ConnectionError>(m),
            Some(Err(e)) => e == ParseError::InvalidEncoding && r == Err::<
                Message,
                ConnectionError,
            >(ConnectionError::InvalidEncoding) || e == ParseError::BadIO && r == Err::<
                Message,
                ConnectionError,
            >(ConnectionError::BadIO),
        },
{
    match next {
        None => Err(ConnectionError::ResetConnection),
        Some(Ok(m)) => Ok(m),
        Some(Err(ParseError::InvalidEncoding)) => Err(ConnectionError::InvalidEncoding),
        Some(Err(_)) => Err(ConnectionError::BadIO),
    }
}

} // verus!
