//! A pipe between a client and a server that carries one request and one
//! response at a time.
//!
//! The sockets and the buffer stay with the caller. Kept here is where the
//! exchange stands, and what follows from each read and each write.

use vstd::prelude::*;
use crate::http::request::{read_request_head, request_head, RequestHeadView};
use crate::http::response::{
    read_response_head, response_head, Parsed, ResponseHeadView, MAX_HEADERS,
};

verus! {

/// Where an exchange stands.
#[derive(Clone, Copy, Debug, PartialEq, Eq)]
pub enum ConnectionState {
    /// The request is being read from the client.
    ClientReading,
    /// The response is being written to the client.
    ClientWriting,
    /// The response is being read from the server.
    ServerReading,
    /// The request is being written to the server.
    ServerWriting,
}

/// What the bytes read so far are, as a message.
#[derive(Clone, Copy, Debug, PartialEq, Eq)]
pub enum Message {
    /// A whole message.
    Complete,
    /// The start of a message.
    Partial,
    /// No message.
    Malformed,
}

/// What a buffer is as a message, given how it reads as the head of a
/// request and as the head of a response: a whole message where the head that
/// is asked for is all there, the start of one where the head is cut off, and
/// malformed where it is no head.
pub open spec fn message_of(
    as_request: Parsed<RequestHeadView>,
    as_response: Parsed<ResponseHeadView>,
    request: bool,
) -> Message {
    if request {
        match as_request {
            Parsed::Complete(_) => Message::Complete,
            Parsed::Partial => Message::Partial,
            Parsed::Invalid => Message::Malformed,
        }
    } else {
        match as_response {
            Parsed::Complete(_) => Message::Complete,
            Parsed::Partial => Message::Partial,
            Parsed::Invalid => Message::Malformed,
        }
    }
}

/// What the bytes read so far are: as a request where `request` is set,
/// else as a response.
pub fn message(bytes: &[u8], request: bool) -> (m: Message)
    ensures
        m == message_of(
            request_head(bytes@, MAX_HEADERS),
            response_head(bytes@, MAX_HEADERS),
            request,
        ),
{
    if request {
        match read_request_head(bytes, MAX_HEADERS) {
            Parsed::Complete(_) => Message::Complete,
            Parsed::Partial => Message::Partial,
            Parsed::Invalid => Message::Malformed,
        }
    } else {
        match read_response_head(bytes, MAX_HEADERS) {
            Parsed::Complete(_) => Message::Complete,
            Parsed::Partial => Message::Partial,
            Parsed::Invalid => Message::Malformed,
        }
    }
}

/// What the caller does next.
#[derive(Clone, Copy, Debug, PartialEq, Eq)]
pub enum Action {
    /// Read from the client into the buffer, and report the read.
    ReadClient,
    /// Write the buffer to the server, and report the write.
    WriteServer,
    /// Read from the server into the buffer, and report the read.
    ReadServer,
    /// Write the buffer to the client, and report the write.
    WriteClient,
    /// The exchange is over.
    Done,
}

/// The state after a read, and whether the exchange goes on: a whole
/// message turns the pipe to the other side for writing, a malformed one
/// ends the exchange, and the start of one is read on.
pub open spec fn after_read(state: ConnectionState, message: Message) -> (ConnectionState, bool) {
    match (state, message) {
        (_, Message::Malformed) => (state, false),
        (ConnectionState::ClientReading, Message::Complete) => (
            ConnectionState::ServerWriting,
            true,
        ),
        (ConnectionState::ServerReading, Message::Complete) => (
            ConnectionState::ClientWriting,
            true,
        ),
        _ => (state, true),
    }
}

/// The state after a write that left `buffered` bytes in the buffer, and
/// whether the exchange goes on: once the request is written, the response is
/// read; once the response is written, the exchange is over and the pipe
/// waits for the next request.
pub open spec fn after_write(state: ConnectionState, buffered: usize) -> (ConnectionState, bool) {
    if buffered != 0 {
        (state, true)
    } else {
        match state {
            ConnectionState::ServerWriting => (ConnectionState::ServerReading, true),
            ConnectionState::ClientWriting => (ConnectionState::ClientReading, false),
            _ => (state, true),
        }
    }
}

/// What is to be done in `state`.
pub open spec fn action_in(state: ConnectionState) -> Action {
    match state {
        ConnectionState::ClientReading => Action::ReadClient,
        ConnectionState::ServerWriting => Action::WriteServer,
        ConnectionState::ServerReading => Action::ReadServer,
        ConnectionState::ClientWriting => Action::WriteClient,
    }
}

/// The state of a pipe.
#[must_use]
pub struct Pipe {
    state: ConnectionState,
}

impl Pipe {
    /// Where the exchange stands.
    pub closed spec fn state(&self) -> ConnectionState {
        self.state
    }

    /// A pipe that waits for a request from the client.
    pub fn new() -> (p: Pipe)
        ensures
            p.state() == ConnectionState::ClientReading,
    {
        Pipe { state: ConnectionState::ClientReading }
    }

    /// Where the exchange stands.
    pub fn connection_state(&self) -> (s: ConnectionState)
        ensures
            s == self.state(),
    {
        self.state
    }

    /// What is to be done now.
    pub fn poll(&self) -> (a: Action)
        ensures
            a == action_in(self.state()),
    {
        match self.state {
            ConnectionState::ClientReading => Action::ReadClient,
            ConnectionState::ServerWriting => Action::WriteServer,
            ConnectionState::ServerReading => Action::ReadServer,
            ConnectionState::ClientWriting => Action::WriteClient,
        }
    }

    /// Takes note of a read: `message` says what the bytes in the buffer
    /// are. Hands back what is to be done next.
    pub fn read(&mut self, message: Message) -> (a: Action)
        ensures
            final(self).state() == after_read(old(self).state(), message).0,
            a == if after_read(old(self).state(), message).1 {
                action_in(final(self).state())
            } else {
                Action::Done
            },
    {
        match message {
            Message::Malformed => {
                return Action::Done;
            },
            Message::Complete => {
                match self.state {
                    ConnectionState::ClientReading => {
                        self.state = ConnectionState::ServerWriting;
                    },
                    ConnectionState::ServerReading => {
                        self.state = ConnectionState::ClientWriting;
                    },
                    _ => {},
                }
            },
            Message::Partial => {},
        }
        self.poll()
    }

    /// Takes note of a write that left `buffered` bytes in the buffer. Hands
    /// back what is to be done next.
    pub fn wrote(&mut self, buffered: usize) -> (a: Action)
        ensures
            final(self).state() == after_write(old(self).state(), buffered).0,
            a == if after_write(old(self).state(), buffered).1 {
                action_in(final(self).state())
            } else {
                Action::Done
            },
    {
        if buffered == 0 {
            match self.state {
                ConnectionState::ServerWriting => {
                    self.state = ConnectionState::ServerReading;
                },
                ConnectionState::ClientWriting => {
                    self.state = ConnectionState::ClientReading;
                    return Action::Done;
                },
                _ => {},
            }
        }
        self.poll()
    }
}

} // verus!
