//! The connection handshake: one setup exchange before the engine exists.
//!
//! The client writes a fixed-format setup request and reads the server's
//! reply incrementally until the parser reports completion. The driver owns
//! the transport and performs the reads; this module owns the decisions:
//! what a would-block, a closed stream or arrived bytes mean, when the reply
//! is complete, and whether the requested screen index is valid.

use vstd::prelude::*;

use crate::connection::RustConnection;
use crate::errors::ConnectError;
use crate::setup::Setup;

verus! {

#[verifier::external_type_specification]
#[verifier::external_body]
pub struct ExConnect(x11rb_protocol::connect::Connect);

/// What one non-blocking read from the transport produced.
#[derive(Debug, Clone, PartialEq, Eq)]
pub enum ReadOutcome {
    /// The transport would block; wait for readability and try again.
    WouldBlock,
    /// A successful zero-length read: the peer shut the stream down.
    Closed,
    /// These bytes arrived.
    Data(Vec<u8>),
}

/// Begin the handshake with this authorization name and data.
///
/// Relies on `x11rb_protocol::connect::Connect::with_authorization`: it
/// returns the reply parser and the serialized setup request, which starts
/// with the protocol's fixed twelve-byte header. The request carries the
/// authorization name and data lengths in 16-bit fields and the serializer
/// panics beyond them, so longer values are excluded here.
#[verifier::external_body]
fn connect_new(auth_name: Vec<u8>, auth_data: Vec<u8>) -> (r: (
    x11rb_protocol::connect::Connect,
    Vec<u8>,
))
    requires
        auth_name@.len() <= 0xffff,
        auth_data@.len() <= 0xffff,
    ensures
        r.1@.len() >= 12,
{
    x11rb_protocol::connect::Connect::with_authorization(auth_name, auth_data)
}

/// How many more reply bytes the parser wants right now.
///
/// Relies on `x11rb_protocol::connect::Connect::buffer`: the returned slice
/// is the unfilled tail of the parser's buffer.
#[verifier::external_body]
fn connect_wanted(c: &mut x11rb_protocol::connect::Connect) -> (r: usize) {
    c.buffer().len()
}

/// Feed arrived bytes to the parser; returns how many it took and whether
/// the setup reply is now complete.
///
/// Relies on `x11rb_protocol::connect::Connect::buffer` and
/// `x11rb_protocol::connect::Connect::advance`: `buffer` is the unfilled
/// tail to copy into, and `advance(n)` records the `n` filled bytes and
/// answers whether the reply is complete.
#[verifier::external_body]
fn connect_feed(c: &mut x11rb_protocol::connect::Connect, data: &Vec<u8>) -> (r: (usize, bool))
    ensures
        r.0 <= data@.len(),
{
    let buf = c.buffer();
    let n = core::cmp::min(data.len(), buf.len());
    buf[..n].copy_from_slice(&data[..n]);
    (n, c.advance(n))
}

/// Resolve the completed handshake into the engine's setup record.
///
/// Relies on `x11rb_protocol::connect::Connect::into_setup` and the fields
/// of the parsed setup reply: the resource-id base and mask, the maximum
/// request length in words, and the list of advertised screens, of which
/// only the count is kept.
#[verifier::external_body]
fn connect_into_setup(c: x11rb_protocol::connect::Connect) -> (r: Result<Setup, ConnectError>)
    ensures
        match r {
            Ok(_) => true,
            Err(e) => e == ConnectError::SetupFailed || e == ConnectError::SetupAuthenticate || e
                == ConnectError::SetupParse,
        },
{
    match c.into_setup() {
        Ok(s) => Ok(
            Setup {
                resource_id_base: s.resource_id_base,
                resource_id_mask: s.resource_id_mask,
                maximum_request_length: s.maximum_request_length,
                roots_len: s.roots.len(),
            },
        ),
        Err(x11rb_protocol::errors::ConnectError::SetupFailed(_)) => Err(ConnectError::SetupFailed),
        Err(x11rb_protocol::errors::ConnectError::SetupAuthenticate(_)) => Err(
            ConnectError::SetupAuthenticate,
        ),
        Err(_) => Err(ConnectError::SetupParse),
    }
}

/// The incremental handshake: the reply parser plus the completion flag.
pub struct Handshake {
    parser: x11rb_protocol::connect::Connect,
    complete: bool,
}

impl Handshake {
    /// Whether the server's whole setup reply has arrived.
    pub closed spec fn complete_spec(&self) -> bool {
        self.complete
    }

    /// Begin the handshake: returns the parser state and the setup request
    /// bytes the driver must write to the transport, whole, before reading.
    /// The authorization name and data must each fit the request's 16-bit
    /// length fields.
    pub fn new(auth_name: Vec<u8>, auth_data: Vec<u8>) -> (r: (Handshake, Vec<u8>))
        requires
            auth_name@.len() <= 0xffff,
            auth_data@.len() <= 0xffff,
        ensures
            !r.0.complete_spec(),
            r.1@.len() >= 12,
    {
        let (parser, request) = connect_new(auth_name, auth_data);
        (Handshake { parser, complete: false }, request)
    }

    /// Whether the server's whole setup reply has arrived.
    pub fn is_complete(&self) -> (r: bool)
        ensures
            r == self.complete_spec(),
    {
        self.complete
    }

    /// How many more reply bytes to read from the transport, at most.
    pub fn wanted(&mut self) -> usize {
        connect_wanted(&mut self.parser)
    }

    /// Handle the outcome of one non-blocking transport read. A closed
    /// stream before completion is an unexpected end of stream; a
    /// would-block leaves the parser as it is (the driver then waits for
    /// readability); arrived bytes are fed to the parser. The answer tells
    /// whether the setup reply is now complete.
    pub fn handle_read(&mut self, outcome: ReadOutcome) -> (r: Result<bool, ConnectError>)
        ensures
            match r {
                Ok(done) => !(outcome is Closed) && done == final(self).complete_spec(),
                Err(e) => outcome is Closed && e == ConnectError::UnexpectedEndOfStream
                    && final(self).complete_spec() == old(self).complete_spec(),
            },
            outcome is WouldBlock ==> final(self).complete_spec() == old(self).complete_spec(),
    {
        match outcome {
            ReadOutcome::Closed => Err(ConnectError::UnexpectedEndOfStream),
            ReadOutcome::WouldBlock => Ok(self.complete),
            ReadOutcome::Data(data) => {
                if self.complete {
                    return Ok(true);
                }
                let mut rest = data;
                loop
                    invariant
                        !(outcome is Closed),
                    decreases rest@.len(),
                {
                    if rest.len() == 0 {
                        break ;
                    }
                    let (taken, done) = connect_feed(&mut self.parser, &rest);
                    if done {
                        self.complete = true;
                        break ;
                    }
                    if taken == 0 {
                        // The parser wants nothing more right now.
                        break ;
                    }
                    rest = rest.split_off(taken);
                }
                Ok(self.complete)
            },
        }
    }

    /// Finish the handshake: resolve the setup reply, validate the requested
    /// screen index against the advertised roots, and build the engine. The
    /// errors are the parse outcomes of the setup reply and the two
    /// validation failures of `validate_and_connect`, which states exactly
    /// when each of those two occurs.
    pub fn finish(self, screen: usize) -> (r: Result<RustConnection, ConnectError>)
        ensures
            match r {
                Ok(c) => {
                    &&& crate::connection::freshly_connected(c)
                    &&& screen < c.setup_spec().roots_len
                    &&& c.setup_spec().resource_id_mask != 0
                },
                Err(e) => e == ConnectError::SetupFailed || e == ConnectError::SetupAuthenticate
                    || e == ConnectError::SetupParse || e == ConnectError::InvalidScreen || e
                    == ConnectError::ZeroIdMask,
            },
    {
        let Handshake { parser, complete: _ } = self;
        let setup = match connect_into_setup(parser) {
            Ok(s) => s,
            Err(e) => {
                return Err(e);
            },
        };
        validate_and_connect(setup, screen)
    }
}

/// Validate the requested screen index against a parsed setup record and
/// build the engine. The screen index is rejected exactly when it is not
/// below the advertised root count; a valid screen with a zero resource-id
/// mask is rejected exactly as the allocator demands; everything else
/// connects.
pub fn validate_and_connect(setup: Setup, screen: usize) -> (r: Result<
    RustConnection,
    ConnectError,
>)
    ensures
        screen >= setup.roots_len <==> r == Err::<RustConnection, ConnectError>(
            ConnectError::InvalidScreen,
        ),
        (screen < setup.roots_len && setup.resource_id_mask == 0) <==> r == Err::<
            RustConnection,
            ConnectError,
        >(ConnectError::ZeroIdMask),
        match r {
            Ok(c) => {
                &&& screen < setup.roots_len
                &&& setup.resource_id_mask != 0
                &&& c.setup_spec() == setup
                &&& crate::connection::freshly_connected(c)
            },
            Err(e) => e == ConnectError::InvalidScreen || e == ConnectError::ZeroIdMask,
        },
{
    // Make sure the requested screen exists before any request can be
    // dispatched.
    if setup.roots_len <= screen {
        return Err(ConnectError::InvalidScreen);
    }
    RustConnection::for_connected_stream(setup)
}

} // verus!
