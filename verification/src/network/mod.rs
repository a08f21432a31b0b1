//! The two ends of a connection: the server answers each request it reads,
//! the client pairs each request it sends with the next response.
//!
//! Reading and writing frames is I/O; these types hold the framed transport
//! and make every decision about what was read and what to write next.
use vstd::prelude::*;

use crate::error::KvError;
use crate::pb::{CommandRequest, CommandResponse};
use crate::service::{serves, Service};
use crate::storage::Storage;

verus! {

/// The server end of a connection over the framed transport `S`.
pub struct ProstServerStream<S> {
    inner: S,
    service: Service,
}

/// The client end of a connection over the framed transport `S`.
pub struct ProstClientStream<S> {
    inner: S,
}

/// What the server does after a read from the transport.
pub enum ServerStep {
    /// Write this response and read again.
    Respond(CommandResponse),
    /// The connection is over: stop reading.
    Stop,
}

/// What the server does after writing a response.
pub enum AfterWrite {
    /// The response went out: read the next request.
    ReadNext,
    /// The write failed: the connection ends with this error.
    Fail(KvError),
}

/// The outcome of a read: the request read, the transport's error, or
/// `FrameError` when the transport has ended.
pub open spec fn received_spec(
    next: Option<Result<CommandRequest, KvError>>,
) -> Result<CommandRequest, KvError> {
    match next {
        Some(Ok(req)) => Ok(req),
        Some(Err(e)) => Err(e),
        None => Err(KvError::FrameError),
    }
}

impl<S> ProstServerStream<S> {
    /// The transport this end reads from and writes to.
    pub closed spec fn transport_spec(&self) -> S {
        self.inner
    }

    /// The service that answers requests.
    pub closed spec fn service_spec(&self) -> Service {
        self.service
    }

    /// The server end over `stream`, answering with `service`.
    pub fn new(stream: S, service: Service) -> (r: Self)
        ensures
            r.transport_spec() == stream,
            r.service_spec() == service,
    {
        Self { inner: stream, service: service }
    }

    /// The transport, for reading and writing frames.
    pub fn transport(&mut self) -> (r: &mut S)
        ensures
            *r == old(self).transport_spec(),
            final(self).transport_spec() == *final(r),
            final(self).service_spec() == old(self).service_spec(),
    {
        &mut self.inner
    }

    /// The outcome of a read from the transport.
    pub fn received(next: Option<Result<CommandRequest, KvError>>) -> (r: Result<
        CommandRequest,
        KvError,
    >)
        ensures
            r == received_spec(next),
    {
        match next {
            Some(Ok(req)) => Ok(req),
            Some(Err(e)) => Err(e),
            None => Err(KvError::FrameError),
        }
    }

    /// Decides what follows a write: reading on after a response went out,
    /// or ending the connection with the transport's error.
    pub fn on_write(sent: Result<(), KvError>) -> (r: AfterWrite)
        ensures
            match sent {
                Ok(()) => r is ReadNext,
                Err(e) => r matches AfterWrite::Fail(x) && x == e,
            },
    {
        match sent {
            Ok(()) => AfterWrite::ReadNext,
            Err(e) => AfterWrite::Fail(e),
        }
    }

    /// Decides what follows a read: a request read is served and its response
    /// is to be written; anything else ends the connection.
    pub fn on_read(&mut self, next: Option<Result<CommandRequest, KvError>>) -> (r: ServerStep)
        requires
            old(self).service_spec().store().well_formed(),
        ensures
            final(self).transport_spec() == old(self).transport_spec(),
            final(self).service_spec().store().well_formed(),
            match received_spec(next) {
                Ok(cmd) => (r matches ServerStep::Respond(res) && serves(
                    cmd,
                    old(self).service_spec().store().contents(),
                    final(self).service_spec().store().contents(),
                    res@,
                )),
                Err(_) => r is Stop && final(self).service_spec() == old(self).service_spec(),
            },
    {
        match Self::received(next) {
            Ok(cmd) => ServerStep::Respond(self.service.execute(cmd)),
            Err(_) => ServerStep::Stop,
        }
    }
}

impl<S> ProstClientStream<S> {
    /// The transport this end reads from and writes to.
    pub closed spec fn transport_spec(&self) -> S {
        self.inner
    }

    /// The client end over `stream`.
    pub fn new(stream: S) -> (r: Self)
        ensures
            r.transport_spec() == stream,
    {
        Self { inner: stream }
    }

    /// The transport, for reading and writing frames.
    pub fn transport(&mut self) -> (r: &mut S)
        ensures
            *r == old(self).transport_spec(),
            final(self).transport_spec() == *final(r),
    {
        &mut self.inner
    }

    /// The outcome of reading the response to a request just sent.
    pub fn response(next: Option<Result<CommandResponse, KvError>>) -> (r: Result<
        CommandResponse,
        KvError,
    >)
        ensures
            next matches Some(v) ==> r == v,
            next is None ==> (r matches Err(KvError::Internal(m)) && m@
                == "Didnot get any response"@),
    {
        match next {
            Some(v) => v,
            None => Err(KvError::Internal(String::from_str("Didnot get any response"))),
        }
    }
}

} // verus!
