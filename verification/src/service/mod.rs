//! The service that carries out requests against a store.
use vstd::prelude::*;

use crate::error::KvError;
use crate::pb::{
    CommandRequest, CommandResponse, RequestData, ResponseView, STATUS_BAD_REQUEST,
    STATUS_INTERNAL_ERROR,
};
use crate::storage::memory::MemTable;
use crate::storage::{Contents, Storage};

pub mod command_service;
pub mod laws;
pub mod topic;

use command_service::CommandService;

verus! {

/// The message that answers a request without a command.
pub open spec fn no_data_message() -> Seq<char> {
    "Cannot parse command: "@ + "Request has no data"@
}

/// The message that answers a topic command sent to a store.
pub open spec fn not_implemented_message() -> Seq<char> {
    "Internal error: "@ + "Not implemented"@
}

/// `cmd` only reads the store.
pub open spec fn reads_only(cmd: CommandRequest) -> bool {
    match cmd.request_data {
        Some(RequestData::Hget(c)) => c.reads_only(),
        Some(RequestData::Hgetall(c)) => c.reads_only(),
        Some(RequestData::Hmget(c)) => c.reads_only(),
        Some(RequestData::Hset(c)) => c.reads_only(),
        Some(RequestData::Hmset(c)) => c.reads_only(),
        _ => true,
    }
}

/// `cmd` is answered without calling the store: a request without a
/// command, a write without a pair, or a topic command.
pub open spec fn answered_alone(cmd: CommandRequest) -> bool {
    match cmd.request_data {
        Some(RequestData::Hget(c)) => c.answered_alone(),
        Some(RequestData::Hgetall(c)) => c.answered_alone(),
        Some(RequestData::Hmget(c)) => c.answered_alone(),
        Some(RequestData::Hset(c)) => c.answered_alone(),
        Some(RequestData::Hmset(c)) => c.answered_alone(),
        _ => true,
    }
}

/// Serving `cmd` on a store holding `before` may leave it holding `after`
/// and answer `r`.
pub open spec fn serves(cmd: CommandRequest, before: Contents, after: Contents, r: ResponseView) -> bool {
    match cmd.request_data {
        Some(RequestData::Hget(c)) => c.serves(before, after, r),
        Some(RequestData::Hgetall(c)) => c.serves(before, after, r),
        Some(RequestData::Hmget(c)) => c.serves(before, after, r),
        Some(RequestData::Hset(c)) => c.serves(before, after, r),
        Some(RequestData::Hmset(c)) => c.serves(before, after, r),
        Some(RequestData::Subscribe(_)) | Some(RequestData::Unsubscribe(_)) | Some(
            RequestData::Publish(_),
        ) => {
            &&& after == before
            &&& r == (ResponseView {
                status: STATUS_INTERNAL_ERROR,
                message: not_implemented_message(),
                values: Seq::empty(),
                pairs: Seq::empty(),
            })
        },
        None => {
            &&& after == before
            &&& r == (ResponseView {
                status: STATUS_BAD_REQUEST,
                message: no_data_message(),
                values: Seq::empty(),
                pairs: Seq::empty(),
            })
        },
    }
}

/// Serving `cmd` on a store holding `before` may fail with the store's error
/// answered as `r`, leaving the store holding `after`. Commands answered
/// without the store never fail.
pub open spec fn fails(cmd: CommandRequest, before: Contents, after: Contents, r: ResponseView) -> bool {
    match cmd.request_data {
        Some(RequestData::Hget(c)) => c.fails(before, after, r),
        Some(RequestData::Hgetall(c)) => c.fails(before, after, r),
        Some(RequestData::Hmget(c)) => c.fails(before, after, r),
        Some(RequestData::Hset(c)) => c.fails(before, after, r),
        Some(RequestData::Hmset(c)) => c.fails(before, after, r),
        _ => false,
    }
}

/// Carries out `cmd` against `store` and answers it.
pub fn dispatch<S: Storage>(cmd: CommandRequest, store: &mut S) -> (r: CommandResponse)
    requires
        old(store).well_formed(),
    ensures
        final(store).well_formed(),
        final(store).infallible() == old(store).infallible(),
        serves(cmd, old(store).contents(), final(store).contents(), r@) || fails(
            cmd,
            old(store).contents(),
            final(store).contents(),
            r@,
        ),
        old(store).infallible() ==> serves(cmd, old(store).contents(), final(store).contents(), r@),
        reads_only(cmd) ==> final(store).contents() == old(store).contents(),
        answered_alone(cmd) ==> serves(cmd, old(store).contents(), final(store).contents(), r@),
{
    match cmd.request_data {
        Some(RequestData::Hget(param)) => param.execute(store),
        Some(RequestData::Hgetall(param)) => param.execute(store),
        Some(RequestData::Hmget(param)) => param.execute(store),
        Some(RequestData::Hset(param)) => param.execute(store),
        Some(RequestData::Hmset(param)) => param.execute(store),
        Some(RequestData::Subscribe(_)) | Some(RequestData::Unsubscribe(_)) | Some(
            RequestData::Publish(_),
        ) => KvError::Internal(String::from_str("Not implemented")).into_response(),
        None => {
            let r = KvError::InvalidCommand(String::from_str("Request has no data")).into_response();
            r
        },
    }
}

/// A store together with the service that answers requests on it.
pub struct Service<Store = MemTable> {
    store: Store,
}

impl<Store: Storage> Service<Store> {
    /// The store this service answers from.
    pub closed spec fn store(&self) -> Store {
        self.store
    }

    /// The service that answers requests on `store`.
    pub fn new(store: Store) -> (r: Self)
        ensures
            r.store() == store,
    {
        Service { store }
    }

    /// Carries out `cmd` on this service's store and answers it.
    pub fn execute(&mut self, cmd: CommandRequest) -> (r: CommandResponse)
        requires
            old(self).store().well_formed(),
        ensures
            final(self).store().well_formed(),
            final(self).store().infallible() == old(self).store().infallible(),
            serves(
                cmd,
                old(self).store().contents(),
                final(self).store().contents(),
                r@,
            ) || fails(
                cmd,
                old(self).store().contents(),
                final(self).store().contents(),
                r@,
            ),
            old(self).store().infallible() ==> serves(
                cmd,
                old(self).store().contents(),
                final(self).store().contents(),
                r@,
            ),
            reads_only(cmd) ==> final(self).store().contents() == old(self).store().contents(),
            answered_alone(cmd) ==> serves(
                cmd,
                old(self).store().contents(),
                final(self).store().contents(),
                r@,
            ),
    {
        dispatch(cmd, &mut self.store)
    }
}

} // verus!
