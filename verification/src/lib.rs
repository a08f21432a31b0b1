//! A key-value server's core: the messages, the storage contract and an
//! in-memory store, the command service, the publish/subscribe broadcaster,
//! and the decisions of the client and server ends of a connection.
pub mod error;
pub mod network;
pub mod pb;
pub mod query;
pub mod service;
pub mod storage;
pub mod text;

pub use error::{KvError, MyError};
pub use network::{AfterWrite, ProstClientStream, ProstServerStream, ServerStep};
pub use pb::{
    Publish, Subscribe, Unsubscribe,
    CommandRequest, CommandResponse, Hget, Hgetall, Hmget, Hmset, Hset, Kvpair, RequestData,
    Value, ValueData,
};
pub use service::command_service::CommandService;
pub use service::topic::{Broadcaster, Delivery, Subscription, SubscriptionIds};
pub use service::{dispatch, Service};
pub use storage::memory::MemTable;
pub use storage::Storage;
