//! The errors of the store, and how each is answered to a client.
use vstd::prelude::*;

use crate::pb::{
    CommandResponse, PairView, ResponseView, Scalar, STATUS_BAD_REQUEST, STATUS_INTERNAL_ERROR,
    STATUS_NOT_FOUND,
};

verus! {

#[verifier::external_type_specification]
#[verifier::external_body]
pub struct ExIoError(std::io::Error);

#[verifier::external_type_specification]
#[verifier::external_body]
pub struct ExEncodeError(prost::EncodeError);

#[verifier::external_type_specification]
#[verifier::external_body]
pub struct ExDecodeError(prost::DecodeError);

#[verifier::external_type_specification]
#[verifier::external_body]
pub struct ExSledError(sled::Error);

#[verifier::external_type_specification]
#[verifier::external_body]
pub struct ExTlsError(rustls::TLSError);

/// An I/O failure, carried inside `KvError::IoError`.
#[derive(Debug)]
pub struct MyError(std::io::Error);

impl MyError {
    /// The I/O error that an `MyError` wraps.
    pub closed spec fn inner(self) -> std::io::Error {
        self.0
    }

    /// The `MyError` that wraps `e`.
    pub closed spec fn wrap(e: std::io::Error) -> MyError {
        MyError(e)
    }

    /// The I/O error this wraps.
    pub fn into_inner(self) -> (r: std::io::Error)
        ensures
            r == self.inner(),
    {
        self.0
    }
}

impl From<std::io::Error> for MyError {
    fn from(error: std::io::Error) -> (r: Self) {
        MyError(error)
    }
}

impl vstd::std_specs::convert::FromSpecImpl<std::io::Error> for MyError {
    open spec fn obeys_from_spec() -> bool {
        true
    }

    open spec fn from_spec(v: std::io::Error) -> MyError {
        MyError::wrap(v)
    }
}

/// Everything that can go wrong while serving a command.
#[derive(Debug)]
pub enum KvError {
    NotFound(String),
    CertifcateParseError(&'static str, &'static str),
    ConvertError(String, &'static str),
    InvalidCommand(String),
    StorageError(&'static str, String, String, String),
    EncodeError(prost::EncodeError),
    DecodeError(prost::DecodeError),
    FrameError,
    IoError(MyError),
    SledError(sled::Error),
    TlsError(rustls::TLSError),
    Internal(String),
}

impl From<std::io::Error> for KvError {
    fn from(error: std::io::Error) -> (r: Self) {
        KvError::IoError(MyError::from(error))
    }
}

impl vstd::std_specs::convert::FromSpecImpl<std::io::Error> for KvError {
    open spec fn obeys_from_spec() -> bool {
        true
    }

    open spec fn from_spec(v: std::io::Error) -> KvError {
        KvError::IoError(MyError::wrap(v))
    }
}

impl From<prost::EncodeError> for KvError {
    fn from(error: prost::EncodeError) -> (r: Self) {
        KvError::EncodeError(error)
    }
}

impl vstd::std_specs::convert::FromSpecImpl<prost::EncodeError> for KvError {
    open spec fn obeys_from_spec() -> bool {
        true
    }

    open spec fn from_spec(v: prost::EncodeError) -> KvError {
        KvError::EncodeError(v)
    }
}

impl From<prost::DecodeError> for KvError {
    fn from(error: prost::DecodeError) -> (r: Self) {
        KvError::DecodeError(error)
    }
}

impl vstd::std_specs::convert::FromSpecImpl<prost::DecodeError> for KvError {
    open spec fn obeys_from_spec() -> bool {
        true
    }

    open spec fn from_spec(v: prost::DecodeError) -> KvError {
        KvError::DecodeError(v)
    }
}

impl From<sled::Error> for KvError {
    fn from(error: sled::Error) -> (r: Self) {
        KvError::SledError(error)
    }
}

impl vstd::std_specs::convert::FromSpecImpl<sled::Error> for KvError {
    open spec fn obeys_from_spec() -> bool {
        true
    }

    open spec fn from_spec(v: sled::Error) -> KvError {
        KvError::SledError(v)
    }
}

impl From<rustls::TLSError> for KvError {
    fn from(error: rustls::TLSError) -> (r: Self) {
        KvError::TlsError(error)
    }
}

impl vstd::std_specs::convert::FromSpecImpl<rustls::TLSError> for KvError {
    open spec fn obeys_from_spec() -> bool {
        true
    }

    open spec fn from_spec(v: rustls::TLSError) -> KvError {
        KvError::TlsError(v)
    }
}

/// The text that describes an error to a client.
pub open spec fn message_of(e: KvError) -> Seq<char> {
    match e {
        KvError::NotFound(s) => "Not found: "@ + s@,
        KvError::CertifcateParseError(ca, cert) => "Parse cert failed: ca: "@ + ca@ + ", cert: "@
            + cert@,
        KvError::ConvertError(_, to) => "Cannot convert to "@ + to@,
        KvError::InvalidCommand(s) => "Cannot parse command: "@ + s@,
        KvError::StorageError(cmd, table, key, err) => "Cannot process command "@ + cmd@
            + " with table: "@ + table@ + ", key: "@ + key@ + ". Error: "@ + err@,
        KvError::EncodeError(_) => "Failed to encode protobuf message"@,
        KvError::DecodeError(_) => "Failed to decode protobuf message"@,
        KvError::FrameError => "Frame is larger than max size"@,
        KvError::IoError(_) => "Failed to io"@,
        KvError::SledError(_) => "Failed to access sled db"@,
        KvError::TlsError(_) => "Failed to tls"@,
        KvError::Internal(s) => "Internal error: "@ + s@,
    }
}

/// The status code with which an error is answered.
pub open spec fn status_of(e: KvError) -> u32 {
    match e {
        KvError::NotFound(_) => STATUS_NOT_FOUND,
        KvError::InvalidCommand(_) => STATUS_BAD_REQUEST,
        _ => STATUS_INTERNAL_ERROR,
    }
}

/// The model of the response that answers an error.
pub open spec fn error_response(e: KvError) -> ResponseView {
    ResponseView {
        status: status_of(e),
        message: message_of(e),
        values: Seq::empty(),
        pairs: Seq::empty(),
    }
}

fn joined(parts: &[&str]) -> (r: String)
    ensures
        r@ == parts@.fold_left(Seq::<char>::empty(), |acc: Seq<char>, p: &str| acc + p@),
{
    let mut out = String::new();
    let mut i: usize = 0;
    while i < parts.len()
        invariant
            i <= parts@.len(),
            out@ == parts@.subrange(0, i as int).fold_left(
                Seq::<char>::empty(),
                |acc: Seq<char>, p: &str| acc + p@,
            ),
        decreases parts@.len() - i,
    {
        let ghost before = parts@.subrange(0, i as int);
        assert(parts@.subrange(0, i + 1 as int).drop_last() =~= before);
        out.append(parts[i]);
        i = i + 1;
    }
    assert(parts@.subrange(0, parts@.len() as int) =~= parts@);
    out
}

impl KvError {
    /// The text that describes this error to a client.
    pub fn message(&self) -> (r: String)
        ensures
            r@ == message_of(*self),
    {
        match self {
            KvError::NotFound(s) => {
                let parts = ["Not found: ", s.as_str()];
                let r = joined(&parts);
                proof { reveal_with_fuel(Seq::fold_left, 3); }
                r
            },
            KvError::CertifcateParseError(ca, cert) => {
                let parts = ["Parse cert failed: ca: ", *ca, ", cert: ", *cert];
                let r = joined(&parts);
                proof { reveal_with_fuel(Seq::fold_left, 5); }
                r
            },
            KvError::ConvertError(_, to) => {
                let parts = ["Cannot convert to ", *to];
                let r = joined(&parts);
                proof { reveal_with_fuel(Seq::fold_left, 3); }
                r
            },
            KvError::InvalidCommand(s) => {
                let parts = ["Cannot parse command: ", s.as_str()];
                let r = joined(&parts);
                proof { reveal_with_fuel(Seq::fold_left, 3); }
                r
            },
            KvError::StorageError(cmd, table, key, err) => {
                let parts = [
                    "Cannot process command ",
                    *cmd,
                    " with table: ",
                    table.as_str(),
                    ", key: ",
                    key.as_str(),
                    ". Error: ",
                    err.as_str(),
                ];
                let r = joined(&parts);
                proof { reveal_with_fuel(Seq::fold_left, 9); }
                r
            },
            KvError::EncodeError(_) => String::from_str("Failed to encode protobuf message"),
            KvError::DecodeError(_) => String::from_str("Failed to decode protobuf message"),
            KvError::FrameError => String::from_str("Frame is larger than max size"),
            KvError::IoError(_) => String::from_str("Failed to io"),
            KvError::SledError(_) => String::from_str("Failed to access sled db"),
            KvError::TlsError(_) => String::from_str("Failed to tls"),
            KvError::Internal(s) => {
                let parts = ["Internal error: ", s.as_str()];
                let r = joined(&parts);
                proof { reveal_with_fuel(Seq::fold_left, 3); }
                r
            },
        }
    }

    /// The status code with which this error is answered.
    pub fn status(&self) -> (r: u32)
        ensures
            r == status_of(*self),
    {
        match self {
            KvError::NotFound(_) => STATUS_NOT_FOUND,
            KvError::InvalidCommand(_) => STATUS_BAD_REQUEST,
            _ => STATUS_INTERNAL_ERROR,
        }
    }

    /// The response that answers this error.
    pub fn into_response(self) -> (r: CommandResponse)
        ensures
            r@ == error_response(self),
    {
        let status = self.status();
        let message = self.message();
        let r = CommandResponse { status, message, values: Vec::new(), pairs: Vec::new() };
        assert(r@.values =~= Seq::<Option<Scalar>>::empty());
        assert(r@.pairs =~= Seq::<PairView>::empty());
        r
    }
}

} // verus!
