//! Error values shared by the runtime, server and transport modules.

use vstd::prelude::*;

verus! {

/// Stable runtime error classification.
#[derive(Clone, Copy, Debug, PartialEq, Eq, Structural)]
pub enum ErrorCode {
    /// A configuration value was rejected before any I/O.
    InvalidConfig,
    /// Bounded work queues are saturated; retry later.
    Backpressure,
    /// The transport family is not compiled into this build.
    UnsupportedTransport,
    /// The serial device could not be opened.
    SerialUnavailable,
    /// The attachment failed while starting or stopping.
    AttachmentStart,
    /// One protocol operation failed.
    Operation,
}

/// Identity of one configured network attachment.
#[derive(Clone, Copy, Debug, PartialEq, Eq, Hash, Structural)]
pub struct AttachmentId(pub u64);

impl AttachmentId {
    /// Attachment identity from its numeric value.
    pub fn new(value: u64) -> (r: AttachmentId)
        ensures
            r.0 == value,
    {
        AttachmentId(value)
    }
}

impl From<u64> for AttachmentId {
    fn from(value: u64) -> (r: AttachmentId) {
        AttachmentId(value)
    }
}

impl vstd::std_specs::convert::FromSpecImpl<u64> for AttachmentId {
    open spec fn obeys_from_spec() -> bool {
        true
    }

    open spec fn from_spec(v: u64) -> AttachmentId {
        AttachmentId(v)
    }
}

/// Structured runtime error.
#[derive(Clone, Debug)]
pub struct RuntimeError {
    /// Stable classification.
    pub code: ErrorCode,
    /// Whether retrying the same request may succeed.
    pub retryable: bool,
    /// Attachment the error belongs to, when there is one.
    pub attachment_id: Option<AttachmentId>,
    /// Human-readable detail.
    pub message: String,
}

impl RuntimeError {
    /// A non-retryable configuration error without attachment context.
    pub fn invalid_config(message: &str) -> (r: RuntimeError)
        ensures
            r.code == ErrorCode::InvalidConfig,
            !r.retryable,
            r.attachment_id is None,
            r.message@ == message@,
    {
        RuntimeError {
            code: ErrorCode::InvalidConfig,
            retryable: false,
            attachment_id: None,
            message: message.to_owned(),
        }
    }

    /// A non-retryable configuration error of one attachment.
    pub fn invalid_attachment_config(id: AttachmentId, message: &str) -> (r: RuntimeError)
        ensures
            r.code == ErrorCode::InvalidConfig,
            !r.retryable,
            r.attachment_id == Some(id),
            r.message@ == message@,
    {
        RuntimeError {
            code: ErrorCode::InvalidConfig,
            retryable: false,
            attachment_id: Some(id),
            message: message.to_owned(),
        }
    }

    /// The transport family of an attachment is not available in this build.
    pub fn unsupported_transport(id: AttachmentId, message: &str) -> (r: RuntimeError)
        ensures
            r.code == ErrorCode::UnsupportedTransport,
            !r.retryable,
            r.attachment_id == Some(id),
            r.message@ == message@,
    {
        RuntimeError {
            code: ErrorCode::UnsupportedTransport,
            retryable: false,
            attachment_id: Some(id),
            message: message.to_owned(),
        }
    }
}

/// Kind of a transport-level failure.
#[derive(Clone, Copy, Debug, PartialEq, Eq, Structural)]
pub enum TransportErrorKind {
    /// The address or MAC is already in use.
    AddrInUse,
    /// The destination is not known.
    NotFound,
    /// The endpoint is not (or no longer) connected.
    NotConnected,
    /// A bounded queue is full.
    WouldBlock,
    /// The operation is not valid in the current state.
    InvalidInput,
    /// The operation is not supported on this platform.
    Unsupported,
    /// The endpoint already exists or is already started.
    AlreadyExists,
    /// Any other I/O failure.
    Other,
}

/// Protocol-stack error.
#[derive(Clone, Debug)]
pub enum Error {
    /// Malformed or invalid encoded or configured value.
    Encoding(String),
    /// A value is outside its permitted range.
    OutOfRange(String),
    /// A BACnet error class and code.
    Protocol {
        /// Error class.
        class: u32,
        /// Error code.
        code: u32,
    },
    /// A transport failure.
    Transport {
        /// Failure kind.
        kind: TransportErrorKind,
        /// Detail.
        message: String,
    },
    /// A BVLC-Result carrying a non-success code.
    Bvlc {
        /// The received result code.
        result_code: u16,
    },
    /// No answer arrived within this many milliseconds.
    Timeout(u64),
}

/// Error class SERVICES.
pub const ERROR_CLASS_SERVICES: u32 = 5;

/// Error class RESOURCES.
pub const ERROR_CLASS_RESOURCES: u32 = 3;

/// Error code OPTIONAL_FUNCTIONALITY_NOT_SUPPORTED.
pub const ERROR_CODE_OPTIONAL_FUNCTIONALITY_NOT_SUPPORTED: u32 = 45;

/// Error code NO_SPACE_TO_ADD_LIST_ELEMENT.
pub const ERROR_CODE_NO_SPACE_TO_ADD_LIST_ELEMENT: u32 = 19;

/// The detail text of an error: the text carried by `Encoding`,
/// `OutOfRange` and `Transport`, empty for the structured variants.
pub open spec fn error_text(e: Error) -> Seq<char> {
    match e {
        Error::Encoding(m) => m@,
        Error::OutOfRange(m) => m@,
        Error::Transport { message, .. } => message@,
        _ => Seq::empty(),
    }
}

impl Error {
    /// Whether this is an [`Error::Encoding`] error.
    pub fn is_encoding(&self) -> (r: bool)
        ensures
            r == (self is Encoding),
    {
        match self {
            Error::Encoding(_) => true,
            _ => false,
        }
    }

    /// The detail text carried by the error, empty for structured variants.
    pub fn message(&self) -> (r: String)
        ensures
            self is Encoding ==> r@ == self->Encoding_0@,
            self is OutOfRange ==> r@ == self->OutOfRange_0@,
            self is Transport ==> r@ == self->Transport_message@,
            !(self is Encoding || self is OutOfRange || self is Transport) ==> r@.len() == 0,
            r@ == error_text(*self),
    {
        match self {
            Error::Encoding(m) => m.clone(),
            Error::OutOfRange(m) => m.clone(),
            Error::Transport { message, .. } => message.clone(),
            _ => String::new(),
        }
    }

    /// The transport failure kind, when this is a transport error.
    pub fn transport_kind(&self) -> (r: Option<TransportErrorKind>)
        ensures
            r == (if self is Transport {
                Some(self->Transport_kind)
            } else {
                None::<TransportErrorKind>
            }),
    {
        match self {
            Error::Transport { kind, .. } => Some(*kind),
            _ => None,
        }
    }
}

} // verus!
