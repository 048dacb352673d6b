//! What can go wrong between a block request and its backend.
use crate::errno;
use crate::text;
use vstd::prelude::*;

verus! {

/// A failed call to the backend.
#[derive(Debug)]
pub enum TransportError {
    /// Trying again may succeed.
    Retryable { message: String },
    /// Trying again is of no use.
    Terminal { message: String },
}

/// What a `TransportError` holds.
pub enum TransportErrorView {
    Retryable(Seq<char>),
    Terminal(Seq<char>),
}

impl View for TransportError {
    type V = TransportErrorView;

    open spec fn view(&self) -> TransportErrorView {
        match self {
            TransportError::Retryable { message } => TransportErrorView::Retryable(message@),
            TransportError::Terminal { message } => TransportErrorView::Terminal(message@),
        }
    }
}

impl TransportErrorView {
    /// The text that came with the failure.
    pub open spec fn message(self) -> Seq<char> {
        match self {
            TransportErrorView::Retryable(message) => message,
            TransportErrorView::Terminal(message) => message,
        }
    }
}

impl TransportError {
    /// A failure that may pass.
    pub fn retryable(message: &str) -> (r: Self)
        ensures
            r@ == TransportErrorView::Retryable(message@),
    {
        TransportError::Retryable { message: message.to_owned() }
    }

    /// A failure that will not pass.
    pub fn terminal(message: &str) -> (r: Self)
        ensures
            r@ == TransportErrorView::Terminal(message@),
    {
        TransportError::Terminal { message: message.to_owned() }
    }

    /// Whether trying again may succeed.
    pub fn is_retryable(&self) -> (r: bool)
        ensures
            r == (self@ is Retryable),
    {
        match self {
            TransportError::Retryable { .. } => true,
            TransportError::Terminal { .. } => false,
        }
    }

    /// The failure in words.
    pub fn describe(&self) -> (r: String)
        ensures
            r@ == match self@ {
                TransportErrorView::Retryable(m) => "retryable transport error: "@ + m,
                TransportErrorView::Terminal(m) => "terminal transport error: "@ + m,
            },
    {
        match self {
            TransportError::Retryable { message } => text::cat2(
                "retryable transport error: ",
                message.as_str(),
            ),
            TransportError::Terminal { message } => text::cat2(
                "terminal transport error: ",
                message.as_str(),
            ),
        }
    }
}

/// A block request that failed.
#[derive(Debug)]
pub enum EngineError {
    /// The request itself is at fault.
    InvalidRequest { message: String },
    /// The backend is at fault.
    Io { message: String },
}

/// What an `EngineError` holds.
pub enum EngineErrorView {
    InvalidRequest(Seq<char>),
    Io(Seq<char>),
}

impl View for EngineError {
    type V = EngineErrorView;

    open spec fn view(&self) -> EngineErrorView {
        match self {
            EngineError::InvalidRequest { message } => EngineErrorView::InvalidRequest(message@),
            EngineError::Io { message } => EngineErrorView::Io(message@),
        }
    }
}

impl EngineErrorView {
    /// The error number that answers the request.
    pub open spec fn errno(self) -> i32 {
        match self {
            EngineErrorView::InvalidRequest(_) => errno::INVALID_ARGUMENT,
            EngineErrorView::Io(_) => errno::IO_ERROR,
        }
    }

    /// The failure in words.
    pub open spec fn described(self) -> Seq<char> {
        match self {
            EngineErrorView::InvalidRequest(m) => "invalid request: "@ + m,
            EngineErrorView::Io(m) => "i/o error: "@ + m,
        }
    }
}

impl EngineError {
    /// The request is at fault.
    pub fn invalid(message: &str) -> (r: Self)
        ensures
            r@ == EngineErrorView::InvalidRequest(message@),
    {
        EngineError::InvalidRequest { message: message.to_owned() }
    }

    /// The backend is at fault.
    pub fn io(message: &str) -> (r: Self)
        ensures
            r@ == EngineErrorView::Io(message@),
    {
        EngineError::Io { message: message.to_owned() }
    }

    /// The error number that answers the request: `EINVAL` where the request is at fault, `EIO`
    /// where the backend is.
    pub fn errno(&self) -> (r: i32)
        ensures
            r == self@.errno(),
    {
        match self {
            EngineError::InvalidRequest { .. } => errno::einval(),
            EngineError::Io { .. } => errno::eio(),
        }
    }

    /// The failure in words.
    pub fn describe(&self) -> (r: String)
        ensures
            r@ == self@.described(),
    {
        match self {
            EngineError::InvalidRequest { message } => text::cat2(
                "invalid request: ",
                message.as_str(),
            ),
            EngineError::Io { message } => text::cat2("i/o error: ", message.as_str()),
        }
    }
}

} // verus!
