//! The errors of the library.
use vstd::prelude::*;

verus! {

/// Why an exchange with the router failed or was never begun.
#[derive(Clone, Debug, PartialEq, Eq)]
pub enum AppError {
    /// A port number is outside 1 to 16.
    PortNumber,
    /// No fresh frame came in while the exchange waited for its reply.
    ReceiveTimeout,
    /// The reply is not the one the command expects. Holds the reply as
    /// text: its time stamp and its hex dump.
    InvalidMessage(String),
    /// The MIDI output refused the command frame.
    SendError,
    /// The lock around the mailbox is broken.
    PoisonError,
}

/// What an `AppError` holds.
pub enum AppErrorView {
    PortNumber,
    ReceiveTimeout,
    InvalidMessage(Seq<char>),
    SendError,
    PoisonError,
}

impl View for AppError {
    type V = AppErrorView;

    open spec fn view(&self) -> AppErrorView {
        match self {
            AppError::PortNumber => AppErrorView::PortNumber,
            AppError::ReceiveTimeout => AppErrorView::ReceiveTimeout,
            AppError::InvalidMessage(text) => AppErrorView::InvalidMessage(text@),
            AppError::SendError => AppErrorView::SendError,
            AppError::PoisonError => AppErrorView::PoisonError,
        }
    }
}

/// Why a token is not a number from 0 to 255.
#[derive(Clone, Copy, Debug, PartialEq, Eq, Structural)]
pub enum NumberError {
    /// The token is empty.
    Empty,
    /// A character is not a decimal digit, or a sign stands alone.
    InvalidDigit,
    /// The digits give more than 255.
    PosOverflow,
}

/// Why a command line was not carried out.
#[allow(inconsistent_fields)]
#[derive(Clone, Debug, PartialEq, Eq)]
pub enum ParseError {
    /// The forwarding mode is none of `all`, `none`, `to`, `add`, `rm`.
    InvalidMode,
    /// The command has too few arguments, or too many.
    Argument,
    /// The new name of a port has more than eight bytes.
    NameLength,
    /// The command was understood and its exchange failed.
    ParseAppError { source: AppError },
    /// An argument is not a number.
    IntError { source: NumberError },
}

/// What a `ParseError` holds.
#[allow(inconsistent_fields)]
pub enum ParseErrorView {
    InvalidMode,
    Argument,
    NameLength,
    ParseAppError { source: AppErrorView },
    IntError { source: NumberError },
}

impl View for ParseError {
    type V = ParseErrorView;

    open spec fn view(&self) -> ParseErrorView {
        match self {
            ParseError::InvalidMode => ParseErrorView::InvalidMode,
            ParseError::Argument => ParseErrorView::Argument,
            ParseError::NameLength => ParseErrorView::NameLength,
            ParseError::ParseAppError { source } => ParseErrorView::ParseAppError {
                source: source@,
            },
            ParseError::IntError { source } => ParseErrorView::IntError { source: *source },
        }
    }
}

/// What a result holds: what its value holds, or what its error holds.
pub open spec fn result_view<T: View, E: View>(result: Result<T, E>) -> Result<T::V, E::V> {
    match result {
        Ok(value) => Ok(value@),
        Err(error) => Err(error@),
    }
}

} // verus!
