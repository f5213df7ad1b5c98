//! Error kinds of the stack.
use vstd::prelude::*;

verus! {

/// Why a transaction refused an operation.
#[derive(PartialEq, Eq, Structural, Clone, Copy, Debug)]
pub enum TransactionErrorKind {
    NotClient,
    NotServer,
    NotClientInvite,
    InvalidTransition,
    NoConnection,
    InvalidStateForCancel,
    InvalidStateForAck,
    MailboxClosed,
}

/// Why a dialog refused an operation.
#[derive(PartialEq, Eq, Structural, Clone, Copy, Debug)]
pub enum DialogErrorKind {
    NotFound,
    AlreadyTerminated,
    CSeqOutOfOrder,
    TransactionTerminated,
}

/// A mandatory header that a message lacks.
#[derive(PartialEq, Eq, Structural, Clone, Copy, Debug)]
pub enum MissingHeader {
    Via,
    From,
    To,
    CallId,
    CSeq,
}

/// The errors of the stack.
#[derive(PartialEq, Eq, Structural, Clone, Copy, Debug)]
pub enum Error {
    TransportLayerError,
    TransactionError(TransactionErrorKind),
    DialogError(DialogErrorKind),
    DnsResolutionError,
    AuthError,
    ProtocolError(MissingHeader),
    /// A stream frame could not be parsed as a SIP message.
    ParseError,
    /// More bytes are buffered than one SIP message may hold.
    MessageTooLarge,
    Canceled,
}

} // verus!
