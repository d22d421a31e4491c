//! The errors a transfer can end with.

use vstd::prelude::*;
use vstd::string::*;

use crate::text::glue;

verus! {

/// Why a transfer, or a step of one, failed.
#[derive(Debug, Clone, PartialEq, Eq)]
pub enum TransferError {
    /// The source path does not exist; holds the path.
    NotFound(String),
    /// A name holds a component that is unsafe to import or export; holds the
    /// component.
    InvalidPathComponent(String),
    /// The ticket text is empty.
    EmptyTicket,
    /// The ticket text does not parse.
    InvalidTicket,
    /// The export target exists already; holds the target path.
    ExportConflict(String),
    /// The network or the store reported a failure; holds the cause.
    StreamError(String),
    /// The other end of a channel is gone.
    ChannelClosed,
    /// The user stopped the transfer.
    Cancelled,
}

/// The mathematical value of a [`TransferError`].
pub enum TransferErrorView {
    NotFound(Seq<char>),
    InvalidPathComponent(Seq<char>),
    EmptyTicket,
    InvalidTicket,
    ExportConflict(Seq<char>),
    StreamError(Seq<char>),
    ChannelClosed,
    Cancelled,
}

impl View for TransferError {
    type V = TransferErrorView;

    open spec fn view(&self) -> TransferErrorView {
        match self {
            TransferError::NotFound(p) => TransferErrorView::NotFound(p@),
            TransferError::InvalidPathComponent(c) => TransferErrorView::InvalidPathComponent(c@),
            TransferError::EmptyTicket => TransferErrorView::EmptyTicket,
            TransferError::InvalidTicket => TransferErrorView::InvalidTicket,
            TransferError::ExportConflict(p) => TransferErrorView::ExportConflict(p@),
            TransferError::StreamError(c) => TransferErrorView::StreamError(c@),
            TransferError::ChannelClosed => TransferErrorView::ChannelClosed,
            TransferError::Cancelled => TransferErrorView::Cancelled,
        }
    }
}

impl TransferErrorView {
    /// The line shown to the user for this error.
    pub open spec fn message(self) -> Seq<char> {
        match self {
            TransferErrorView::NotFound(p) => "path "@ + p + " does not exist"@,
            TransferErrorView::InvalidPathComponent(c) => "invalid path component "@ + c,
            TransferErrorView::EmptyTicket => "Empty Blob"@,
            TransferErrorView::InvalidTicket => "Invalid ticket"@,
            TransferErrorView::ExportConflict(p) => p + " already exists"@,
            TransferErrorView::StreamError(c) => c,
            TransferErrorView::ChannelClosed => "channel closed"@,
            TransferErrorView::Cancelled => "Cancelled"@,
        }
    }
}

impl TransferError {
    /// The line shown to the user for this error.
    pub fn message(&self) -> (text: String)
        ensures
            text@ == self@.message(),
    {
        match self {
            TransferError::NotFound(p) => {
                let head = glue("path ", p.as_str());
                let text = glue(head.as_str(), " does not exist");
                assert(text@ =~= "path "@ + p@ + " does not exist"@);
                text
            },
            TransferError::InvalidPathComponent(c) => glue("invalid path component ", c.as_str()),
            TransferError::EmptyTicket => String::from_str("Empty Blob"),
            TransferError::InvalidTicket => String::from_str("Invalid ticket"),
            TransferError::ExportConflict(p) => glue(p.as_str(), " already exists"),
            TransferError::StreamError(c) => c.clone(),
            TransferError::ChannelClosed => String::from_str("channel closed"),
            TransferError::Cancelled => String::from_str("Cancelled"),
        }
    }
}

} // verus!
