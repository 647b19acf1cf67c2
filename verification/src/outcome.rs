//! Scripted outcomes, as stored by the engines and as modelled in contracts.

use vstd::prelude::*;

use crate::error::MockError;

verus! {

/// Mathematical model of one scripted read outcome, as the contracts of
/// [`crate::Source`] speak of it.
#[verifier::ext_equal]
pub enum ReadOutcome {
    /// A chunk of bytes handed to the reader, possibly across several calls.
    Data(Seq<u8>),
    /// A failure surfaced verbatim.
    Error(MockError),
    /// End of stream: a single zero-length success.
    Closed,
}

/// Mathematical model of one scripted write outcome, as the contracts of
/// [`crate::Sink`] speak of it.
#[verifier::ext_equal]
pub enum WriteOutcome {
    /// How many further bytes the sink will report as accepted, possibly
    /// across several calls.
    AcceptLimit(nat),
    /// A failure surfaced verbatim.
    Error(MockError),
    /// Zero bytes accepted.
    Closed,
}

/// A value to be yielded by a `Source`.
pub(crate) enum ReadItem {
    /// Yield data to the caller.
    Data(Vec<u8>),
    /// Return an error to the caller.
    Error(MockError),
    /// Return a data length of zero to the caller.
    Closed,
}

/// The model of one stored read item.
pub(crate) open spec fn read_item_view(item: ReadItem) -> ReadOutcome {
    match item {
        ReadItem::Data(bytes) => ReadOutcome::Data(bytes@),
        ReadItem::Error(e) => ReadOutcome::Error(e),
        ReadItem::Closed => ReadOutcome::Closed,
    }
}

/// A value to be yielded by a `Sink`.
pub(crate) enum WriteItem {
    /// Accept data written by the caller up to the given length.
    AcceptData(usize),
    /// Return an error to the caller.
    Error(MockError),
    /// Close the connection by reporting a written length of zero.
    Closed,
}

/// The model of one stored write item.
pub(crate) open spec fn write_item_view(item: WriteItem) -> WriteOutcome {
    match item {
        WriteItem::AcceptData(n) => WriteOutcome::AcceptLimit(n as nat),
        WriteItem::Error(e) => WriteOutcome::Error(e),
        WriteItem::Closed => WriteOutcome::Closed,
    }
}

} // verus!
