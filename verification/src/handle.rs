//! A non-owning handle that forwards to a borrowed engine.

use vstd::prelude::*;

use crate::error::MockError;
use crate::sink::{write_log, write_result, write_step, Sink};
use crate::source::{read_filled, read_result, read_step, Source};

verus! {

/// An owned handle to a [`Source`] or [`Sink`].
///
/// It's common to want an object which owns a type with read or write
/// capability. But for testing purposes, the object under test can't consume
/// the mock, as we might want to verify some expectations on it afterwards.
/// To get around this, an `OwnedHandle` can be taken from a [`Source`] or
/// [`Sink`]; it offers the same read/write/flush operations but only holds a
/// mutable borrow of the underlying mock.
///
/// Once the handle is dropped, the mock object itself still exists and can be
/// used to verify any expectations.
pub struct OwnedHandle<'a, T> {
    /// Exclusive borrowed access to the wrapped engine.
    pub inner: &'a mut T,
}

impl Source {
    /// Get an [`OwnedHandle`] containing this `Source`.
    ///
    /// The handle sees the source as it stands now, and whatever state the
    /// handle leaves behind is the state this source is found in afterwards.
    pub fn owned_handle(&mut self) -> (h: OwnedHandle<'_, Source>)
        ensures
            *h.inner == *old(self),
            *final(h.inner) == *final(self),
    {
        OwnedHandle { inner: self }
    }
}

impl Sink {
    /// Get an [`OwnedHandle`] containing this `Sink`.
    ///
    /// The handle sees the sink as it stands now, and whatever state the
    /// handle leaves behind is the state this sink is found in afterwards.
    pub fn owned_handle(&mut self) -> (h: OwnedHandle<'_, Sink>)
        ensures
            *h.inner == *old(self),
            *final(h.inner) == *final(self),
    {
        OwnedHandle { inner: self }
    }
}

impl<'a> OwnedHandle<'a, Source> {
    /// Forward a read, unchanged, to the wrapped [`Source`].
    pub fn read(&mut self, buf: &mut Vec<u8>) -> (r: Result<usize, MockError>)
        requires
            (*old(self).inner)@.len() > 0,
        ensures
            (*final(self).inner)@ == read_step((*old(self).inner)@, old(buf)@.len()),
            final(buf)@ == read_filled((*old(self).inner)@, old(buf)@),
            r == read_result((*old(self).inner)@, old(buf)@.len()),
            *final(final(self).inner) == *final(old(self).inner),
    {
        self.inner.read(buf)
    }
}

impl<'a> OwnedHandle<'a, Sink> {
    /// Forward a write, unchanged, to the wrapped [`Sink`].
    pub fn write(&mut self, buf: &[u8]) -> (r: Result<usize, MockError>)
        requires
            (*old(self).inner)@.queue.len() > 0,
        ensures
            (*final(self).inner)@.queue == write_step((*old(self).inner)@.queue, buf@.len()),
            (*final(self).inner)@.log == write_log(
                (*old(self).inner)@.queue,
                (*old(self).inner)@.log,
                buf@,
            ),
            r == write_result((*old(self).inner)@.queue, buf@.len()),
            *final(final(self).inner) == *final(old(self).inner),
    {
        self.inner.write(buf)
    }

    /// Forward a flush, unchanged, to the wrapped [`Sink`]. It always
    /// succeeds and changes nothing.
    pub fn flush(&mut self) -> (r: Result<(), MockError>)
        ensures
            (*final(self).inner)@ == (*old(self).inner)@,
            r == Ok::<(), MockError>(()),
            *final(final(self).inner) == *final(old(self).inner),
    {
        self.inner.flush()
    }
}

} // verus!
