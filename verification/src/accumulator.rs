//! Per-handler byte accumulation: bytes received but not yet forming a
//! complete frame or message, bounded by a configured limit.

use vstd::prelude::*;
use crate::error::DecodeError;
use crate::wire::take_front;

verus! {

/// A growable byte buffer that refuses to outgrow its limit.
///
/// The buffer is never discarded except by its owner's teardown; an
/// append that would push it past the limit fails and leaves it
/// untouched.
pub struct PendingBuffer {
    data: Vec<u8>,
    limit: usize,
}

impl View for PendingBuffer {
    type V = Seq<u8>;

    closed spec fn view(&self) -> Seq<u8> {
        self.data@
    }
}

impl PendingBuffer {
    /// The buffer never holds more than its limit.
    pub closed spec fn wf(&self) -> bool {
        self.data@.len() <= self.limit
    }

    /// The configured growth bound.
    pub closed spec fn spec_limit(&self) -> usize {
        self.limit
    }

    /// An empty buffer bounded by `limit` bytes.
    pub fn new(limit: usize) -> (r: PendingBuffer)
        ensures
            r.wf(),
            r@ =~= Seq::<u8>::empty(),
            r.spec_limit() == limit,
    {
        PendingBuffer { data: Vec::new(), limit }
    }

    /// How many bytes are waiting.
    pub fn len(&self) -> (r: usize)
        ensures
            r == self@.len(),
    {
        self.data.len()
    }

    /// Append `bytes`, unless that would outgrow the limit; a refused
    /// append leaves the buffer as it was.
    pub fn append(&mut self, bytes: &Vec<u8>) -> (r: Result<(), DecodeError>)
        requires
            old(self).wf(),
        ensures
            final(self).wf(),
            final(self).spec_limit() == old(self).spec_limit(),
            r is Ok <==> old(self)@.len() + bytes@.len() <= old(self).spec_limit(),
            r is Ok ==> final(self)@ == old(self)@ + bytes@,
            r is Err ==> final(self)@ == old(self)@ && r == Result::<(), DecodeError>::Err(
                DecodeError::Framing,
            ),
    {
        if bytes.len() > self.limit - self.data.len() {
            Err(DecodeError::Framing)
        } else {
            self.data.extend_from_slice(bytes.as_slice());
            Ok(())
        }
    }

    /// Move the first `n` waiting bytes out.
    pub fn take(&mut self, n: usize) -> (r: Vec<u8>)
        requires
            old(self).wf(),
            n <= old(self)@.len(),
        ensures
            final(self).wf(),
            final(self).spec_limit() == old(self).spec_limit(),
            r@ == old(self)@.subrange(0, n as int),
            final(self)@ == old(self)@.subrange(n as int, old(self)@.len() as int),
    {
        take_front(&mut self.data, n)
    }

    /// Read the byte at `i` without consuming it.
    pub fn at(&self, i: usize) -> (r: u8)
        requires
            i < self@.len(),
        ensures
            r == self@[i as int],
    {
        self.data[i]
    }

    /// Borrow the waiting bytes.
    pub fn bytes(&self) -> (r: &Vec<u8>)
        ensures
            r@ == self@,
    {
        &self.data
    }
}

} // verus!
