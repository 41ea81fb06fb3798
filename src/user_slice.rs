//! Caller memory on the other side of a transfer: a source that the device
//! copies from on write, and a destination that it copies into on read.
//! Either may fault part way, as user memory that is not mapped would.
use vstd::prelude::*;

verus! {

/// Failure of a single device operation.
#[derive(Debug, Clone, Copy, PartialEq, Eq, Structural)]
pub enum DeviceError {
    /// Copying between the device buffer and caller memory faulted.
    TransferFailure,
}

/// `dst` with the bytes of `src` laid over it from index `at`; indices past
/// the end of `dst` are dropped.
pub open spec fn overwrite(dst: Seq<u8>, at: int, src: Seq<u8>) -> Seq<u8> {
    Seq::new(dst.len(), |i: int| if at <= i && i < at + src.len() { src[i - at] } else { dst[i] })
}

/// A source of bytes in caller memory. It advertises `data().len() - pos()`
/// bytes; only those before `accessible()` can actually be copied.
pub struct UserSliceReader {
    data: Vec<u8>,
    accessible: usize,
    pos: usize,
}

impl UserSliceReader {
    /// Every byte the caller handed over, consumed or not.
    pub closed spec fn data(&self) -> Seq<u8> {
        self.data@
    }

    /// How many bytes have been consumed.
    pub closed spec fn pos(&self) -> nat {
        self.pos as nat
    }

    /// Index in `data()` at which copying faults.
    pub closed spec fn accessible(&self) -> nat {
        self.accessible as nat
    }

    pub open spec fn wf(&self) -> bool {
        self.pos() <= self.accessible() && self.accessible() <= self.data().len()
    }

    /// The bytes not consumed yet.
    pub open spec fn remaining(&self) -> Seq<u8> {
        self.data().subrange(self.pos() as int, self.data().len() as int)
    }

    /// A source whose bytes can all be copied.
    pub fn new(data: Vec<u8>) -> (r: Self)
        ensures
            r.wf(),
            r.data() == data@,
            r.pos() == 0,
            r.accessible() == data@.len(),
    {
        let accessible = data.len();
        UserSliceReader { data, accessible, pos: 0 }
    }

    /// A source that faults when copying reaches index `accessible` (or
    /// never, where that is past its end).
    pub fn with_fault(data: Vec<u8>, accessible: usize) -> (r: Self)
        ensures
            r.wf(),
            r.data() == data@,
            r.pos() == 0,
            r.accessible() == if accessible <= data@.len() { accessible as nat } else { data@.len() },
    {
        let accessible = if accessible <= data.len() { accessible } else { data.len() };
        UserSliceReader { data, accessible, pos: 0 }
    }

    /// Number of bytes the source advertises as still to be read.
    pub fn len(&self) -> (n: usize)
        requires
            self.wf(),
        ensures
            n == self.remaining().len(),
    {
        self.data.len() - self.pos
    }

    /// Copies the next `n` bytes of the source into `dst[at..at + n]` and
    /// consumes them. Where that runs into the fault, the bytes before it are
    /// copied, nothing is consumed, and the copy fails.
    pub fn read_slice(&mut self, dst: &mut Vec<u8>, at: usize, n: usize) -> (r: Result<(), DeviceError>)
        requires
            old(self).wf(),
            n <= old(self).remaining().len(),
            at + n <= old(dst)@.len(),
        ensures
            final(self).wf(),
            final(self).data() == old(self).data(),
            final(self).accessible() == old(self).accessible(),
            final(dst)@.len() == old(dst)@.len(),
            old(self).pos() + n <= old(self).accessible() ==> {
                &&& r == Ok::<(), DeviceError>(())
                &&& final(self).pos() == old(self).pos() + n
                &&& final(dst)@ == overwrite(old(dst)@, at as int, old(self).remaining().take(n as int))
            },
            old(self).pos() + n > old(self).accessible() ==> {
                &&& r == Err::<(), DeviceError>(DeviceError::TransferFailure)
                &&& final(self).pos() == old(self).pos()
                &&& final(dst)@ == overwrite(
                    old(dst)@,
                    at as int,
                    old(self).remaining().take(old(self).accessible() - old(self).pos()),
                )
            },
    {
        let start = self.pos;
        let dst_len = dst.len();
        let mut i: usize = 0;
        while i < n && start + i < self.accessible
            invariant
                *self == *old(self),
                start == self.pos,
                self.wf(),
                n <= self.remaining().len(),
                at + n <= dst_len,
                dst_len == dst@.len(),
                i <= n,
                start + i <= self.accessible,
                dst@ == overwrite(old(dst)@, at as int, self.data@.subrange(start as int, start + i)),
            decreases n - i,
        {
            dst.set(at + i, self.data[start + i]);
            i = i + 1;
            assert(dst@ =~= overwrite(old(dst)@, at as int, self.data@.subrange(start as int, start + i)));
        }
        if i < n {
            assert(self.data@.subrange(start as int, start + i) =~= self.remaining().take(
                self.accessible() - self.pos(),
            ));
            Err(DeviceError::TransferFailure)
        } else {
            assert(self.data@.subrange(start as int, start + i) =~= self.remaining().take(n as int));
            self.pos = start + n;
            Ok(())
        }
    }
}

/// A destination in caller memory with room for `capacity()` bytes, of
/// which only the first `accessible()` can actually be written.
pub struct UserSliceWriter {
    written: Vec<u8>,
    capacity: usize,
    accessible: usize,
}

impl UserSliceWriter {
    /// The bytes written so far, in order.
    pub closed spec fn written(&self) -> Seq<u8> {
        self.written@
    }

    pub closed spec fn capacity(&self) -> nat {
        self.capacity as nat
    }

    /// Count of bytes after which writing faults.
    pub closed spec fn accessible(&self) -> nat {
        self.accessible as nat
    }

    pub open spec fn wf(&self) -> bool {
        self.written().len() <= self.accessible() && self.accessible() <= self.capacity()
    }

    /// Room left, in bytes.
    pub open spec fn room(&self) -> nat {
        (self.capacity() - self.written().len()) as nat
    }

    /// An empty destination with room for `capacity` bytes, all writable.
    pub fn new(capacity: usize) -> (w: Self)
        ensures
            w.wf(),
            w.written() == Seq::<u8>::empty(),
            w.capacity() == capacity,
            w.accessible() == capacity,
    {
        UserSliceWriter { written: Vec::new(), capacity, accessible: capacity }
    }

    /// An empty destination with room for `capacity` bytes that faults once
    /// `accessible` of them are written (never, where that is past its end).
    pub fn with_fault(capacity: usize, accessible: usize) -> (w: Self)
        ensures
            w.wf(),
            w.written() == Seq::<u8>::empty(),
            w.capacity() == capacity,
            w.accessible() == if accessible <= capacity { accessible } else { capacity },
    {
        let accessible = if accessible <= capacity { accessible } else { capacity };
        UserSliceWriter { written: Vec::new(), capacity, accessible }
    }

    /// Room left, in bytes.
    pub fn len(&self) -> (n: usize)
        requires
            self.wf(),
        ensures
            n == self.room(),
    {
        self.capacity - self.written.len()
    }

    /// The bytes written so far.
    pub fn bytes(&self) -> (b: &Vec<u8>)
        ensures
            b@ == self.written(),
    {
        &self.written
    }

    /// Appends `src[at..at + n]` to the destination. Where that runs into the
    /// fault, the bytes before it are written and the copy fails.
    pub fn write_slice(&mut self, src: &Vec<u8>, at: usize, n: usize) -> (r: Result<(), DeviceError>)
        requires
            old(self).wf(),
            n <= old(self).room(),
            at + n <= src@.len(),
        ensures
            final(self).wf(),
            final(self).capacity() == old(self).capacity(),
            final(self).accessible() == old(self).accessible(),
            old(self).written().len() + n <= old(self).accessible() ==> {
                &&& r == Ok::<(), DeviceError>(())
                &&& final(self).written() == old(self).written() + src@.subrange(at as int, at + n)
            },
            old(self).written().len() + n > old(self).accessible() ==> {
                &&& r == Err::<(), DeviceError>(DeviceError::TransferFailure)
                &&& final(self).written() == old(self).written() + src@.subrange(
                    at as int,
                    at + old(self).accessible() - old(self).written().len(),
                )
            },
    {
        let src_len = src.len();
        let mut i: usize = 0;
        while i < n && self.written.len() < self.accessible
            invariant
                self.capacity == old(self).capacity,
                self.accessible == old(self).accessible,
                old(self).wf(),
                n <= old(self).room(),
                at + n <= src_len,
                src_len == src@.len(),
                i <= n,
                self.written@.len() == old(self).written().len() + i,
                self.written@.len() <= self.accessible,
                self.written@ == old(self).written() + src@.subrange(at as int, at + i),
            decreases n - i,
        {
            self.written.push(src[at + i]);
            i = i + 1;
            assert(self.written@ =~= old(self).written() + src@.subrange(at as int, at + i));
        }
        if i < n {
            Err(DeviceError::TransferFailure)
        } else {
            Ok(())
        }
    }
}

} // verus!
