//! The device's byte store, as seen by whoever holds its lock: a buffer of
//! fixed length, read and written at offsets that are clamped to its end.
use vstd::prelude::*;

use crate::user_slice::{overwrite, DeviceError, UserSliceReader, UserSliceWriter};

verus! {

/// Length of the device buffer, in bytes.
pub const GLOBALMEM_SIZE: usize = 4096;

/// How many bytes a transfer of `requested` bytes at `offset` moves: what
/// was asked for, cut at the end of the buffer, and 0 from the end onwards.
pub open spec fn transfer_len(offset: int, requested: int) -> int {
    if offset >= GLOBALMEM_SIZE {
        0
    } else if requested <= GLOBALMEM_SIZE - offset {
        requested
    } else {
        GLOBALMEM_SIZE - offset
    }
}

/// The buffer after writing `src` at `offset`: the prefix of `src` that fits
/// lands at `offset`, everything else stays.
pub open spec fn write_result(buf: Seq<u8>, offset: int, src: Seq<u8>) -> Seq<u8> {
    overwrite(buf, offset, src.take(transfer_len(offset, src.len() as int)))
}

/// The bytes that reading `requested` bytes at `offset` hands out.
pub open spec fn read_result(buf: Seq<u8>, offset: int, requested: int) -> Seq<u8> {
    if offset >= GLOBALMEM_SIZE {
        Seq::empty()
    } else {
        buf.subrange(offset, offset + transfer_len(offset, requested))
    }
}

/// The shared byte store itself.
pub struct GlobalMem {
    bytes: Vec<u8>,
}

impl View for GlobalMem {
    type V = Seq<u8>;

    closed spec fn view(&self) -> Seq<u8> {
        self.bytes@
    }
}

impl GlobalMem {
    /// The length never changes.
    pub open spec fn wf(&self) -> bool {
        self@.len() == GLOBALMEM_SIZE
    }

    /// A buffer of zero bytes.
    pub fn new() -> (m: Self)
        ensures
            m.wf(),
            m@ == Seq::new(GLOBALMEM_SIZE as nat, |i: int| 0u8),
    {
        let m = GlobalMem { bytes: vec![0u8; GLOBALMEM_SIZE] };
        assert(m@ =~= Seq::new(GLOBALMEM_SIZE as nat, |i: int| 0u8));
        m
    }

    /// The bytes of the buffer.
    pub fn contents(&self) -> (b: &Vec<u8>)
        ensures
            b@ == self@,
    {
        &self.bytes
    }

    /// Copies from `reader` into the buffer at `offset`, as many bytes as the
    /// reader advertises and the buffer has room for from `offset` on, and
    /// returns that count. A fault in the reader fails the call; the bytes
    /// copied before it stay in the buffer.
    pub fn write(&mut self, offset: u64, reader: &mut UserSliceReader) -> (r: Result<usize, DeviceError>)
        requires
            old(self).wf(),
            old(reader).wf(),
        ensures
            final(self).wf(),
            final(reader).wf(),
            final(reader).data() == old(reader).data(),
            final(reader).accessible() == old(reader).accessible(),
            offset >= GLOBALMEM_SIZE ==> r == Ok::<usize, DeviceError>(0) && final(self)@ == old(self)@,
            ({
                let n = transfer_len(offset as int, old(reader).remaining().len() as int);
                let fits = old(reader).pos() + n <= old(reader).accessible();
                &&& fits ==> r == Ok::<usize, DeviceError>(n as usize)
                    && final(self)@ == write_result(old(self)@, offset as int, old(reader).remaining())
                    && final(reader).pos() == old(reader).pos() + n
                &&& !fits ==> r == Err::<usize, DeviceError>(DeviceError::TransferFailure)
                    && final(self)@ == overwrite(
                        old(self)@,
                        offset as int,
                        old(reader).remaining().take(old(reader).accessible() - old(reader).pos()),
                    )
                    && final(reader).pos() == old(reader).pos()
            }),
    {
        let (at, room): (usize, usize) = if offset >= GLOBALMEM_SIZE as u64 {
            (GLOBALMEM_SIZE, 0)
        } else {
            (offset as usize, GLOBALMEM_SIZE - offset as usize)
        };
        let len = reader.len().min(room);
        let res = reader.read_slice(&mut self.bytes, at, len);
        proof {
            let s = old(reader).remaining();
            assert(s.take(len as int) == s.take(transfer_len(offset as int, s.len() as int)));
            if offset >= GLOBALMEM_SIZE {
                assert(overwrite(old(self)@, at as int, s.take(0)) =~= old(self)@);
                assert(overwrite(old(self)@, offset as int, s.take(0)) =~= old(self)@);
            }
        }
        match res {
            Ok(()) => Ok(len),
            Err(e) => Err(e),
        }
    }

    /// Copies from the buffer at `offset` into `writer`, as many bytes as the
    /// writer has room for and the buffer holds from `offset` on, and returns
    /// that count. A fault in the writer fails the call; the bytes copied
    /// before it stay in the writer. The buffer is not changed.
    pub fn read(&self, offset: u64, writer: &mut UserSliceWriter) -> (r: Result<usize, DeviceError>)
        requires
            self.wf(),
            old(writer).wf(),
        ensures
            final(writer).wf(),
            final(writer).capacity() == old(writer).capacity(),
            final(writer).accessible() == old(writer).accessible(),
            offset >= GLOBALMEM_SIZE ==> r == Ok::<usize, DeviceError>(0) && final(writer).written()
                == old(writer).written(),
            ({
                let n = transfer_len(offset as int, old(writer).room() as int);
                let fits = old(writer).written().len() + n <= old(writer).accessible();
                &&& fits ==> r == Ok::<usize, DeviceError>(n as usize) && final(writer).written()
                    == old(writer).written() + read_result(self@, offset as int, old(writer).room() as int)
                &&& !fits ==> r == Err::<usize, DeviceError>(DeviceError::TransferFailure)
                    && final(writer).written() == old(writer).written() + self@.subrange(
                        offset as int,
                        offset + old(writer).accessible() - old(writer).written().len(),
                    )
            }),
    {
        let (at, room): (usize, usize) = if offset >= GLOBALMEM_SIZE as u64 {
            (GLOBALMEM_SIZE, 0)
        } else {
            (offset as usize, GLOBALMEM_SIZE - offset as usize)
        };
        let len = writer.len().min(room);
        let res = writer.write_slice(&self.bytes, at, len);
        proof {
            if offset >= GLOBALMEM_SIZE {
                assert(self@.subrange(at as int, at as int) =~= Seq::<u8>::empty());
                assert(old(writer).written() + Seq::<u8>::empty() =~= old(writer).written());
            }
        }
        match res {
            Ok(()) => Ok(len),
            Err(e) => Err(e),
        }
    }
}

/// Reading back what was just written, at the same offset and for its
/// length, gives exactly the written bytes, wherever they fit the buffer.
pub proof fn lemma_write_then_read(buf: Seq<u8>, offset: int, s: Seq<u8>)
    requires
        buf.len() == GLOBALMEM_SIZE,
        0 <= offset,
        offset + s.len() <= GLOBALMEM_SIZE,
    ensures
        read_result(write_result(buf, offset, s), offset, s.len() as int) == s,
{
    if offset < GLOBALMEM_SIZE {
        assert(read_result(write_result(buf, offset, s), offset, s.len() as int) =~= s);
    } else {
        assert(s =~= Seq::<u8>::empty());
    }
}

/// Two writes to disjoint ranges of the buffer give the same buffer in
/// either order, and each range then holds the bytes written to it: however
/// the lock orders them, neither disturbs the other.
pub proof fn lemma_disjoint_writes(buf: Seq<u8>, o1: int, s1: Seq<u8>, o2: int, s2: Seq<u8>)
    requires
        buf.len() == GLOBALMEM_SIZE,
        0 <= o1,
        0 <= o2,
        o1 + s1.len() <= GLOBALMEM_SIZE,
        o2 + s2.len() <= GLOBALMEM_SIZE,
        o1 + s1.len() <= o2 || o2 + s2.len() <= o1,
    ensures
        write_result(write_result(buf, o1, s1), o2, s2) == write_result(write_result(buf, o2, s2), o1, s1),
        read_result(write_result(write_result(buf, o1, s1), o2, s2), o1, s1.len() as int) == s1,
        read_result(write_result(write_result(buf, o1, s1), o2, s2), o2, s2.len() as int) == s2,
{
    let both = write_result(write_result(buf, o1, s1), o2, s2);
    assert(both =~= write_result(write_result(buf, o2, s2), o1, s1));
    if o1 < GLOBALMEM_SIZE {
        assert(read_result(both, o1, s1.len() as int) =~= s1);
    } else {
        assert(s1 =~= Seq::<u8>::empty());
    }
    if o2 < GLOBALMEM_SIZE {
        assert(read_result(both, o2, s2.len() as int) =~= s2);
    } else {
        assert(s2 =~= Seq::<u8>::empty());
    }
}

} // verus!
