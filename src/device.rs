//! The device as sessions see it: one buffer behind one lock, handles that
//! refer to it, and a registry of minors that all open handles on it.
use vstd::prelude::*;
use vstd::rwlock::{RwLock, RwLockPredicate};

use crate::mem::{transfer_len, GlobalMem, GLOBALMEM_SIZE};
use crate::user_slice::{DeviceError, UserSliceReader, UserSliceWriter};

verus! {

/// What the lock keeps true of the buffer it guards: its fixed length.
pub struct BufferInvariant;

impl RwLockPredicate<GlobalMem> for BufferInvariant {
    open spec fn inv(self, v: GlobalMem) -> bool {
        v.wf()
    }
}

/// The one buffer of the device and its lock. Every access takes the lock
/// exclusively, readers included, so transfers never overlap; which of
/// several waiting callers goes first is up to the lock.
pub struct SharedBuffer {
    lock: RwLock<GlobalMem, BufferInvariant>,
}

impl SharedBuffer {
    /// A buffer of zero bytes, unlocked.
    pub fn new() -> (b: Self) {
        SharedBuffer { lock: RwLock::new(GlobalMem::new(), Ghost(BufferInvariant)) }
    }

    /// Writes from `reader` at `offset` under the lock and returns the count
    /// of bytes moved: what the reader advertises, cut at the end of the
    /// buffer. The call fails only where the reader faults within that count.
    /// Which bytes the buffer then holds is not stated here: other sessions
    /// may write to it before this call returns.
    pub fn write(&self, offset: u64, reader: &mut UserSliceReader) -> (r: Result<usize, DeviceError>)
        requires
            old(reader).wf(),
        ensures
            final(reader).wf(),
            final(reader).data() == old(reader).data(),
            final(reader).accessible() == old(reader).accessible(),
            offset >= GLOBALMEM_SIZE ==> r == Ok::<usize, DeviceError>(0),
            ({
                let n = transfer_len(offset as int, old(reader).remaining().len() as int);
                let fits = old(reader).pos() + n <= old(reader).accessible();
                &&& fits ==> r == Ok::<usize, DeviceError>(n as usize) && final(reader).pos() == old(
                    reader,
                ).pos() + n
                &&& !fits ==> r == Err::<usize, DeviceError>(DeviceError::TransferFailure)
                    && final(reader).pos() == old(reader).pos()
            }),
    {
        let (mut mem, guard) = self.lock.acquire_write();
        let r = mem.write(offset, reader);
        guard.release_write(mem);
        r
    }

    /// Reads from `offset` into `writer` under the lock and returns the count
    /// of bytes moved: the writer's room, cut at the end of the buffer. The
    /// call fails only where the writer faults within that count. Reading
    /// never changes the buffer.
    pub fn read(&self, offset: u64, writer: &mut UserSliceWriter) -> (r: Result<usize, DeviceError>)
        requires
            old(writer).wf(),
        ensures
            final(writer).wf(),
            final(writer).capacity() == old(writer).capacity(),
            final(writer).accessible() == old(writer).accessible(),
            offset >= GLOBALMEM_SIZE ==> r == Ok::<usize, DeviceError>(0) && final(writer).written()
                == old(writer).written(),
            ({
                let n = transfer_len(offset as int, old(writer).room() as int);
                let fits = old(writer).written().len() + n <= old(writer).accessible();
                &&& fits ==> r == Ok::<usize, DeviceError>(n as usize) && final(writer).written().len()
                    == old(writer).written().len() + n
                    && final(writer).written().take(old(writer).written().len() as int)
                    == old(writer).written()
                &&& !fits ==> r == Err::<usize, DeviceError>(DeviceError::TransferFailure)
            }),
    {
        let (mem, guard) = self.lock.acquire_write();
        let r = mem.read(offset, writer);
        proof {
            let w = old(writer).written();
            assert(final(writer).written().take(w.len() as int) =~= w);
        }
        guard.release_write(mem);
        r
    }

    /// A copy of the whole buffer, taken under the lock.
    pub fn snapshot(&self) -> (v: Vec<u8>)
        ensures
            v@.len() == GLOBALMEM_SIZE,
    {
        let (mem, guard) = self.lock.acquire_write();
        let v = mem.contents().clone();
        guard.release_write(mem);
        v
    }
}

/// One open session on the device. It refers to the shared buffer and holds
/// nothing of its own: dropping it leaves the buffer as it is.
pub struct DeviceHandle<'a> {
    inner: &'a SharedBuffer,
}

impl<'a> DeviceHandle<'a> {
    /// The buffer that this session reads and writes.
    pub closed spec fn shared(&self) -> SharedBuffer {
        *self.inner
    }

    /// Opens a session on `buffer`.
    pub fn open(buffer: &'a SharedBuffer) -> (h: Self)
        ensures
            h.shared() == *buffer,
    {
        DeviceHandle { inner: buffer }
    }

    /// Writes through the session's buffer; see [`SharedBuffer::write`].
    pub fn write(&self, offset: u64, reader: &mut UserSliceReader) -> (r: Result<usize, DeviceError>)
        requires
            old(reader).wf(),
        ensures
            final(reader).wf(),
            final(reader).data() == old(reader).data(),
            final(reader).accessible() == old(reader).accessible(),
            offset >= GLOBALMEM_SIZE ==> r == Ok::<usize, DeviceError>(0),
            ({
                let n = transfer_len(offset as int, old(reader).remaining().len() as int);
                let fits = old(reader).pos() + n <= old(reader).accessible();
                &&& fits ==> r == Ok::<usize, DeviceError>(n as usize) && final(reader).pos() == old(
                    reader,
                ).pos() + n
                &&& !fits ==> r == Err::<usize, DeviceError>(DeviceError::TransferFailure)
                    && final(reader).pos() == old(reader).pos()
            }),
    {
        self.inner.write(offset, reader)
    }

    /// Reads through the session's buffer; see [`SharedBuffer::read`].
    pub fn read(&self, offset: u64, writer: &mut UserSliceWriter) -> (r: Result<usize, DeviceError>)
        requires
            old(writer).wf(),
        ensures
            final(writer).wf(),
            final(writer).capacity() == old(writer).capacity(),
            final(writer).accessible() == old(writer).accessible(),
            offset >= GLOBALMEM_SIZE ==> r == Ok::<usize, DeviceError>(0) && final(writer).written()
                == old(writer).written(),
            ({
                let n = transfer_len(offset as int, old(writer).room() as int);
                let fits = old(writer).written().len() + n <= old(writer).accessible();
                &&& fits ==> r == Ok::<usize, DeviceError>(n as usize) && final(writer).written().len()
                    == old(writer).written().len() + n
                    && final(writer).written().take(old(writer).written().len() as int)
                    == old(writer).written()
                &&& !fits ==> r == Err::<usize, DeviceError>(DeviceError::TransferFailure)
            }),
    {
        self.inner.read(offset, writer)
    }
}

/// The device minors, all backed by one shared buffer. Once unregistered,
/// it opens no more sessions.
pub struct DeviceRegistry<'a> {
    buffer: &'a SharedBuffer,
    minors: u32,
    registered: bool,
}

impl<'a> DeviceRegistry<'a> {
    /// The buffer behind every minor.
    pub closed spec fn shared(&self) -> SharedBuffer {
        *self.buffer
    }

    pub closed spec fn minor_count_spec(&self) -> nat {
        self.minors as nat
    }

    pub closed spec fn is_registered(&self) -> bool {
        self.registered
    }

    /// Registers minors `0..minors`, each backed by `buffer`.
    pub fn new(buffer: &'a SharedBuffer, minors: u32) -> (reg: Self)
        ensures
            reg.shared() == *buffer,
            reg.minor_count_spec() == minors,
            reg.is_registered(),
    {
        DeviceRegistry { buffer, minors, registered: true }
    }

    /// Number of minors registered.
    pub fn minor_count(&self) -> (n: u32)
        ensures
            n == self.minor_count_spec(),
    {
        self.minors
    }

    /// Opens a session on `minor`: one exists exactly for each registered
    /// minor while the registry stands, and every one of them refers to the
    /// same buffer, so what one minor writes, another reads.
    pub fn open(&self, minor: u32) -> (h: Option<DeviceHandle<'a>>)
        ensures
            h is Some <==> self.is_registered() && minor < self.minor_count_spec(),
            h matches Some(handle) ==> handle.shared() == self.shared(),
    {
        if self.registered && minor < self.minors {
            Some(DeviceHandle::open(self.buffer))
        } else {
            None
        }
    }

    /// Withdraws every minor: no session opens afterwards. Sessions already
    /// open keep their buffer.
    pub fn unregister(&mut self)
        ensures
            !final(self).is_registered(),
            final(self).shared() == old(self).shared(),
            final(self).minor_count_spec() == old(self).minor_count_spec(),
    {
        self.registered = false;
    }
}

} // verus!
