//! A fixed-size shared memory device: one 4096-byte buffer, guarded by a lock,
//! read and written through per-session handles at caller-chosen offsets, with
//! every transfer clamped to the end of the buffer.
use vstd::prelude::*;

pub mod device;
pub mod mem;
pub mod user_slice;

pub use device::{DeviceHandle, DeviceRegistry, SharedBuffer};
pub use mem::{GlobalMem, GLOBALMEM_SIZE};
pub use user_slice::{DeviceError, UserSliceReader, UserSliceWriter};

verus! {

} // verus!
