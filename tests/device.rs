use globalmem::{
    DeviceError, DeviceHandle, DeviceRegistry, SharedBuffer, UserSliceReader, UserSliceWriter,
    GLOBALMEM_SIZE,
};

#[test]
fn shared_buffer_starts_zeroed() {
    let buf = SharedBuffer::new();
    let snap = buf.snapshot();
    assert_eq!(snap.len(), GLOBALMEM_SIZE);
    assert!(snap.iter().all(|b| *b == 0));
    let h = DeviceHandle::open(&buf);
    let mut w = UserSliceWriter::new(10);
    assert_eq!(h.read(0, &mut w), Ok(10));
    assert_eq!(w.bytes(), &vec![0u8; 10]);
}

#[test]
fn handle_write_near_end() {
    let buf = SharedBuffer::new();
    let h = DeviceHandle::open(&buf);
    let mut reader = UserSliceReader::new(vec![1, 2, 3]);
    assert_eq!(h.write(4094, &mut reader), Ok(2));
    assert_eq!(&buf.snapshot()[4094..4096], &[1u8, 2][..]);
}

#[test]
fn handle_offsets_past_end() {
    let buf = SharedBuffer::new();
    let h = DeviceHandle::open(&buf);
    let mut reader = UserSliceReader::new(vec![1, 2, 3]);
    assert_eq!(h.write(5000, &mut reader), Ok(0));
    let mut w = UserSliceWriter::new(3);
    assert_eq!(h.read(4096, &mut w), Ok(0));
    assert!(w.bytes().is_empty());
}

#[test]
fn write_through_one_minor_reads_through_another() {
    let buf = SharedBuffer::new();
    let reg = DeviceRegistry::new(&buf, 2);
    assert_eq!(reg.minor_count(), 2);
    let a = reg.open(0).unwrap();
    let b = reg.open(1).unwrap();
    let mut reader = UserSliceReader::new(b"hello".to_vec());
    assert_eq!(a.write(64, &mut reader), Ok(5));
    let mut w = UserSliceWriter::new(5);
    assert_eq!(b.read(64, &mut w), Ok(5));
    assert_eq!(w.bytes(), &b"hello".to_vec());
}

#[test]
fn registry_opens_only_registered_minors() {
    let buf = SharedBuffer::new();
    let mut reg = DeviceRegistry::new(&buf, 2);
    assert!(reg.open(2).is_none());
    let h = reg.open(1).unwrap();
    reg.unregister();
    assert!(reg.open(0).is_none());
    let mut reader = UserSliceReader::new(vec![8]);
    assert_eq!(h.write(0, &mut reader), Ok(1));
    assert_eq!(buf.snapshot()[0], 8);
}

#[test]
fn sessions_writing_disjoint_ranges_see_their_own_bytes() {
    let buf = SharedBuffer::new();
    let reg = DeviceRegistry::new(&buf, 2);
    let handles: Vec<DeviceHandle> = (0..8u32).map(|i| reg.open(i % 2).unwrap()).collect();
    for (i, h) in handles.iter().enumerate() {
        let mut reader = UserSliceReader::new(vec![i as u8 + 1; 512]);
        assert_eq!(h.write((i * 512) as u64, &mut reader), Ok(512));
    }
    for (i, h) in handles.iter().enumerate().rev() {
        let mut w = UserSliceWriter::new(512);
        assert_eq!(h.read((i * 512) as u64, &mut w), Ok(512));
        assert_eq!(w.bytes(), &vec![i as u8 + 1; 512]);
    }
}

#[test]
fn shared_read_fault_is_an_error() {
    let buf = SharedBuffer::new();
    let h = DeviceHandle::open(&buf);
    let mut w = UserSliceWriter::with_fault(8, 4);
    assert_eq!(h.read(0, &mut w), Err(DeviceError::TransferFailure));
    let mut reader = UserSliceReader::with_fault(vec![1, 2, 3], 0);
    assert_eq!(h.write(0, &mut reader), Err(DeviceError::TransferFailure));
}
