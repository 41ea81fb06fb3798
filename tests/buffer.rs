use globalmem::{DeviceError, GlobalMem, UserSliceReader, UserSliceWriter, GLOBALMEM_SIZE};

fn read_at(mem: &GlobalMem, offset: u64, len: usize) -> (Result<usize, DeviceError>, Vec<u8>) {
    let mut w = UserSliceWriter::new(len);
    let r = mem.read(offset, &mut w);
    (r, w.bytes().clone())
}

#[test]
fn fresh_buffer_reads_zeroes() {
    let mem = GlobalMem::new();
    let (r, bytes) = read_at(&mem, 0, 10);
    assert_eq!(r, Ok(10));
    assert_eq!(bytes, vec![0u8; 10]);
}

#[test]
fn write_near_end_is_cut() {
    let mut mem = GlobalMem::new();
    let mut reader = UserSliceReader::new(vec![1, 2, 3]);
    assert_eq!(mem.write(4094, &mut reader), Ok(2));
    assert_eq!(&mem.contents()[4094..4096], &[1u8, 2][..]);
    assert_eq!(reader.len(), 1);
}

#[test]
fn offsets_past_end_move_nothing() {
    let mut mem = GlobalMem::new();
    for offset in [4096u64, 4097, 10_000, u64::MAX] {
        let mut reader = UserSliceReader::new(vec![9, 9, 9]);
        assert_eq!(mem.write(offset, &mut reader), Ok(0));
        assert_eq!(reader.len(), 3);
        let (r, bytes) = read_at(&mem, offset, 8);
        assert_eq!(r, Ok(0));
        assert!(bytes.is_empty());
    }
    assert!(mem.contents().iter().all(|b| *b == 0));
}

#[test]
fn write_count_is_min_of_length_and_room() {
    let mut mem = GlobalMem::new();
    let mut reader = UserSliceReader::new(vec![7u8; 100]);
    assert_eq!(mem.write(4000, &mut reader), Ok(96));
    assert!(mem.contents()[4000..4096].iter().all(|b| *b == 7));
    assert_eq!(mem.contents()[3999], 0);

    let mut reader = UserSliceReader::new(vec![5u8; 100]);
    assert_eq!(mem.write(10, &mut reader), Ok(100));
    assert!(mem.contents()[10..110].iter().all(|b| *b == 5));
    assert_eq!(mem.contents()[9], 0);
    assert_eq!(mem.contents()[110], 0);
}

#[test]
fn write_then_read_round_trips() {
    let mut mem = GlobalMem::new();
    let data: Vec<u8> = (0..200u32).map(|i| (i * 7 % 256) as u8).collect();
    let mut reader = UserSliceReader::new(data.clone());
    assert_eq!(mem.write(1234, &mut reader), Ok(200));
    let (r, bytes) = read_at(&mem, 1234, 200);
    assert_eq!(r, Ok(200));
    assert_eq!(bytes, data);
}

#[test]
fn round_trip_fills_to_the_end() {
    let mut mem = GlobalMem::new();
    let data = vec![0xabu8; 16];
    let mut reader = UserSliceReader::new(data.clone());
    assert_eq!(mem.write((GLOBALMEM_SIZE - 16) as u64, &mut reader), Ok(16));
    let (r, bytes) = read_at(&mem, (GLOBALMEM_SIZE - 16) as u64, 64);
    assert_eq!(r, Ok(16));
    assert_eq!(bytes, data);
}

#[test]
fn disjoint_writes_keep_their_bytes() {
    let mut mem = GlobalMem::new();
    let mut a = UserSliceReader::new(vec![1u8; 50]);
    let mut b = UserSliceReader::new(vec![2u8; 50]);
    assert_eq!(mem.write(100, &mut a), Ok(50));
    assert_eq!(mem.write(150, &mut b), Ok(50));
    assert_eq!(read_at(&mem, 100, 50).1, vec![1u8; 50]);
    assert_eq!(read_at(&mem, 150, 50).1, vec![2u8; 50]);
}

#[test]
fn faulting_reader_fails_write_and_keeps_prefix() {
    let mut mem = GlobalMem::new();
    let mut reader = UserSliceReader::with_fault(vec![4, 5, 6, 7], 2);
    assert_eq!(mem.write(0, &mut reader), Err(DeviceError::TransferFailure));
    assert_eq!(&mem.contents()[0..4], &[4u8, 5, 0, 0][..]);
    assert_eq!(reader.len(), 4);
}

#[test]
fn fault_beyond_the_copied_part_does_not_fail() {
    let mut mem = GlobalMem::new();
    let mut reader = UserSliceReader::with_fault(vec![4, 5, 6, 7], 2);
    assert_eq!(mem.write(4094, &mut reader), Ok(2));
    assert_eq!(&mem.contents()[4094..4096], &[4u8, 5][..]);
}

#[test]
fn faulting_writer_fails_read_and_keeps_prefix() {
    let mut mem = GlobalMem::new();
    let mut reader = UserSliceReader::new(vec![1, 2, 3, 4, 5]);
    assert_eq!(mem.write(20, &mut reader), Ok(5));
    let mut w = UserSliceWriter::with_fault(5, 3);
    assert_eq!(mem.read(20, &mut w), Err(DeviceError::TransferFailure));
    assert_eq!(w.bytes(), &vec![1u8, 2, 3]);
}

#[test]
fn reader_and_writer_report_lengths() {
    let reader = UserSliceReader::new(vec![0u8; 12]);
    assert_eq!(reader.len(), 12);
    let w = UserSliceWriter::new(30);
    assert_eq!(w.len(), 30);
    let w = UserSliceWriter::with_fault(30, 100);
    assert_eq!(w.len(), 30);
}
