use blockdev_metadata::stream::{read_at, write_at, ByteStream, IoError, MemStream};

#[test]
fn mem_stream_reads_what_was_written() {
    let mut s = MemStream::new(vec![0u8; 16]);
    s.seek(4).unwrap();
    s.write_all(&[1, 2, 3]).unwrap();
    s.seek(3).unwrap();
    assert_eq!(s.read_exact(5).unwrap(), vec![0, 1, 2, 3, 0]);
    assert_eq!(s.get_ref().len(), 16);
    assert_eq!(s.into_inner(), vec![0, 0, 0, 0, 1, 2, 3, 0, 0, 0, 0, 0, 0, 0, 0, 0]);
}

#[test]
fn mem_stream_moves_behind_what_it_read_or_wrote() {
    let mut s = MemStream::new(vec![1, 2, 3, 4, 5, 6]);
    assert_eq!(s.read_exact(2).unwrap(), vec![1, 2]);
    assert_eq!(s.read_exact(2).unwrap(), vec![3, 4]);
    s.seek(1).unwrap();
    s.write_all(&[9]).unwrap();
    s.write_all(&[8]).unwrap();
    s.sync_all().unwrap();
    assert_eq!(s.read_exact(1).unwrap(), vec![4]);
    assert_eq!(s.get_ref(), &vec![1, 9, 8, 4, 5, 6]);
}

#[test]
fn mem_stream_does_not_grow() {
    let mut s = MemStream::new(vec![7u8; 4]);
    s.seek(2).unwrap();
    assert_eq!(s.write_all(&[1, 2, 3]), Err(IoError::WriteZero));
    assert_eq!(s.get_ref(), &vec![7u8; 4]);
    s.seek(2).unwrap();
    assert_eq!(s.read_exact(3), Err(IoError::UnexpectedEof));
    s.seek(9).unwrap();
    assert_eq!(s.read_exact(0), Err(IoError::UnexpectedEof));
    assert_eq!(s.write_all(&[]), Err(IoError::WriteZero));
}

#[test]
fn mem_stream_reaches_its_last_byte() {
    let mut s = MemStream::new(vec![0u8; 4]);
    s.seek(2).unwrap();
    assert_eq!(s.write_all(&[5, 6]), Ok(()));
    s.seek(4).unwrap();
    assert_eq!(s.read_exact(0), Ok(vec![]));
    assert_eq!(read_at(&mut s, 2, 2), Ok(vec![5, 6]));
    assert_eq!(read_at(&mut s, 3, 2), Err(IoError::UnexpectedEof));
    assert_eq!(write_at(&mut s, 0, &[1]), Ok(()));
    assert_eq!(write_at(&mut s, 4, &[1]), Err(IoError::WriteZero));
    assert_eq!(s.get_ref(), &vec![1, 0, 5, 6]);
}

#[test]
fn mem_stream_with_a_range_that_cannot_be_read() {
    let mut s = MemStream::with_unreadable(vec![1, 2, 3, 4, 5, 6], 2, 4);
    assert_eq!(read_at(&mut s, 0, 2), Ok(vec![1, 2]));
    assert_eq!(read_at(&mut s, 4, 2), Ok(vec![5, 6]));
    assert_eq!(read_at(&mut s, 1, 2), Err(IoError::Other));
    assert_eq!(read_at(&mut s, 3, 1), Err(IoError::Other));
    assert_eq!(read_at(&mut s, 0, 6), Err(IoError::Other));
    // A read of nothing touches nothing.
    assert_eq!(read_at(&mut s, 3, 0), Ok(vec![]));
    // Behind the end, the end is what fails.
    assert_eq!(read_at(&mut s, 3, 4), Err(IoError::UnexpectedEof));
    // It can be written all the same.
    assert_eq!(write_at(&mut s, 2, &[9, 9]), Ok(()));
    assert_eq!(read_at(&mut s, 2, 2), Err(IoError::Other));
    assert_eq!(s.get_ref(), &vec![1, 2, 9, 9, 5, 6]);
}

#[test]
fn mem_stream_with_an_empty_range_reads_everywhere() {
    let mut s = MemStream::with_unreadable(vec![1, 2, 3, 4], 3, 3);
    assert_eq!(read_at(&mut s, 0, 4), Ok(vec![1, 2, 3, 4]));
    let mut s = MemStream::with_unreadable(vec![1, 2, 3, 4], 3, 1);
    assert_eq!(read_at(&mut s, 0, 4), Ok(vec![1, 2, 3, 4]));
}

/// A stream that hands back one byte less than it was asked for.
struct ShortStream;

impl ByteStream for ShortStream {
    fn seek(&mut self, _offset: u64) -> Result<(), IoError> {
        Ok(())
    }

    fn read_exact(&mut self, len: u64) -> Result<Vec<u8>, IoError> {
        Ok(vec![0u8; (len as usize).saturating_sub(1)])
    }

    fn write_all(&mut self, _data: &[u8]) -> Result<(), IoError> {
        Ok(())
    }

    fn sync_all(&mut self) -> Result<(), IoError> {
        Ok(())
    }
}

#[test]
fn a_read_of_the_wrong_length_is_a_failure() {
    assert_eq!(read_at(&mut ShortStream, 0, 512), Err(IoError::UnexpectedEof));
}
