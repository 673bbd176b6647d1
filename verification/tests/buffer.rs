//! Tests of the ring buffer: cursors, views, wrap-around and failure modes.

use shared::buffer::{BufferError, ZeroCopyBuffer, BUFFER_SIZE};

#[test]
fn test_new_buffer_is_empty() {
    let buffer = ZeroCopyBuffer::new();
    assert!(buffer.is_empty());
    assert!(!buffer.is_full());
    assert_eq!(buffer.readable_len(), 0);
    assert_eq!(buffer.writable_len(), BUFFER_SIZE - 1);
}

#[test]
fn test_write_and_read() {
    let mut buffer = ZeroCopyBuffer::new();

    // Write some data
    let data = b"Hello, World!";
    let written = buffer.write(data).unwrap();
    assert_eq!(written, data.len());
    assert_eq!(buffer.readable_len(), data.len());

    // Read it back
    let mut read_buf = vec![0u8; 20];
    let read_len = buffer.read(&mut read_buf).unwrap();
    assert_eq!(read_len, data.len());
    assert_eq!(&read_buf[..read_len], data);

    // Buffer should be empty now
    assert!(buffer.is_empty());
}

#[test]
fn test_wrap_around() {
    let mut buffer = ZeroCopyBuffer::new();

    // Fill most of the buffer
    let large_data = [0xABu8; BUFFER_SIZE - 100];
    buffer.write(&large_data).unwrap();

    // Read most of it back
    let mut read_buf = vec![0u8; BUFFER_SIZE - 200];
    buffer.read(&mut read_buf).unwrap();

    // Now write more data that will wrap around
    let wrap_data = [0xCDu8; 150];
    buffer.write(&wrap_data).unwrap();

    // Read it back and verify
    let mut final_buf = vec![0u8; 150];
    let read_len = buffer.read(&mut final_buf).unwrap();
    assert!(read_len > 0);
}

#[test]
fn test_overflow_error() {
    let mut buffer = ZeroCopyBuffer::new();

    // Try to write more than capacity
    let huge_data = [0u8; BUFFER_SIZE + 100];
    let result = buffer.write(&huge_data);
    assert!(matches!(result, Err(BufferError::Overflow)));
}

#[test]
fn test_zero_copy_read() {
    let mut buffer = ZeroCopyBuffer::new();

    let data = b"Zero-copy test";
    buffer.write(data).unwrap();

    // Get zero-copy slice
    let slice = buffer.readable_slice(data.len()).unwrap();
    assert_eq!(slice, data);

    // Consume the data
    buffer.consume(data.len()).unwrap();
    assert!(buffer.is_empty());
}

#[test]
fn wrap_around_scenario() {
    // Write BUFFER_SIZE - 100 patterned bytes, read back BUFFER_SIZE - 200,
    // write 150 more (forcing the write cursor past the end of the store):
    // what remains must come back as exactly the unread 100 bytes of the
    // first write followed by the 150 new bytes, in order — and the final
    // 150 bytes read are exactly the last-written 150 bytes.
    let mut buffer = ZeroCopyBuffer::new();

    let first: Vec<u8> = (0..BUFFER_SIZE - 100).map(|i| (i % 251) as u8).collect();
    assert_eq!(buffer.write(&first).unwrap(), first.len());

    let mut drained = vec![0u8; BUFFER_SIZE - 200];
    assert_eq!(buffer.read(&mut drained).unwrap(), BUFFER_SIZE - 200);
    assert_eq!(&drained[..], &first[..BUFFER_SIZE - 200]);

    let second: Vec<u8> = (0..150).map(|i| 255 - (i % 97) as u8).collect();
    assert_eq!(buffer.write(&second).unwrap(), 150);
    assert_eq!(buffer.readable_len(), 250);

    let mut rest = vec![0u8; 250];
    assert_eq!(buffer.read(&mut rest).unwrap(), 250);
    assert_eq!(&rest[..100], &first[BUFFER_SIZE - 200..]);
    assert_eq!(&rest[100..], &second[..]);
    assert!(buffer.is_empty());
}

#[test]
fn capacity_partition_holds_at_every_step() {
    let mut buffer = ZeroCopyBuffer::new();
    assert_eq!(buffer.readable_len() + buffer.writable_len(), BUFFER_SIZE - 1);
    buffer.write(&[1, 2, 3]).unwrap();
    assert_eq!(buffer.readable_len() + buffer.writable_len(), BUFFER_SIZE - 1);
    let mut sink = vec![0u8; 2];
    buffer.read(&mut sink).unwrap();
    assert_eq!(buffer.readable_len() + buffer.writable_len(), BUFFER_SIZE - 1);
    buffer.reset();
    assert_eq!(buffer.readable_len() + buffer.writable_len(), BUFFER_SIZE - 1);
}

#[test]
fn overflowing_write_commits_nothing() {
    let mut buffer = ZeroCopyBuffer::new();
    buffer.write(b"abc").unwrap();
    let offset_before = buffer.write_offset();
    let readable_before = buffer.readable_len();

    // Writable space is BUFFER_SIZE - 1 - 3; one byte more must fail whole.
    let too_much = vec![0x55u8; BUFFER_SIZE - 3];
    assert_eq!(buffer.write(&too_much), Err(BufferError::Overflow));

    assert_eq!(buffer.write_offset(), offset_before);
    assert_eq!(buffer.readable_len(), readable_before);
    let mut out = vec![0u8; 3];
    assert_eq!(buffer.read(&mut out).unwrap(), 3);
    assert_eq!(&out[..], b"abc");
}

#[test]
fn commit_and_consume_guard_their_bounds() {
    let mut buffer = ZeroCopyBuffer::new();
    assert_eq!(buffer.consume(1), Err(BufferError::Underflow));
    assert_eq!(buffer.commit(BUFFER_SIZE), Err(BufferError::Overflow));
    assert_eq!(buffer.commit(5), Ok(()));
    assert_eq!(buffer.readable_len(), 5);
    assert_eq!(buffer.consume(6), Err(BufferError::Underflow));
    assert_eq!(buffer.consume(5), Ok(()));
    assert!(buffer.is_empty());
}

#[test]
fn writable_ranges_and_write_at_fill_the_buffer() {
    let mut buffer = ZeroCopyBuffer::new();

    // Move both cursors near the end of the store so the next span wraps.
    let pad = vec![0u8; BUFFER_SIZE - 10];
    buffer.write(&pad).unwrap();
    let mut sink = vec![0u8; BUFFER_SIZE - 10];
    buffer.read(&mut sink).unwrap();
    assert!(buffer.is_empty());
    assert_eq!(buffer.write_offset(), BUFFER_SIZE - 10);

    let ((start1, len1), (start2, len2)) = buffer.writable_ranges(25).unwrap();
    assert_eq!(start1, BUFFER_SIZE - 10);
    assert_eq!(len1, 10);
    assert_eq!(start2, 0);
    assert_eq!(len2, 15);

    let mut produced = Vec::new();
    for i in 0..len1 {
        buffer.write_at(start1 + i, i as u8);
        produced.push(i as u8);
    }
    for i in 0..len2 {
        buffer.write_at(start2 + i, 100 + i as u8);
        produced.push(100 + i as u8);
    }
    buffer.commit(25).unwrap();

    let mut out = vec![0u8; 25];
    assert_eq!(buffer.read(&mut out).unwrap(), 25);
    assert_eq!(out, produced);
}

#[test]
fn writable_ranges_reports_overflow_when_full() {
    let mut buffer = ZeroCopyBuffer::new();
    let fill = vec![0x11u8; BUFFER_SIZE - 1];
    buffer.write(&fill).unwrap();
    assert!(buffer.is_full());
    assert_eq!(buffer.writable_ranges(1), Err(BufferError::Overflow));
}

#[test]
fn readable_slice_stops_at_the_store_end() {
    let mut buffer = ZeroCopyBuffer::new();
    let pad = vec![0u8; BUFFER_SIZE - 5];
    buffer.write(&pad).unwrap();
    let mut sink = vec![0u8; BUFFER_SIZE - 5];
    buffer.read(&mut sink).unwrap();

    // Ten bytes that wrap: five before the end, five after.
    buffer.write(&[1, 2, 3, 4, 5, 6, 7, 8, 9, 10]).unwrap();

    assert!(buffer.readable_slice(0).is_some());
    let first = buffer.readable_slice(10).unwrap();
    assert_eq!(first, &[1, 2, 3, 4, 5]);
    buffer.consume(first.len()).unwrap();
    let second = buffer.readable_slice(10).unwrap();
    assert_eq!(second, &[6, 7, 8, 9, 10]);
    buffer.consume(second.len()).unwrap();
    assert!(buffer.readable_slice(1).is_none());
}

#[test]
fn readable_split_spans_the_wrap() {
    let mut buffer = ZeroCopyBuffer::new();
    let pad = vec![0u8; BUFFER_SIZE - 4];
    buffer.write(&pad).unwrap();
    let mut sink = vec![0u8; BUFFER_SIZE - 4];
    buffer.read(&mut sink).unwrap();

    buffer.write(&[10, 20, 30, 40, 50, 60]).unwrap();
    let view = buffer.readable_split(6);
    assert_eq!(view.len(), 6);
    assert!(!view.is_empty());
    assert_eq!(view.first, &[10, 20, 30, 40]);
    assert_eq!(view.second, &[50, 60]);

    let empty = ZeroCopyBuffer::new();
    let view = empty.readable_split(16);
    assert!(view.is_empty());
    assert_eq!(view.len(), 0);
}

#[test]
fn reset_empties_the_buffer() {
    let mut buffer = ZeroCopyBuffer::new();
    buffer.write(b"some bytes").unwrap();
    buffer.reset();
    assert!(buffer.is_empty());
    assert_eq!(buffer.write_offset(), 0);
    assert_eq!(buffer.capacity(), BUFFER_SIZE);
}
