//! Tests of the forwarding layer, with in-memory mock endpoints.

use shared::buffer::BufferError;
use shared::buffer::ZeroCopyBuffer;
use shared::forward::{
    resolve_outcomes, DataForwarder, EndpointReader, EndpointWriter, ForwarderConfig,
    ForwarderError, ForwarderResult, ForwarderState, ForwardingStats,
};

/// A reader that hands out queued chunks, one per call.
struct MockReader {
    chunks: Vec<Vec<u8>>,
    next: usize,
    connected: bool,
    fail_with: Option<ForwarderError>,
}

impl MockReader {
    fn new(chunks: Vec<Vec<u8>>) -> Self {
        MockReader { chunks, next: 0, connected: true, fail_with: None }
    }

    fn idle() -> Self {
        MockReader::new(Vec::new())
    }
}

impl EndpointReader for MockReader {
    fn read_into_buffer(&mut self, buffer: &mut ZeroCopyBuffer) -> ForwarderResult<usize> {
        if let Some(e) = self.fail_with {
            return Err(e);
        }
        if self.next >= self.chunks.len() {
            return Ok(0);
        }
        let chunk = self.chunks[self.next].clone();
        self.next += 1;
        buffer.write(&chunk).map_err(|_| ForwarderError::BufferOverflow)?;
        Ok(chunk.len())
    }

    fn read_into_slice(&mut self, buf: &mut Vec<u8>) -> ForwarderResult<usize> {
        if self.next >= self.chunks.len() {
            return Ok(0);
        }
        let chunk = &self.chunks[self.next];
        let n = chunk.len().min(buf.len());
        buf[..n].copy_from_slice(&chunk[..n]);
        self.next += 1;
        Ok(n)
    }

    fn is_connected(&self) -> bool {
        self.connected
    }

    fn max_packet_size(&self) -> usize {
        512
    }
}

/// A writer that records what it accepted, with a per-call acceptance cap.
struct MockWriter {
    written: Vec<u8>,
    accept_at_most: usize,
    connected: bool,
}

impl MockWriter {
    fn new() -> Self {
        MockWriter { written: Vec::new(), accept_at_most: usize::MAX, connected: true }
    }
}

impl EndpointWriter for MockWriter {
    fn write_from_buffer(&mut self, buffer: &ZeroCopyBuffer, len: usize) -> ForwarderResult<usize> {
        let view = buffer.readable_slice(len);
        match view {
            Some(s) => {
                let n = s.len().min(self.accept_at_most);
                self.written.extend_from_slice(&s[..n]);
                Ok(n)
            }
            None => Ok(0),
        }
    }

    fn write_from_slice(&mut self, data: &[u8]) -> ForwarderResult<usize> {
        let n = data.len().min(self.accept_at_most);
        self.written.extend_from_slice(&data[..n]);
        Ok(n)
    }

    fn flush(&mut self) -> ForwarderResult<()> {
        Ok(())
    }

    fn is_connected(&self) -> bool {
        self.connected
    }
}

#[test]
fn test_forwarder_config_default() {
    let config = ForwarderConfig::default();
    assert_eq!(config.read_timeout_ms, 1000);
    assert_eq!(config.write_timeout_ms, 1000);
    assert!(config.enable_stats);
    assert_eq!(config.max_retries, 3);
}

#[test]
fn forwarding_stats_default_is_zero() {
    let stats = ForwardingStats::default();
    assert_eq!(stats.usb_to_wifi_bytes, 0);
    assert_eq!(stats.wifi_to_usb_bytes, 0);
    assert_eq!(stats.usb_reads, 0);
    assert_eq!(stats.wifi_reads, 0);
    assert_eq!(stats.overflows, 0);
    assert_eq!(stats.usb_to_wifi_buffer_used, 0);
    assert_eq!(stats.wifi_to_usb_buffer_used, 0);
}

#[test]
fn forwards_bytes_usb_to_wifi() {
    let mut forwarder = DataForwarder::new(
        MockReader::new(vec![b"hello ".to_vec(), b"world".to_vec()]),
        MockWriter::new(),
        MockReader::idle(),
        MockWriter::new(),
    );
    assert_eq!(forwarder.state, ForwarderState::Idle);

    assert_eq!(forwarder.forward_usb_to_wifi().unwrap(), 6);
    assert_eq!(forwarder.forward_usb_to_wifi().unwrap(), 5);
    assert_eq!(forwarder.forward_usb_to_wifi().unwrap(), 0);

    assert_eq!(&forwarder.wifi_writer.written, b"hello world");
    let stats = forwarder.stats();
    assert_eq!(stats.usb_to_wifi_bytes, 11);
    assert_eq!(stats.usb_reads, 2);
    assert_eq!(stats.wifi_to_usb_bytes, 0);
    assert_eq!(stats.usb_to_wifi_buffer_used, 0);
}

#[test]
fn idle_reads_leave_cursors_unchanged() {
    // A source with no data: the step is a no-op success, and both the
    // buffer cursors and the statistics stay exactly as they were.
    let mut forwarder = DataForwarder::new(
        MockReader::idle(),
        MockWriter::new(),
        MockReader::idle(),
        MockWriter::new(),
    );
    let offset_before = forwarder.usb_to_wifi.write_offset();
    assert_eq!(forwarder.forward_usb_to_wifi().unwrap(), 0);
    assert_eq!(forwarder.forward_usb_to_wifi().unwrap(), 0);
    assert_eq!(forwarder.usb_to_wifi.write_offset(), offset_before);
    assert_eq!(forwarder.usb_to_wifi.readable_len(), 0);
    assert_eq!(forwarder.stats().usb_reads, 0);
    assert_eq!(forwarder.stats().usb_to_wifi_bytes, 0);
}

#[test]
fn partial_write_keeps_the_remainder_in_order() {
    let mut writer = MockWriter::new();
    writer.accept_at_most = 4;
    let mut forwarder = DataForwarder::new(
        MockReader::new(vec![b"abcdefgh".to_vec()]),
        MockWriter::new(),
        MockReader::idle(),
        writer,
    );

    // The destination accepts only four bytes; the other four must stay
    // readable for the next step.
    assert_eq!(forwarder.forward_usb_to_wifi().unwrap(), 4);
    assert_eq!(forwarder.usb_to_wifi.readable_len(), 4);
    assert_eq!(forwarder.forward_usb_to_wifi().unwrap(), 0);

    // Once the source is idle the remainder still sits in the buffer;
    // drain it by hand and check the order survived.
    let mut rest = vec![0u8; 8];
    let n = forwarder.usb_to_wifi.read(&mut rest).unwrap();
    assert_eq!(&rest[..n], b"efgh");
    assert_eq!(&forwarder.wifi_writer.written, b"abcd");
}

#[test]
fn run_stops_on_disconnect() {
    let mut reader = MockReader::idle();
    reader.connected = false;
    let mut forwarder = DataForwarder::new(
        reader,
        MockWriter::new(),
        MockReader::idle(),
        MockWriter::new(),
    );
    assert_eq!(forwarder.run(100), Err(ForwarderError::Disconnected));
    assert_eq!(forwarder.state, ForwarderState::Disconnected);
}

#[test]
fn run_reports_a_read_failure() {
    let mut reader = MockReader::idle();
    reader.fail_with = Some(ForwarderError::UsbError);
    let mut forwarder = DataForwarder::new(
        reader,
        MockWriter::new(),
        MockReader::idle(),
        MockWriter::new(),
    );
    assert_eq!(forwarder.run(100), Err(ForwarderError::UsbError));
    assert_eq!(forwarder.state, ForwarderState::Failed);
}

#[test]
fn run_counts_a_pacing_mismatch() {
    let mut reader = MockReader::idle();
    reader.fail_with = Some(ForwarderError::BufferOverflow);
    let mut forwarder = DataForwarder::new(
        reader,
        MockWriter::new(),
        MockReader::idle(),
        MockWriter::new(),
    );
    assert_eq!(forwarder.run(100), Err(ForwarderError::BufferOverflow));
    assert_eq!(forwarder.state, ForwarderState::Failed);
    assert_eq!(forwarder.stats().overflows, 1);
}

#[test]
fn run_with_exhausted_budget_stays_running() {
    let mut forwarder = DataForwarder::new(
        MockReader::new(vec![b"data".to_vec()]),
        MockWriter::new(),
        MockReader::new(vec![b"back".to_vec()]),
        MockWriter::new(),
    );
    assert_eq!(forwarder.run(10), Ok(()));
    assert_eq!(forwarder.state, ForwarderState::Running);
    assert!(forwarder.is_connected());
    assert_eq!(&forwarder.wifi_writer.written, b"data");
    assert_eq!(&forwarder.usb_writer.written, b"back");
    let stats = forwarder.stats();
    assert_eq!(stats.usb_to_wifi_bytes, 4);
    assert_eq!(stats.wifi_to_usb_bytes, 4);
}

#[test]
fn disconnected_wins_over_other_errors() {
    let disconnected: ForwarderResult<usize> = Err(ForwarderError::Disconnected);
    let timeout: ForwarderResult<usize> = Err(ForwarderError::ReadTimeout);
    let fine: ForwarderResult<usize> = Ok(3);

    assert_eq!(resolve_outcomes(&timeout, &disconnected), Some(ForwarderError::Disconnected));
    assert_eq!(resolve_outcomes(&disconnected, &timeout), Some(ForwarderError::Disconnected));
    assert_eq!(resolve_outcomes(&fine, &timeout), Some(ForwarderError::ReadTimeout));
    assert_eq!(resolve_outcomes(&timeout, &fine), Some(ForwarderError::ReadTimeout));
    assert_eq!(resolve_outcomes(&fine, &fine), None);
}

#[test]
fn buffer_error_maps_into_forwarder_error() {
    assert_eq!(ForwarderError::from(BufferError::Overflow), ForwarderError::BufferOverflow);
    assert_eq!(ForwarderError::from(BufferError::Underflow), ForwarderError::BufferUnderflow);
    assert_eq!(
        ForwarderError::from(BufferError::SizeExceedsCapacity),
        ForwarderError::BufferOverflow
    );
}
