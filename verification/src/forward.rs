//! Transport-agnostic forwarding: capability interfaces for readable and
//! writable endpoints, and a composition that drains each endpoint into a
//! ring buffer and the buffer into the opposite endpoint, in both
//! directions, until disconnection.

use vstd::prelude::*;

use crate::buffer::{BufferError, ZeroCopyBuffer};

verus! {

/// Errors that can occur during data forwarding operations.
#[derive(Debug, Clone, Copy, PartialEq, Eq, Structural)]
pub enum ForwarderError {
    /// The underlying transport is disconnected.
    Disconnected,
    /// Read operation timed out.
    ReadTimeout,
    /// Write operation timed out.
    WriteTimeout,
    /// Buffer overflow: data arrived faster than it could be processed.
    BufferOverflow,
    /// Buffer underflow: attempted to read from an empty buffer.
    BufferUnderflow,
    /// Invalid data or protocol error.
    ProtocolError,
    /// USB-specific transport error.
    UsbError,
    /// WiFi-specific transport error.
    WifiError,
    /// Generic I/O error.
    IoError,
}

/// Result type for forwarder operations.
pub type ForwarderResult<T> = Result<T, ForwarderError>;

/// The forwarder error a buffer error maps to.
pub open spec fn spec_buffer_error_to_forwarder(e: BufferError) -> ForwarderError {
    match e {
        BufferError::Overflow => ForwarderError::BufferOverflow,
        BufferError::Underflow => ForwarderError::BufferUnderflow,
        BufferError::SizeExceedsCapacity => ForwarderError::BufferOverflow,
    }
}

impl From<BufferError> for ForwarderError {
    fn from(e: BufferError) -> (r: Self) {
        match e {
            BufferError::Overflow => ForwarderError::BufferOverflow,
            BufferError::Underflow => ForwarderError::BufferUnderflow,
            BufferError::SizeExceedsCapacity => ForwarderError::BufferOverflow,
        }
    }
}

impl vstd::std_specs::convert::FromSpecImpl<BufferError> for ForwarderError {
    open spec fn obeys_from_spec() -> bool {
        true
    }

    open spec fn from_spec(e: BufferError) -> Self {
        spec_buffer_error_to_forwarder(e)
    }
}

/// Capability interface of a readable transport endpoint; USB and WiFi
/// drivers provide implementations.
pub trait EndpointReader {
    /// Read available bytes directly into the buffer's writable region and
    /// commit them. Returns the number of bytes committed. Obligations on
    /// every implementation: commit no more than the writable space,
    /// append the received bytes in arrival order, and leave the buffer
    /// exactly as it was when nothing arrived (a zero read is the normal
    /// idle case, not an error) or when the read failed.
    fn read_into_buffer(&mut self, buffer: &mut ZeroCopyBuffer) -> (r: ForwarderResult<usize>)
        requires
            old(buffer).wf(),
        ensures
            final(buffer).wf(),
            match r {
                Ok(n) => {
                    &&& n <= old(buffer).spec_writable_len()
                    &&& exists|s: Seq<u8>|
                        s.len() == n && final(buffer).readable() == old(buffer).readable() + s
                    &&& (n == 0 ==> *final(buffer) == *old(buffer))
                },
                Err(_) => *final(buffer) == *old(buffer),
            },
    ;

    /// Read available bytes into the front of `buf`, the copy fallback for
    /// transports without direct buffer access. Returns the number of
    /// bytes placed; bytes past that prefix are left as they were.
    fn read_into_slice(&mut self, buf: &mut Vec<u8>) -> (r: ForwarderResult<usize>)
        ensures
            final(buf)@.len() == old(buf)@.len(),
            match r {
                Ok(n) => n <= old(buf)@.len() && final(buf)@.skip(n as int) == old(buf)@.skip(
                    n as int,
                ),
                Err(_) => true,
            },
    ;

    /// Whether the endpoint is connected and ready.
    fn is_connected(&self) -> bool;

    /// The maximum packet size of this endpoint.
    fn max_packet_size(&self) -> usize;
}

/// Capability interface of a writable transport endpoint; USB and WiFi
/// drivers provide implementations.
pub trait EndpointWriter {
    /// Write up to `len` bytes directly out of the buffer's readable
    /// contents. Returns the number of bytes accepted, never more than
    /// `len`; consuming them from the buffer is the caller's business.
    fn write_from_buffer(&mut self, buffer: &ZeroCopyBuffer, len: usize) -> (r: ForwarderResult<
        usize,
    >)
        requires
            buffer.wf(),
            len <= buffer.spec_readable_len(),
        ensures
            match r {
                Ok(n) => n <= len,
                Err(_) => true,
            },
    ;

    /// Write bytes from a slice, the copy fallback. Returns the number of
    /// bytes accepted, never more than were offered.
    fn write_from_slice(&mut self, data: &[u8]) -> (r: ForwarderResult<usize>)
        ensures
            match r {
                Ok(n) => n <= data@.len(),
                Err(_) => true,
            },
    ;

    /// Flush any buffered data to the underlying transport.
    fn flush(&mut self) -> ForwarderResult<()>;

    /// Whether the endpoint is connected and ready.
    fn is_connected(&self) -> bool;
}

/// Statistics about the forwarding operation; counters never decrease
/// within a session.
#[derive(Debug, Clone, Copy, PartialEq, Eq, Structural)]
pub struct ForwardingStats {
    /// Total bytes forwarded from USB to WiFi.
    pub usb_to_wifi_bytes: u64,
    /// Total bytes forwarded from WiFi to USB.
    pub wifi_to_usb_bytes: u64,
    /// Number of USB read operations that returned data.
    pub usb_reads: u32,
    /// Number of WiFi read operations that returned data.
    pub wifi_reads: u32,
    /// Number of buffer overflows observed.
    pub overflows: u32,
    /// Current USB-to-WiFi buffer usage in bytes.
    pub usb_to_wifi_buffer_used: usize,
    /// Current WiFi-to-USB buffer usage in bytes.
    pub wifi_to_usb_buffer_used: usize,
}

impl Default for ForwardingStats {
    /// All counters at zero.
    fn default() -> (r: Self)
        ensures
            r == (ForwardingStats {
                usb_to_wifi_bytes: 0,
                wifi_to_usb_bytes: 0,
                usb_reads: 0,
                wifi_reads: 0,
                overflows: 0,
                usb_to_wifi_buffer_used: 0,
                wifi_to_usb_buffer_used: 0,
            }),
    {
        ForwardingStats {
            usb_to_wifi_bytes: 0,
            wifi_to_usb_bytes: 0,
            usb_reads: 0,
            wifi_reads: 0,
            overflows: 0,
            usb_to_wifi_buffer_used: 0,
            wifi_to_usb_buffer_used: 0,
        }
    }
}

/// Configuration for the data forwarder's supervising policy.
#[derive(Debug, Clone)]
pub struct ForwarderConfig {
    /// Timeout for read operations in milliseconds.
    pub read_timeout_ms: u32,
    /// Timeout for write operations in milliseconds.
    pub write_timeout_ms: u32,
    /// Whether to collect statistics.
    pub enable_stats: bool,
    /// Maximum retries on transient errors.
    pub max_retries: u8,
}

impl Default for ForwarderConfig {
    /// One-second timeouts, statistics on, three retries.
    fn default() -> (r: Self)
        ensures
            r == (ForwarderConfig {
                read_timeout_ms: 1000,
                write_timeout_ms: 1000,
                enable_stats: true,
                max_retries: 3,
            }),
    {
        ForwarderConfig {
            read_timeout_ms: 1000,
            write_timeout_ms: 1000,
            enable_stats: true,
            max_retries: 3,
        }
    }
}

/// Lifecycle of a forwarder: it starts idle, runs, and ends disconnected
/// or failed; reconnection is an outside supervisor's business.
#[derive(Debug, Clone, Copy, PartialEq, Eq, Structural)]
pub enum ForwarderState {
    /// Not yet started.
    Idle,
    /// The forwarding loop is in progress.
    Running,
    /// A transport reported loss of connectivity; the loop ended.
    Disconnected,
    /// Another error ended the loop.
    Failed,
}

/// How one iteration's two directional outcomes decide the loop's fate:
/// `Disconnected` from either direction wins over any other error, any
/// other error from either direction ends the loop, and two successes
/// let it continue.
pub open spec fn spec_resolve_outcomes(a: ForwarderResult<usize>, b: ForwarderResult<
    usize,
>) -> Option<ForwarderError> {
    if a == Err::<usize, ForwarderError>(ForwarderError::Disconnected) || b == Err::<
        usize,
        ForwarderError,
    >(ForwarderError::Disconnected) {
        Some(ForwarderError::Disconnected)
    } else {
        match a {
            Err(e) => Some(e),
            Ok(_) => match b {
                Err(e) => Some(e),
                Ok(_) => None,
            },
        }
    }
}

/// Decide the loop's fate from one iteration's two directional outcomes:
/// `Disconnected` always wins; any other error still ends the loop.
pub fn resolve_outcomes(a: &ForwarderResult<usize>, b: &ForwarderResult<usize>) -> (r: Option<
    ForwarderError,
>)
    ensures
        r == spec_resolve_outcomes(*a, *b),
{
    match a {
        Err(ForwarderError::Disconnected) => Some(ForwarderError::Disconnected),
        _ => match b {
            Err(ForwarderError::Disconnected) => Some(ForwarderError::Disconnected),
            _ => match a {
                Err(e) => Some(*e),
                Ok(_) => match b {
                    Err(e) => Some(*e),
                    Ok(_) => None,
                },
            },
        },
    }
}

/// The forwarding composition: two endpoint pairs and one ring buffer per
/// direction, with statistics and a lifecycle state.
pub struct DataForwarder<UR, UW, WR, WW> {
    /// The USB endpoint read side.
    pub usb_reader: UR,
    /// The USB endpoint write side.
    pub usb_writer: UW,
    /// The WiFi endpoint read side.
    pub wifi_reader: WR,
    /// The WiFi endpoint write side.
    pub wifi_writer: WW,
    /// Buffer carrying bytes from USB to WiFi.
    pub usb_to_wifi: ZeroCopyBuffer,
    /// Buffer carrying bytes from WiFi to USB.
    pub wifi_to_usb: ZeroCopyBuffer,
    /// Accumulated statistics.
    pub forwarding_stats: ForwardingStats,
    /// Lifecycle state.
    pub state: ForwarderState,
}

impl<
    UR: EndpointReader,
    UW: EndpointWriter,
    WR: EndpointReader,
    WW: EndpointWriter,
> DataForwarder<UR, UW, WR, WW> {
    /// Well-formedness: both ring buffers are well-formed.
    pub open spec fn wf(&self) -> bool {
        self.usb_to_wifi.wf() && self.wifi_to_usb.wf()
    }

    /// Compose a forwarder from its four endpoints, with empty buffers,
    /// zero statistics and an idle state.
    pub fn new(usb_reader: UR, usb_writer: UW, wifi_reader: WR, wifi_writer: WW) -> (r: Self)
        ensures
            r.wf(),
            r.usb_to_wifi.readable() == Seq::<u8>::empty(),
            r.wifi_to_usb.readable() == Seq::<u8>::empty(),
            r.forwarding_stats == (ForwardingStats {
                usb_to_wifi_bytes: 0,
                wifi_to_usb_bytes: 0,
                usb_reads: 0,
                wifi_reads: 0,
                overflows: 0,
                usb_to_wifi_buffer_used: 0,
                wifi_to_usb_buffer_used: 0,
            }),
            r.state == ForwarderState::Idle,
    {
        DataForwarder {
            usb_reader,
            usb_writer,
            wifi_reader,
            wifi_writer,
            usb_to_wifi: ZeroCopyBuffer::new(),
            wifi_to_usb: ZeroCopyBuffer::new(),
            forwarding_stats: ForwardingStats::default(),
            state: ForwarderState::Idle,
        }
    }

    /// Whether both reader endpoints are connected.
    pub fn is_connected(&self) -> bool {
        self.usb_reader.is_connected() && self.wifi_reader.is_connected()
    }

    /// A read-only snapshot of the statistics, with the two buffer-usage
    /// gauges reflecting the buffers as they stand now.
    pub fn stats(&self) -> (r: ForwardingStats)
        requires
            self.wf(),
        ensures
            r.usb_to_wifi_bytes == self.forwarding_stats.usb_to_wifi_bytes,
            r.wifi_to_usb_bytes == self.forwarding_stats.wifi_to_usb_bytes,
            r.usb_reads == self.forwarding_stats.usb_reads,
            r.wifi_reads == self.forwarding_stats.wifi_reads,
            r.overflows == self.forwarding_stats.overflows,
            r.usb_to_wifi_buffer_used == self.usb_to_wifi.spec_readable_len(),
            r.wifi_to_usb_buffer_used == self.wifi_to_usb.spec_readable_len(),
    {
        let mut r = self.forwarding_stats;
        r.usb_to_wifi_buffer_used = self.usb_to_wifi.readable_len();
        r.wifi_to_usb_buffer_used = self.wifi_to_usb.readable_len();
        r
    }

    /// One non-blocking forwarding step from USB to WiFi: read available
    /// bytes into the buffer; a zero read is a no-op success; otherwise
    /// view the readable bytes, hand them to the WiFi writer, and consume
    /// exactly what the writer accepted — a partial write leaves the
    /// remainder in the buffer for the next step, in order. Returns the
    /// number of bytes forwarded; counters never decrease.
    pub fn forward_usb_to_wifi(&mut self) -> (r: ForwarderResult<usize>)
        requires
            old(self).wf(),
        ensures
            final(self).wf(),
            final(self).state == old(self).state,
            final(self).forwarding_stats.usb_to_wifi_bytes >= old(
                self,
            ).forwarding_stats.usb_to_wifi_bytes,
            final(self).forwarding_stats.usb_reads >= old(self).forwarding_stats.usb_reads,
            final(self).forwarding_stats.wifi_to_usb_bytes == old(
                self,
            ).forwarding_stats.wifi_to_usb_bytes,
            final(self).wifi_to_usb == old(self).wifi_to_usb,
            match r {
                Ok(n) => exists|s: Seq<u8>|
                    {
                        &&& s.len() >= n
                        &&& final(self).usb_to_wifi.readable() == (old(self).usb_to_wifi.readable()
                            + s).skip(n as int)
                    },
                Err(_) => exists|s: Seq<u8>|
                    final(self).usb_to_wifi.readable() == old(self).usb_to_wifi.readable() + s,
            },
    {
        let bytes_read = match self.usb_reader.read_into_buffer(&mut self.usb_to_wifi) {
            Ok(n) => n,
            Err(e) => {
                proof {
                    assert(self.usb_to_wifi.readable() =~= old(self).usb_to_wifi.readable()
                        + Seq::<u8>::empty());
                }
                return Err(e);
            },
        };
        let ghost received = choose|s: Seq<u8>|
            s.len() == bytes_read && self.usb_to_wifi.readable() == old(self).usb_to_wifi.readable() + s;
        if bytes_read == 0 {
            assert(self.usb_to_wifi.readable() =~= (old(self).usb_to_wifi.readable()
                + Seq::<u8>::empty()).skip(0));
            return Ok(0);
        }
        self.forwarding_stats.usb_reads = self.forwarding_stats.usb_reads.saturating_add(1);
        let data = match self.usb_to_wifi.readable_slice(bytes_read) {
            Some(d) => d,
            None => {
                return Err(ForwarderError::BufferUnderflow);
            },
        };
        let bytes_written = match self.wifi_writer.write_from_slice(data) {
            Ok(n) => n,
            Err(e) => {
                proof {
                    assert(self.usb_to_wifi.readable() == old(self).usb_to_wifi.readable() + received);
                }
                return Err(e);
            },
        };
        self.forwarding_stats.usb_to_wifi_bytes = self.forwarding_stats.usb_to_wifi_bytes
            .saturating_add(bytes_written as u64);
        match self.usb_to_wifi.consume(bytes_written) {
            Ok(()) => Ok(bytes_written),
            Err(_) => {
                proof {
                    assert(false);
                }
                Err(ForwarderError::BufferUnderflow)
            },
        }
    }

    /// One non-blocking forwarding step from WiFi to USB, the mirror image
    /// of `forward_usb_to_wifi`.
    pub fn forward_wifi_to_usb(&mut self) -> (r: ForwarderResult<usize>)
        requires
            old(self).wf(),
        ensures
            final(self).wf(),
            final(self).state == old(self).state,
            final(self).forwarding_stats.wifi_to_usb_bytes >= old(
                self,
            ).forwarding_stats.wifi_to_usb_bytes,
            final(self).forwarding_stats.wifi_reads >= old(self).forwarding_stats.wifi_reads,
            final(self).forwarding_stats.usb_to_wifi_bytes == old(
                self,
            ).forwarding_stats.usb_to_wifi_bytes,
            final(self).usb_to_wifi == old(self).usb_to_wifi,
            match r {
                Ok(n) => exists|s: Seq<u8>|
                    {
                        &&& s.len() >= n
                        &&& final(self).wifi_to_usb.readable() == (old(self).wifi_to_usb.readable()
                            + s).skip(n as int)
                    },
                Err(_) => exists|s: Seq<u8>|
                    final(self).wifi_to_usb.readable() == old(self).wifi_to_usb.readable() + s,
            },
    {
        let bytes_read = match self.wifi_reader.read_into_buffer(&mut self.wifi_to_usb) {
            Ok(n) => n,
            Err(e) => {
                proof {
                    assert(self.wifi_to_usb.readable() =~= old(self).wifi_to_usb.readable()
                        + Seq::<u8>::empty());
                }
                return Err(e);
            },
        };
        let ghost received = choose|s: Seq<u8>|
            s.len() == bytes_read && self.wifi_to_usb.readable() == old(self).wifi_to_usb.readable() + s;
        if bytes_read == 0 {
            assert(self.wifi_to_usb.readable() =~= (old(self).wifi_to_usb.readable()
                + Seq::<u8>::empty()).skip(0));
            return Ok(0);
        }
        self.forwarding_stats.wifi_reads = self.forwarding_stats.wifi_reads.saturating_add(1);
        let data = match self.wifi_to_usb.readable_slice(bytes_read) {
            Some(d) => d,
            None => {
                return Err(ForwarderError::BufferUnderflow);
            },
        };
        let bytes_written = match self.usb_writer.write_from_slice(data) {
            Ok(n) => n,
            Err(e) => {
                proof {
                    assert(self.wifi_to_usb.readable() == old(self).wifi_to_usb.readable() + received);
                }
                return Err(e);
            },
        };
        self.forwarding_stats.wifi_to_usb_bytes = self.forwarding_stats.wifi_to_usb_bytes
            .saturating_add(bytes_written as u64);
        match self.wifi_to_usb.consume(bytes_written) {
            Ok(()) => Ok(bytes_written),
            Err(_) => {
                proof {
                    assert(false);
                }
                Err(ForwarderError::BufferUnderflow)
            },
        }
    }

    /// Drive the steady-state loop for up to `max_steps` iterations:
    /// before each, check both reader endpoints' connectivity; then take
    /// one step in each direction. Loss of connectivity, or `Disconnected`
    /// from either direction, ends the loop as `Disconnected` — it wins
    /// over any other error of the same iteration; any other error ends
    /// the loop as `Failed`, a buffer overflow or underflow — a pacing
    /// mismatch between the transports — counted in the statistics first.
    /// An exhausted step budget returns success with the forwarder still
    /// running, and the caller may drive it again.
    pub fn run(&mut self, max_steps: usize) -> (r: ForwarderResult<()>)
        requires
            old(self).wf(),
        ensures
            final(self).wf(),
            match r {
                Ok(()) => final(self).state == ForwarderState::Running,
                Err(e) => {
                    &&& (e == ForwarderError::Disconnected <==> final(self).state
                        == ForwarderState::Disconnected)
                    &&& (e != ForwarderError::Disconnected ==> final(self).state
                        == ForwarderState::Failed)
                },
            },
    {
        self.state = ForwarderState::Running;
        let mut step: usize = 0;
        while step < max_steps
            invariant
                self.wf(),
                self.state == ForwarderState::Running,
            decreases max_steps - step,
        {
            if !self.is_connected() {
                self.state = ForwarderState::Disconnected;
                return Err(ForwarderError::Disconnected);
            }
            let usb_to_wifi_outcome = self.forward_usb_to_wifi();
            let wifi_to_usb_outcome = self.forward_wifi_to_usb();
            match resolve_outcomes(&usb_to_wifi_outcome, &wifi_to_usb_outcome) {
                Some(e) => {
                    if e == ForwarderError::Disconnected {
                        self.state = ForwarderState::Disconnected;
                    } else {
                        if e == ForwarderError::BufferOverflow || e
                            == ForwarderError::BufferUnderflow {
                            self.forwarding_stats.overflows =
                                self.forwarding_stats.overflows.saturating_add(1);
                        }
                        self.state = ForwarderState::Failed;
                    }
                    return Err(e);
                },
                None => {},
            }
            step = step + 1;
        }
        Ok(())
    }
}

} // verus!
