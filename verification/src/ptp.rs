//! Precision timing protocol: the hour-wrapping microsecond clock, the
//! four-timestamp exchange record shared by host and client, and the host-side
//! tracker that combines them into a cross-clock offset.

use crate::{RIDReport, RID_PACKET_SIZE};
use vstd::prelude::*;

verus! {

/// Byte offset of the client read time; the client sets it, the host reads it.
pub const PTP_CRTS_INDEX: usize = 48;

/// Byte offset of the client write time; the client sets it, the host reads it.
pub const PTP_CWTS_INDEX: usize = 52;

/// Byte offset of the host read time; the host sets it, the client reads it.
pub const PTP_HRTS_INDEX: usize = 56;

/// Byte offset of the host write time; the host sets it, the client reads it.
pub const PTP_HWTS_INDEX: usize = 60;

/// The big-endian 32-bit integer spelled by four bytes.
pub open spec fn be_u32(b0: u8, b1: u8, b2: u8, b3: u8) -> u32 {
    ((b0 as u32) << 24) | ((b1 as u32) << 16) | ((b2 as u32) << 8) | (b3 as u32)
}

/// The big-endian 32-bit integer stored at `off` in a byte sequence.
pub open spec fn be_u32_at(b: Seq<u8>, off: int) -> u32
    recommends
        0 <= off,
        off + 4 <= b.len(),
{
    be_u32(b[off], b[off + 1], b[off + 2], b[off + 3])
}

/// Store `x` big-endian at `buffer[off..off + 4]`; every other byte is kept.
pub fn write_be_u32(buffer: &mut RIDReport, off: usize, x: u32)
    requires
        off + 4 <= RID_PACKET_SIZE,
    ensures
        forall|i: int|
            0 <= i < RID_PACKET_SIZE && !(off <= i < off + 4) ==> final(buffer)@[i] == old(
                buffer,
            )@[i],
        be_u32_at(final(buffer)@, off as int) == x,
{
    let b0: u8 = ((x >> 24) & 0xff) as u8;
    let b1: u8 = ((x >> 16) & 0xff) as u8;
    let b2: u8 = ((x >> 8) & 0xff) as u8;
    let b3: u8 = (x & 0xff) as u8;
    buffer[off] = b0;
    buffer[off + 1] = b1;
    buffer[off + 2] = b2;
    buffer[off + 3] = b3;
    proof {
        assert((((((x >> 24) & 0xff) as u8) as u32) << 24) | (((((x >> 16) & 0xff) as u8) as u32)
            << 16) | (((((x >> 8) & 0xff) as u8) as u32) << 8) | (((x & 0xff) as u8) as u32)
            == x) by (bit_vector);
    }
}

/// The first (most significant) big-endian byte of `x`.
pub open spec fn be_byte0(x: u32) -> u8 {
    ((x >> 24) & 0xff) as u8
}

/// The second big-endian byte of `x`.
pub open spec fn be_byte1(x: u32) -> u8 {
    ((x >> 16) & 0xff) as u8
}

/// The third big-endian byte of `x`.
pub open spec fn be_byte2(x: u32) -> u8 {
    ((x >> 8) & 0xff) as u8
}

/// The last (least significant) big-endian byte of `x`.
pub open spec fn be_byte3(x: u32) -> u8 {
    (x & 0xff) as u8
}

/// Reassembling the four big-endian bytes of `x` gives back `x`.
pub proof fn lemma_be_u32_of_bytes(x: u32)
    ensures
        be_u32(be_byte0(x), be_byte1(x), be_byte2(x), be_byte3(x)) == x,
{
    assert((((((x >> 24) & 0xff) as u8) as u32) << 24) | (((((x >> 16) & 0xff) as u8) as u32)
        << 16) | (((((x >> 8) & 0xff) as u8) as u32) << 8) | (((x & 0xff) as u8) as u32)
        == x) by (bit_vector);
}

/// Taking the big-endian bytes of the integer four bytes spell gives back
/// those bytes.
pub proof fn lemma_be_bytes_of_u32(b0: u8, b1: u8, b2: u8, b3: u8)
    ensures
        be_byte0(be_u32(b0, b1, b2, b3)) == b0,
        be_byte1(be_u32(b0, b1, b2, b3)) == b1,
        be_byte2(be_u32(b0, b1, b2, b3)) == b2,
        be_byte3(be_u32(b0, b1, b2, b3)) == b3,
{
    let x = be_u32(b0, b1, b2, b3);
    assert(x == ((b0 as u32) << 24) | ((b1 as u32) << 16) | ((b2 as u32) << 8) | (b3 as u32));
    assert({
        let y = ((b0 as u32) << 24) | ((b1 as u32) << 16) | ((b2 as u32) << 8) | (b3 as u32);
        (((y >> 24) & 0xff) as u8) == b0 && (((y >> 16) & 0xff) as u8) == b1 && (((y >> 8)
            & 0xff) as u8) == b2 && ((y & 0xff) as u8) == b3
    }) by (bit_vector);
}

/// The big-endian 16-bit integer spelled by two bytes.
pub open spec fn be_u16(hi: u8, lo: u8) -> u16 {
    (((hi as u16) << 8) | (lo as u16)) as u16
}

/// The high byte of `x`.
pub open spec fn u16_hi(x: u16) -> u8 {
    ((x >> 8) & 0xff) as u8
}

/// The low byte of `x`.
pub open spec fn u16_lo(x: u16) -> u8 {
    (x & 0xff) as u8
}

/// Read the big-endian 32-bit integer at `buffer[off..off + 4]`.
pub fn read_be_u32(buffer: &RIDReport, off: usize) -> (r: u32)
    requires
        off + 4 <= RID_PACKET_SIZE,
    ensures
        r == be_u32_at(buffer@, off as int),
{
    ((buffer[off] as u32) << 24) | ((buffer[off + 1] as u32) << 16) | ((buffer[off + 2] as u32)
        << 8) | (buffer[off + 3] as u32)
}

/// Seconds in one hour.
pub const SEC_PER_HOUR: u64 = 3_600;

/// Microseconds in one second.
pub const USEC_PER_SEC: u32 = 1_000_000;

/// Microseconds in one hour; the microsecond counter of [`Duration`] wraps at
/// exactly this value.
pub const USEC_PER_HOUR: u32 = 3_600_000_000;

/// The four event times of one timing exchange, in wire order: host write,
/// client read, client write, host read.
pub struct TimeStamp {
    /// Client read time in microseconds of the client clock.
    pub client_read: u32,
    /// Client write time in microseconds of the client clock.
    pub client_write: u32,
    /// Host read time in microseconds of the host clock.
    pub host_read: u32,
    /// Host write time in microseconds of the host clock.
    pub host_write: u32,
}

/// Signed half of `d`, rounded toward zero, as exec division computes it.
pub open spec fn half_toward_zero(d: int) -> int {
    if d >= 0 {
        d / 2
    } else {
        -((-d) / 2)
    }
}

/// The clock offset a timestamp encodes:
/// `((client_read + client_write) - (host_read + host_write)) / 2`
/// microseconds, positive when the client clock is ahead.
pub open spec fn offset_spec(ts: TimeStamp) -> int {
    half_toward_zero(
        ts.client_read + ts.client_write - ts.host_read - ts.host_write,
    )
}

/// The four timestamps stored big-endian in the reserved block of a packet.
pub open spec fn ptp_block_ok(b: Seq<u8>, ts: TimeStamp) -> bool {
    &&& be_u32_at(b, PTP_CRTS_INDEX as int) == ts.client_read
    &&& be_u32_at(b, PTP_CWTS_INDEX as int) == ts.client_write
    &&& be_u32_at(b, PTP_HRTS_INDEX as int) == ts.host_read
    &&& be_u32_at(b, PTP_HWTS_INDEX as int) == ts.host_write
}

impl TimeStamp {
    /// Build a timestamp from the four event times.
    pub fn new(client_read: u32, client_write: u32, host_read: u32, host_write: u32) -> (r:
        TimeStamp)
        ensures
            r == (TimeStamp { client_read, client_write, host_read, host_write }),
    {
        TimeStamp { client_read, client_write, host_read, host_write }
    }

    /// The encoded clock offset in microseconds, computed in signed 64-bit
    /// arithmetic so that the sign survives.
    pub fn offset_micros(&self) -> (r: i64)
        ensures
            r == offset_spec(*self),
            -0x2_0000_0000 <= r <= 0x2_0000_0000,
    {
        let d: i64 = self.client_read as i64 + self.client_write as i64 - self.host_read as i64
            - self.host_write as i64;
        d / 2
    }

    /// Write the four event times big-endian into the reserved block of a
    /// packet; every byte outside the block is kept.
    ///
    /// Encoding a timestamp into a packet and decoding it back yields the same
    /// four event times: the block this writes reads back, through
    /// [`TimeStamp::read_client_stamp`] and [`TimeStamp::read_host_stamp`],
    /// as exactly the four fields of `self`.
    pub fn stamp(&mut self, buffer: &mut RIDReport)
        ensures
            *final(self) == *old(self),
            forall|i: int|
                0 <= i < PTP_CRTS_INDEX ==> final(buffer)@[i] == old(buffer)@[i],
            ptp_block_ok(final(buffer)@, *old(self)),
    {
        write_be_u32(buffer, PTP_CRTS_INDEX, self.client_read);
        write_be_u32(buffer, PTP_CWTS_INDEX, self.client_write);
        write_be_u32(buffer, PTP_HRTS_INDEX, self.host_read);
        write_be_u32(buffer, PTP_HWTS_INDEX, self.host_write);
    }

    /// Read the client read and write times from a packet.
    pub fn read_client_stamp(&self, buffer: &RIDReport) -> (r: (u32, u32))
        ensures
            r.0 == be_u32_at(buffer@, PTP_CRTS_INDEX as int),
            r.1 == be_u32_at(buffer@, PTP_CWTS_INDEX as int),
    {
        (read_be_u32(buffer, PTP_CRTS_INDEX), read_be_u32(buffer, PTP_CWTS_INDEX))
    }

    /// Read the host read and write times from a packet.
    pub fn read_host_stamp(&self, buffer: &RIDReport) -> (r: (u32, u32))
        ensures
            r.0 == be_u32_at(buffer@, PTP_HRTS_INDEX as int),
            r.1 == be_u32_at(buffer@, PTP_HWTS_INDEX as int),
    {
        (read_be_u32(buffer, PTP_HRTS_INDEX), read_be_u32(buffer, PTP_HWTS_INDEX))
    }

    /// Record the host read time and take the client event times from the
    /// packet just received.
    pub fn host_read(&mut self, buffer: &RIDReport, timestamp: u32)
        ensures
            final(self).host_read == timestamp,
            final(self).host_write == old(self).host_write,
            final(self).client_read == be_u32_at(buffer@, PTP_CRTS_INDEX as int),
            final(self).client_write == be_u32_at(buffer@, PTP_CWTS_INDEX as int),
    {
        self.host_read = timestamp;
        let (cr, cw) = self.read_client_stamp(buffer);
        self.client_read = cr;
        self.client_write = cw;
    }

    /// Record the client read time and take the host event times from the
    /// packet just received.
    pub fn client_read(&mut self, buffer: &RIDReport, timestamp: u32)
        ensures
            final(self).client_read == timestamp,
            final(self).client_write == old(self).client_write,
            final(self).host_read == be_u32_at(buffer@, PTP_HRTS_INDEX as int),
            final(self).host_write == be_u32_at(buffer@, PTP_HWTS_INDEX as int),
    {
        self.client_read = timestamp;
        let (hr, hw) = self.read_host_stamp(buffer);
        self.host_read = hr;
        self.host_write = hw;
    }

    /// Record the host write time and stamp the outgoing packet.
    pub fn host_stamp(&mut self, buffer: &mut RIDReport, timestamp: u32)
        ensures
            (*final(self)) == (TimeStamp { host_write: timestamp, ..*old(self) }),
            forall|i: int|
                0 <= i < PTP_CRTS_INDEX ==> final(buffer)@[i] == old(buffer)@[i],
            ptp_block_ok(final(buffer)@, *final(self)),
    {
        self.host_write = timestamp;
        self.stamp(buffer);
    }

    /// Record the client write time and stamp the outgoing packet.
    pub fn client_stamp(&mut self, buffer: &mut RIDReport, timestamp: u32)
        ensures
            (*final(self)) == (TimeStamp { client_write: timestamp, ..*old(self) }),
            forall|i: int|
                0 <= i < PTP_CRTS_INDEX ==> final(buffer)@[i] == old(buffer)@[i],
            ptp_block_ok(final(buffer)@, *final(self)),
    {
        self.client_write = timestamp;
        self.stamp(buffer);
    }

    /// Read one of the four event times by position: client read, client
    /// write, host read, then host write.
    pub fn get(&self, idx: usize) -> (r: u32)
        ensures
            r == (match idx {
                0 => self.client_read,
                1 => self.client_write,
                2 => self.host_read,
                _ => self.host_write,
            }),
    {
        match idx {
            0 => self.client_read,
            1 => self.client_write,
            2 => self.host_read,
            _ => self.host_write,
        }
    }
}

/// A timestamp written into a packet and read back yields the same four event
/// times: decoding is the inverse of the encoding that
/// [`TimeStamp::stamp`] promises of the reserved block.
pub proof fn lemma_stamp_read_round_trip(b: Seq<u8>, ts: TimeStamp)
    requires
        ptp_block_ok(b, ts),
    ensures
        be_u32_at(b, PTP_CRTS_INDEX as int) == ts.client_read,
        be_u32_at(b, PTP_CWTS_INDEX as int) == ts.client_write,
        be_u32_at(b, PTP_HRTS_INDEX as int) == ts.host_read,
        be_u32_at(b, PTP_HWTS_INDEX as int) == ts.host_write,
{
}

/// Lightweight timer: a microsecond counter that wraps once per hour, and the
/// number of whole hours accumulated so far.
pub struct Duration {
    /// Microseconds since the last whole hour, always below [`USEC_PER_HOUR`].
    pub microseconds: u32,
    /// Whole hours accumulated so far.
    pub hours: u64,
}

impl Duration {
    /// The microsecond field always stays below one hour.
    pub open spec fn wf(&self) -> bool {
        self.microseconds < USEC_PER_HOUR
    }

    /// Construct a timer from a microsecond count below one hour.
    pub fn new(micros: u32) -> (r: Duration)
        requires
            micros < USEC_PER_HOUR,
        ensures
            r.wf(),
            r.microseconds == micros,
            r.hours == 0,
    {
        Duration { microseconds: micros, hours: 0 }
    }

    /// Add microseconds to the timer, rolling whole hours into the hour
    /// counter, and return the new microsecond field.
    ///
    /// The microsecond counter wraps at exactly [`USEC_PER_HOUR`]; the hour
    /// counter wraps at `u64::MAX`.
    pub fn add_micros(&mut self, micros: u32) -> (r: u32)
        requires
            old(self).wf(),
        ensures
            final(self).wf(),
            r == final(self).microseconds,
            final(self).microseconds == (old(self).microseconds + micros) % (USEC_PER_HOUR as int),
            final(self).hours == (old(self).hours + (old(self).microseconds + micros) / (USEC_PER_HOUR as int)) % (u64::MAX as int + 1),
    {
        let total: u64 = self.microseconds as u64 + micros as u64;
        let rolled: u64 = total / USEC_PER_HOUR as u64;
        self.microseconds = (total % USEC_PER_HOUR as u64) as u32;
        self.hours = self.hours.wrapping_add(rolled);
        self.microseconds
    }

    /// Read the microsecond field.
    pub fn micros(&self) -> (r: u32)
        ensures
            r == self.microseconds,
    {
        self.microseconds
    }

    /// Read the microsecond field as whole milliseconds.
    pub fn millis(&self) -> (r: u32)
        ensures
            r == self.microseconds / 1_000,
    {
        self.microseconds / 1_000
    }

    /// Read the hour counter.
    pub fn hours(&self) -> (r: u64)
        ensures
            r == self.hours,
    {
        self.hours
    }
}

/// Hour counters used in offset arithmetic stay below this bound, so that
/// every product with [`USEC_PER_HOUR`] fits comfortably in an `i64`.
pub const PTP_HOURS_BOUND: u64 = 0x10_0000;

/// Host-side timing state: the local clock, the latest timestamp exchange,
/// each side's start time and the client's observed hour wraps.
///
/// The host's own hour count is the hour counter of `system_time`.
pub struct PtpLayer {
    /// The host clock, advanced by [`PtpLayer::timestep`].
    pub system_time: Duration,
    /// The four event times of the latest exchange.
    pub ptp_stamp: TimeStamp,
    /// Microsecond reading of the host clock when the layer started.
    pub host_start: u32,
    /// Client write time seen on the first successful read; zero until then.
    pub client_start: u32,
    /// Hour wraps observed on the client side since the first read.
    pub client_hours: u64,
}

/// The total host-to-client correction in microseconds: the offset the latest
/// timestamp encodes plus one hour for each whole hour the two sides' wrap
/// counters differ by.
pub open spec fn ptp_offset_full_spec(l: PtpLayer) -> int {
    offset_spec(l.ptp_stamp) + (l.client_hours - l.system_time.hours) * (USEC_PER_HOUR as int)
}

/// A host microsecond time carried onto the client clock.
pub open spec fn ptp_to_client_spec(l: PtpLayer, t: int) -> int {
    t + ptp_offset_full_spec(l)
}

/// A client microsecond time carried onto the host clock.
pub open spec fn ptp_to_host_spec(l: PtpLayer, t: int) -> int {
    t - ptp_offset_full_spec(l)
}

/// Hour counters small enough for exact 64-bit offset arithmetic.
pub open spec fn hours_in_range(l: PtpLayer) -> bool {
    l.client_hours < PTP_HOURS_BOUND && l.system_time.hours < PTP_HOURS_BOUND
}

/// What one successful read does to the layer, and the flight-time sample it
/// yields: the host read time and the client stamps land in the timestamp;
/// the first read anchors `client_start` and returns zero; every later read
/// bumps `client_hours` exactly when the client write time moved backwards,
/// and returns `timestamp` minus the echoed host write time.
pub open spec fn host_read_update_spec(l: PtpLayer, buffer: Seq<u8>, timestamp: u32) -> (
    PtpLayer,
    i64,
) {
    let cw = be_u32_at(buffer, PTP_CWTS_INDEX as int);
    let stamp = TimeStamp {
        host_read: timestamp,
        client_read: be_u32_at(buffer, PTP_CRTS_INDEX as int),
        client_write: cw,
        ..l.ptp_stamp
    };
    if l.client_start == 0 {
        (PtpLayer { ptp_stamp: stamp, client_start: cw, ..l }, 0i64)
    } else {
        let hours = if cw < l.ptp_stamp.client_write {
            ((l.client_hours + 1) % (u64::MAX as int + 1)) as u64
        } else {
            l.client_hours
        };
        (
            PtpLayer { ptp_stamp: stamp, client_hours: hours, ..l },
            (timestamp - be_u32_at(buffer, PTP_HWTS_INDEX as int)) as i64,
        )
    }
}

impl PtpLayer {
    /// Start a layer five seconds short of the first hour wrap, so that the
    /// wrap paths are exercised early in a session.
    pub fn new() -> (r: PtpLayer)
        ensures
            r.system_time.wf(),
            r.system_time.microseconds == USEC_PER_HOUR - 5_000_000,
            r.system_time.hours == 0,
            r.host_start == USEC_PER_HOUR - 5_000_000,
            r.client_start == 0,
            r.client_hours == 0,
            r.ptp_stamp == (TimeStamp { client_read: 0, client_write: 0, host_read: 0, host_write: 0 }),
    {
        PtpLayer {
            system_time: Duration::new(USEC_PER_HOUR - 5_000_000),
            ptp_stamp: TimeStamp::new(0, 0, 0, 0),
            host_start: USEC_PER_HOUR - 5_000_000,
            client_start: 0,
            client_hours: 0,
        }
    }

    /// The total host-to-client correction in microseconds.
    pub fn ptp_offset_micros(&self) -> (r: i64)
        requires
            hours_in_range(*self),
        ensures
            r == ptp_offset_full_spec(*self),
    {
        let hour_diff: i64 = self.client_hours as i64 - self.system_time.hours as i64;
        proof {
            let hd = hour_diff as int;
            assert(-0x10_0000 * (USEC_PER_HOUR as int) <= hd * (USEC_PER_HOUR as int) <= 0x10_0000
                * (USEC_PER_HOUR as int)) by (nonlinear_arith)
                requires
                    -0x10_0000 <= hd <= 0x10_0000,
            ;
        }
        self.ptp_stamp.offset_micros() + hour_diff * (USEC_PER_HOUR as i64)
    }

    /// Carry a host microsecond time onto the client clock.
    pub fn ptp_to_client(&self, t: i64) -> (r: i64)
        requires
            hours_in_range(*self),
            -0x2000_0000_0000_0000 <= t <= 0x2000_0000_0000_0000,
        ensures
            r == ptp_to_client_spec(*self, t as int),
    {
        t + self.ptp_offset_micros()
    }

    /// Carry a client microsecond time onto the host clock.
    pub fn ptp_to_host(&self, t: i64) -> (r: i64)
        requires
            hours_in_range(*self),
            -0x2000_0000_0000_0000 <= t <= 0x2000_0000_0000_0000,
        ensures
            r == ptp_to_host_spec(*self, t as int),
    {
        t - self.ptp_offset_micros()
    }

    /// Microseconds elapsed on the host clock since `host_start`, counting
    /// whole hours; `in_cycle` is how far the current cycle has progressed
    /// past the last [`PtpLayer::timestep`].
    pub fn host_elapsed_micros(&self, in_cycle: u32) -> (r: i64)
        requires
            hours_in_range(*self),
        ensures
            r == self.system_time.microseconds + in_cycle + self.system_time.hours * (
            USEC_PER_HOUR as int) - self.host_start,
    {
        self.system_time.micros() as i64 + in_cycle as i64 + self.system_time.hours as i64 * (
        USEC_PER_HOUR as i64) - self.host_start as i64
    }

    /// Microseconds elapsed on the client clock since `client_start`, counting
    /// observed client hour wraps.
    pub fn client_elapsed_micros(&self) -> (r: i64)
        requires
            hours_in_range(*self),
        ensures
            r == self.ptp_stamp.client_write + self.client_hours * (USEC_PER_HOUR as int)
                - self.client_start,
    {
        self.ptp_stamp.client_write as i64 + self.client_hours as i64 * (USEC_PER_HOUR as i64)
            - self.client_start as i64
    }

    /// Advance the host clock by one measured cycle time; hour wraps roll
    /// into the clock's hour counter. Returns the new microsecond field.
    pub fn timestep(&mut self, cycle_micros: u32) -> (r: u32)
        requires
            old(self).system_time.wf(),
        ensures
            final(self).system_time.wf(),
            r == final(self).system_time.microseconds,
            final(self).system_time.microseconds == (old(self).system_time.microseconds
                + cycle_micros) % (USEC_PER_HOUR as int),
            final(self).system_time.hours == (old(self).system_time.hours + (old(
                self,
            ).system_time.microseconds + cycle_micros) / (USEC_PER_HOUR as int)) % (
            u64::MAX as int + 1),
            final(self).ptp_stamp == old(self).ptp_stamp,
            final(self).host_start == old(self).host_start,
            final(self).client_start == old(self).client_start,
            final(self).client_hours == old(self).client_hours,
    {
        self.system_time.add_micros(cycle_micros)
    }

    /// Take one successful read into the layer: record the host read time,
    /// absorb the client's stamps, and track the client clock.
    ///
    /// On the first successful read the client's write time becomes
    /// `client_start` and the flight-time sample is zero. On every later
    /// read, `client_hours` grows by one exactly when the client write time
    /// decreased since the previous read: the client's microsecond counter
    /// wraps once per hour, so a decrease marks a wrap (see
    /// [`lemma_client_hour_wrap`]). The return value is the flight-time
    /// sample `timestamp - host_write_echo`, where the echo is the host
    /// write time carried back by the packet.
    pub fn host_read_update(&mut self, buffer: &RIDReport, timestamp: u32) -> (r: i64)
        ensures
            *final(self) == host_read_update_spec(*old(self), buffer@, timestamp).0,
            r == host_read_update_spec(*old(self), buffer@, timestamp).1,
    {
        let prev_cw = self.ptp_stamp.client_write;
        self.ptp_stamp.host_read(buffer, timestamp);
        if self.client_start == 0 {
            self.client_start = self.ptp_stamp.client_write;
            0
        } else {
            if self.ptp_stamp.client_write < prev_cw {
                self.client_hours = self.client_hours.wrapping_add(1);
            }
            let (_, hw_echo) = self.ptp_stamp.read_host_stamp(buffer);
            timestamp as i64 - hw_echo as i64
        }
    }
}

/// The client hour counter grows on exactly the reads whose client write
/// time moved backwards. Once a first read has anchored `client_start`, a
/// read whose client write stamp is below the previous one raises
/// `client_hours` by one — the client's microsecond counter wraps once per
/// hour, so the backwards step marks the wrap — and any other read leaves
/// it unchanged. The first read itself never bumps the counter.
pub proof fn lemma_client_hour_wrap(l: PtpLayer, buffer: Seq<u8>, timestamp: u32)
    requires
        l.client_hours < u64::MAX,
    ensures
        l.client_start != 0 ==> host_read_update_spec(l, buffer, timestamp).0.client_hours == (
        if be_u32_at(buffer, PTP_CWTS_INDEX as int) < l.ptp_stamp.client_write {
            l.client_hours + 1
        } else {
            l.client_hours as int
        }),
        l.client_start == 0 ==> host_read_update_spec(l, buffer, timestamp).0.client_hours
            == l.client_hours,
{
}

/// Carrying a host time to the client clock and back, or a client time to the
/// host clock and back, returns the original time exactly: both directions
/// apply the same total correction.
pub proof fn lemma_ptp_conversion_round_trip(l: PtpLayer, t: int)
    ensures
        ptp_to_host_spec(l, ptp_to_client_spec(l, t)) == t,
        ptp_to_client_spec(l, ptp_to_host_spec(l, t)) == t,
{
}

} // verus!
