//! Checks of the timing protocol pieces: the wrapping clock, the timestamp
//! codec, and the offset conversions.

use rid::ptp::{Duration, PtpLayer, TimeStamp, USEC_PER_HOUR};
use rid::{RIDReport, RID_PACKET_SIZE};

#[test]
fn duration_micros_stay_below_one_hour() {
    let mut d = Duration::new(0);
    let mut micros: u32 = 0;
    for _ in 0..50 {
        micros = d.add_micros(900_000_000);
        assert!(micros < USEC_PER_HOUR);
    }
    assert_eq!(micros, d.micros());
}

#[test]
fn duration_wraps_at_exactly_one_hour() {
    let mut d = Duration::new(USEC_PER_HOUR - 1);
    assert_eq!(d.add_micros(1), 0);
    assert_eq!(d.hours(), 1);

    let mut d2 = Duration::new(USEC_PER_HOUR - 1);
    assert_eq!(d2.add_micros(0), USEC_PER_HOUR - 1);
    assert_eq!(d2.hours(), 0);
}

#[test]
fn duration_rolls_multiple_hours() {
    let mut d = Duration::new(USEC_PER_HOUR - 1);
    // one microsecond past a full extra hour
    let r = d.add_micros(USEC_PER_HOUR + 1);
    assert_eq!(r, 0);
    assert_eq!(d.hours(), 2);
    assert_eq!(d.millis(), 0);
}

#[test]
fn timestamp_packet_round_trip() {
    let mut ts = TimeStamp::new(0x01020304, 0xA0B0C0D0, 7, 0xFFFF_FFFF);
    let mut buffer: RIDReport = [0u8; RID_PACKET_SIZE];
    ts.stamp(&mut buffer);

    let read = TimeStamp::new(0, 0, 0, 0);
    let (cr, cw) = read.read_client_stamp(&buffer);
    let (hr, hw) = read.read_host_stamp(&buffer);
    assert_eq!((cr, cw, hr, hw), (0x01020304, 0xA0B0C0D0, 7, 0xFFFF_FFFF));
}

#[test]
fn timestamp_stamp_keeps_other_bytes() {
    let mut ts = TimeStamp::new(1, 2, 3, 4);
    let mut buffer: RIDReport = [0x5Au8; RID_PACKET_SIZE];
    ts.stamp(&mut buffer);
    for i in 0..48 {
        assert_eq!(buffer[i], 0x5A);
    }
}

#[test]
fn offset_matches_exchange_algebra() {
    // host writes at 9, client reads at 1, client writes at 2, host reads
    // at 10 on clocks offset by -8: client_read == host_write + offset.
    let ts = TimeStamp::new(1, 2, 10, 9);
    let offset = ts.offset_micros();
    assert_eq!(offset, -8);
    assert_eq!(1i64, 9i64 + offset);
}

#[test]
fn ptp_conversion_round_trip() {
    let mut layer = PtpLayer::new();
    layer.ptp_stamp = TimeStamp::new(5_000, 5_010, 1_000, 990);
    layer.client_hours = 3;
    for t in [0i64, 1, -1, 123_456_789, -987_654_321] {
        assert_eq!(layer.ptp_to_host(layer.ptp_to_client(t)), t);
        assert_eq!(layer.ptp_to_client(layer.ptp_to_host(t)), t);
    }
}

#[test]
fn client_hours_increment_on_first_backward_write() {
    let mut layer = PtpLayer::new();
    let mut buffer: RIDReport = [0u8; RID_PACKET_SIZE];

    // first read: client write time 100 becomes the client start
    let mut client = TimeStamp::new(90, 100, 0, 0);
    client.stamp(&mut buffer);
    let first = layer.host_read_update(&buffer, 1_000);
    assert_eq!(first, 0);
    assert_eq!(layer.client_start, 100);
    assert_eq!(layer.client_hours, 0);

    // a later read with a larger write time: no wrap
    let mut later = TimeStamp::new(190, 200, 0, 0);
    later.stamp(&mut buffer);
    layer.host_read_update(&buffer, 2_000);
    assert_eq!(layer.client_hours, 0);

    // the client counter wrapped: its write time went backwards
    let mut wrapped = TimeStamp::new(40, 50, 0, 0);
    wrapped.stamp(&mut buffer);
    layer.host_read_update(&buffer, 3_000);
    assert_eq!(layer.client_hours, 1);
}

#[test]
fn flight_time_sample_uses_echoed_host_write() {
    let mut layer = PtpLayer::new();
    let mut buffer: RIDReport = [0u8; RID_PACKET_SIZE];

    let mut first = TimeStamp::new(10, 20, 0, 0);
    first.stamp(&mut buffer);
    layer.host_read_update(&buffer, 500);

    // echo carries host_write = 700; read happens at 900
    let mut echo = TimeStamp::new(30, 40, 650, 700);
    echo.stamp(&mut buffer);
    let flight = layer.host_read_update(&buffer, 900);
    assert_eq!(flight, 200);
}

#[test]
fn host_elapsed_counts_hours() {
    let mut layer = PtpLayer::new();
    let start = layer.host_start as i64;
    assert_eq!(layer.host_elapsed_micros(0), 0);
    layer.timestep(5_000_000);
    // the clock wrapped into hour one: elapsed keeps growing monotonically
    assert_eq!(
        layer.host_elapsed_micros(0),
        (layer.system_time.micros() as i64) + i64::from(USEC_PER_HOUR) - start
    );
    assert_eq!(layer.system_time.hours(), 1);
}
