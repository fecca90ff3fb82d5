//! Checks of the client-side stamp operations and the host control flags.

use rid::host::HidControlFlags;
use rid::ptp::TimeStamp;
use rid::{RIDReport, RID_PACKET_SIZE};

#[test]
fn client_stamp_and_client_read_mirror_the_host_side() {
    let mut buffer: RIDReport = [0u8; RID_PACKET_SIZE];

    // the host stamps its write time into an outgoing packet
    let mut host = TimeStamp::new(0, 0, 77, 0);
    host.host_stamp(&mut buffer, 901);
    assert_eq!(host.host_write, 901);

    // the client reads it and learns both host times
    let mut client = TimeStamp::new(0, 0, 0, 0);
    client.client_read(&buffer, 33);
    assert_eq!(client.client_read, 33);
    assert_eq!(client.host_read, 77);
    assert_eq!(client.host_write, 901);

    // the client stamps its reply; the host reads the client times back
    client.client_stamp(&mut buffer, 44);
    assert_eq!(client.client_write, 44);
    let mut host_back = TimeStamp::new(0, 0, 0, 0);
    host_back.host_read(&buffer, 902);
    assert_eq!(host_back.client_read, 33);
    assert_eq!(host_back.client_write, 44);
    assert_eq!(host_back.host_read, 902);
}

#[test]
fn timestamp_get_indexes_the_four_fields() {
    let ts = TimeStamp::new(1, 2, 3, 4);
    assert_eq!(ts.get(0), 1);
    assert_eq!(ts.get(1), 2);
    assert_eq!(ts.get(2), 3);
    assert_eq!(ts.get(3), 4);
}

#[test]
fn control_flags_lifecycle() {
    let mut flags = HidControlFlags::new();
    assert!(!flags.is_shutdown());
    assert!(!flags.is_connected());
    assert!(!flags.is_initialized());

    flags.connect();
    assert!(flags.is_connected());
    flags.initialize(true);
    assert!(flags.is_initialized());
    flags.shutdown();
    assert!(flags.is_shutdown());
    flags.startup();
    assert!(!flags.is_shutdown());
    flags.initialize(false);
    assert!(!flags.is_initialized());
    flags.disconnect();
    assert!(!flags.is_connected());
}
