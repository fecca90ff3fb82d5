//! Checks of the task pieces: configuration reassembly, the data cache's
//! round-robin publication, the executables, and the packet vocabulary.

use rid::rtnt::task_generator::{TaskDriver, TaskExecutable};
use rid::rtnt::{
    PacketType, TaskConfig, TaskDataCache, TaskStatus, MAX_TASKS, MAX_TASK_CONFIG_CHUNKS,
    MAX_TASK_DATA_BYTES,
};
use rid::rtnt::constant::RTConstant;
use rid::rtnt::switch::RTSwitch;

#[test]
fn status_and_packet_type_bytes_round_trip() {
    for b in [0u8, 1, 2, 255] {
        let s = TaskStatus::new(b);
        assert_eq!(TaskStatus::new(s.as_u8()), s);
    }
    for b in [0u8, 1, 2, 3, 255] {
        let p = PacketType::new(b);
        assert_eq!(PacketType::new(p.as_u8()), p);
        assert_eq!(p.as_u8(), b);
    }
    for b in [1u8, 2] {
        let d = TaskDriver::new(b);
        assert_eq!(d.as_u8(), b);
    }
    // an unknown driver byte falls back to the safe constant driver
    assert_eq!(TaskDriver::new(0), TaskDriver::Constant);
    assert_eq!(TaskDriver::new(77), TaskDriver::Constant);
}

#[test]
fn driver_names() {
    assert_eq!(TaskDriver::from_string("switch"), TaskDriver::Switch);
    assert_eq!(TaskDriver::from_string("Switch"), TaskDriver::Switch);
    assert_eq!(TaskDriver::from_string("const"), TaskDriver::Constant);
    assert_eq!(TaskDriver::from_string("Constant"), TaskDriver::Constant);
    assert_eq!(TaskDriver::from_string("scalar"), TaskDriver::Constant);
    assert_eq!(TaskDriver::from_string("anything"), TaskDriver::Constant);
    assert_eq!(TaskDriver::Switch.to_string(), "Switch");
    assert_eq!(TaskDriver::Constant.to_string(), "Constant");
}

fn chunk_header(id: u8, index: u8, total: u8) -> [u8; 8] {
    [0, 0, id, index, total, 0, 0, 0]
}

#[test]
fn chunk_identity_reset() {
    let mut cfg = TaskConfig::default();

    // stream A: three chunks, indices 0 and 1 arrive
    let payload_a = [0xAAu8; MAX_TASK_DATA_BYTES];
    cfg.collect_chunk(&chunk_header(0xA, 0, 3), &payload_a);
    cfg.collect_chunk(&chunk_header(0xA, 1, 3), &payload_a);
    assert_eq!(cfg.chunks(), 3);
    assert_eq!(cfg.missing_chunks(), 1);

    // stream B: two chunks, index 0 arrives; nothing of A survives
    let payload_b = [0xBBu8; MAX_TASK_DATA_BYTES];
    cfg.collect_chunk(&chunk_header(0xB, 0, 2), &payload_b);
    assert_eq!(cfg.id, 0xB);
    assert_eq!(cfg.chunks(), 2);
    assert_eq!(cfg.missing_chunks(), 1);
    assert_eq!(cfg.first_missing(), Some(1));
    assert_eq!(cfg.buffer[0], payload_b);
    for i in 1..MAX_TASK_CONFIG_CHUNKS {
        assert_eq!(cfg.buffer[i], [0u8; MAX_TASK_DATA_BYTES], "chunk {i} not cleared");
    }
}

#[test]
fn prepared_cache_owes_every_declared_chunk() {
    let mut buffer = [[0u8; MAX_TASK_DATA_BYTES]; MAX_TASK_CONFIG_CHUNKS];
    buffer[0][0] = 0xC0;
    buffer[1][0] = 0xC1;
    let cfg = TaskConfig::new(2, buffer);
    assert_eq!(cfg.id, 0);
    assert_eq!(cfg.chunks(), 2);
    assert_eq!(cfg.missing_chunks(), 2);
    assert_eq!(cfg.first_missing(), Some(0));
    assert_eq!(cfg.data()[0], buffer[0]);
    assert_eq!(cfg.data()[1], buffer[1]);
}

#[test]
fn invalid_chunks_are_ignored() {
    let mut cfg = TaskConfig::default();
    let payload = [1u8; MAX_TASK_DATA_BYTES];
    // more chunks than fit
    cfg.collect_chunk(&chunk_header(1, 0, 33), &payload);
    assert_eq!(cfg.chunks(), 0);
    // index not below the declared total
    cfg.collect_chunk(&chunk_header(1, 2, 2), &payload);
    assert_eq!(cfg.chunks(), 0);
}

#[test]
fn status_echo_drives_missing_mask() {
    let mut cfg = TaskConfig::default();
    let payload = [7u8; MAX_TASK_DATA_BYTES];
    cfg.collect_chunk(&chunk_header(1, 0, 3), &payload);
    cfg.collect_chunk(&chunk_header(1, 1, 3), &payload);
    cfg.collect_chunk(&chunk_header(1, 2, 3), &payload);
    assert_eq!(cfg.missing_chunks(), 0);

    let mut mask = [0u8; MAX_TASK_DATA_BYTES];
    mask[1] = 1;
    assert_eq!(cfg.collect_status(&mask), 1);
    assert_eq!(cfg.first_missing(), Some(1));

    // the emitted chunk is the first missing one
    let (header, buffer) = cfg.emit_chunk();
    assert_eq!(header[3], 1);
    assert_eq!(header[4], 3);
    assert_eq!(buffer, payload);

    // and the emitted status mirrors the mask
    let status = cfg.emit_status();
    assert_eq!(&status[0..3], &[0, 1, 0]);
}

#[test]
fn publish_round_robin_returns_each_slot_once() {
    let mut cache = TaskDataCache::default();
    for i in 0..MAX_TASKS {
        let payload = [i as u8; MAX_TASK_DATA_BYTES];
        cache.new_output(i, PacketType::Data, payload);
    }
    let mut seen = [false; MAX_TASKS];
    for _ in 0..MAX_TASKS {
        let packet = cache.publish(MAX_TASKS).expect("a filled slot must publish");
        let slot = (packet[0] - 1) as usize;
        assert!(!seen[slot], "slot {slot} published twice");
        seen[slot] = true;
    }
    assert!(seen.iter().all(|&s| s));
    // every selector byte is now zero, so nothing more comes out
    assert_eq!(cache.publish(MAX_TASKS), None);
}

#[test]
fn publish_skips_empty_slots() {
    let mut cache = TaskDataCache::default();
    assert_eq!(cache.publish(MAX_TASKS), None);
    cache.new_output(5, PacketType::Data, [9u8; MAX_TASK_DATA_BYTES]);
    let packet = cache.publish(MAX_TASKS).expect("slot five holds a packet");
    assert_eq!(packet[0], 6);
    assert_eq!(packet[1], PacketType::Data.as_u8());
    assert_eq!(cache.publish(MAX_TASKS), None);
}

#[test]
fn nonstreaming_outputs_never_publish() {
    let mut cache = TaskDataCache::default();
    cache.new_nonstreaming_output(3, PacketType::Data, [4u8; MAX_TASK_DATA_BYTES]);
    assert_eq!(cache.publish(MAX_TASKS), None);
}

#[test]
fn status_waiting_guards_unpublished_status() {
    let mut cache = TaskDataCache::default();
    cache.new_output(2, PacketType::Status, [0u8; MAX_TASK_DATA_BYTES]);
    assert!(cache.status_waiting(2));
    cache.publish(MAX_TASKS);
    assert!(!cache.status_waiting(2));
}

#[test]
fn constant_config_round_trip() {
    let value = f32::to_bits(3.25);
    let constant = RTConstant::new(value);
    let mut chunks = [[0u8; MAX_TASK_DATA_BYTES]; MAX_TASK_CONFIG_CHUNKS];
    assert_eq!(constant.deconfigure(&mut chunks), 1);
    assert_eq!(&chunks[0][0..4], &value.to_be_bytes());

    let mut rebuilt = RTConstant::default();
    assert!(rebuilt.configure(&chunks));
    assert_eq!(rebuilt, constant);

    // and writing the rebuilt state out restores the bytes
    let mut chunks2 = [[0u8; MAX_TASK_DATA_BYTES]; MAX_TASK_CONFIG_CHUNKS];
    rebuilt.deconfigure(&mut chunks2);
    assert_eq!(chunks[0], chunks2[0]);
}

#[test]
fn switch_config_round_trip_and_validation() {
    let switch = RTSwitch { n_outputs: 2 };
    let mut chunks = [[0u8; MAX_TASK_DATA_BYTES]; MAX_TASK_CONFIG_CHUNKS];
    assert_eq!(switch.deconfigure(&mut chunks), 1);
    assert_eq!(chunks[0][0], 2);

    let mut rebuilt = RTSwitch::default();
    assert!(rebuilt.configure(&chunks));
    assert_eq!(rebuilt, switch);

    // a width that leaves no room for the control signal fails validation
    chunks[0][0] = 8;
    assert!(!rebuilt.configure(&chunks));
}

#[test]
fn switch_guards_its_inputs() {
    let switch = RTSwitch { n_outputs: 2 };
    let mut input = [0u32; 9];
    input[0] = f32::to_bits(1.0);
    input[1] = f32::to_bits(5.5);
    input[2] = f32::to_bits(-2.0);
    let out = switch.run(&input);
    assert_eq!(out[0], f32::to_bits(5.5));
    assert_eq!(out[1], f32::to_bits(-2.0));
    assert_eq!(out[2], 0);

    // control signal at zero, negative or NaN: all outputs zero
    for signal in [f32::to_bits(0.0), f32::to_bits(-0.0), f32::to_bits(-1.0), f32::to_bits(f32::NAN)]
    {
        input[0] = signal;
        assert_eq!(switch.run(&input), [0u32; 9]);
        assert_eq!(f32::from_bits(signal) > 0.0, false);
    }

    // the bit-level test agrees with the float comparison on ordinary values
    for v in [0.0f32, -0.0, 1.0, -1.0, 0.5, f32::INFINITY, f32::NEG_INFINITY, f32::NAN, 1e-40] {
        input[0] = f32::to_bits(v);
        let copied = switch.run(&input)[0] != 0;
        assert_eq!(copied, v > 0.0, "guard disagrees on {v}");
    }
}

#[test]
fn constant_runs_its_value() {
    let c = RTConstant::new(f32::to_bits(7.5));
    let out = c.run(&[0u32; 9]);
    assert_eq!(f32::from_bits(out[0]), 7.5);
    assert_eq!(&out[1..], &[0u32; 8]);
}

#[test]
fn executable_dispatch() {
    let exe = TaskExecutable::generate(&TaskDriver::Switch);
    assert_eq!(exe.size(), 1);
    let exe = TaskExecutable::generate(&TaskDriver::Constant);
    assert_eq!(exe.size(), 1);

    let exe = TaskExecutable::Constant(RTConstant::new(f32::to_bits(2.0)));
    let cfg = exe.deconfigure();
    assert_eq!(cfg.chunks(), 1);
    // the serialized chunk is owed to the receiver until it echoes back
    assert_eq!(cfg.missing_chunks(), 1);
    assert_eq!(cfg.first_missing(), Some(0));
    let mut fresh = TaskExecutable::generate(&TaskDriver::Constant);
    assert!(fresh.configure(cfg.data()));
    assert_eq!(fresh, exe);
}
