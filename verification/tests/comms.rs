//! End-to-end exchanges between a host manager and a client manager over a
//! lossless in-process channel: configuration, streaming, reconfiguration,
//! panic and reload.

use rid::rtnt::constant::RTConstant;
use rid::rtnt::switch::RTSwitch;
use rid::rtnt::task_generator::{TaskDriver, TaskExecutable};
use rid::rtnt::task_manager::{TaskManager, TaskNode};
use rid::rtnt::{TaskStatus, MAX_TASK_INPUTS};
use rid::{RIDReport, RID_PACKET_SIZE};

/// Exchange one packet in each direction per tick, like the paired loops of
/// the two endpoints.
fn spin_local(n: usize, tm: &mut TaskManager, tm_host: &mut TaskManager) {
    for _ in 0..n {
        let host_to_client: RIDReport = match tm_host.control_spin() {
            Some(buffer) => buffer,
            None => [0u8; RID_PACKET_SIZE],
        };
        tm.collect(&host_to_client);

        let client_to_host: RIDReport = match tm.spin() {
            Some(buffer) => buffer,
            None => [0u8; RID_PACKET_SIZE],
        };
        tm_host.collect(&client_to_host);
    }
}

fn constant_node(value: f32, stream: u8) -> TaskNode {
    TaskNode::new(
        stream,
        100,
        0,
        1,
        TaskDriver::Constant,
        TaskExecutable::Constant(RTConstant::new(f32::to_bits(value))),
    )
}

fn assert_synchronized(tm: &TaskManager, tm_host: &TaskManager) {
    assert_eq!(tm_host.n_nodes, tm.n_nodes, "number of nodes did not synchronize");
    for i in 0..tm_host.n_nodes {
        assert_eq!(tm_host.nodes[i].status, tm.nodes[i].status, "status {i} did not synchronize");
        assert_eq!(
            tm_host.nodes[i].config_cache, tm.nodes[i].config_cache,
            "config {i} did not synchronize"
        );
        if tm_host.nodes[i].stream > 0 {
            assert_eq!(tm_host.nodes[i].data, tm.nodes[i].data, "data {i} did not synchronize");
        }
    }
}

#[test]
fn rt_task_spawn() {
    let tm = TaskManager::default();
    assert_eq!(tm.n_nodes, 0);
}

#[test]
fn configure_one_constant_node() {
    let mut client = TaskManager::default();
    let mut host = TaskManager::default();
    host.init_node(constant_node(3.25, 1));

    spin_local(10, &mut client, &mut host);

    assert_eq!(client.nodes[0].status, TaskStatus::Active);
    assert_eq!(client.nodes[0].data[0], f32::to_bits(3.25));
    // the host received a streamed data packet and decoded the value back
    assert_eq!(host.nodes[0].status, TaskStatus::Active);
    assert_eq!(host.nodes[0].data[0], f32::to_bits(3.25));
    assert_synchronized(&client, &host);
}

#[test]
fn streamed_data_packet_carries_big_endian_value() {
    let mut client = TaskManager::default();
    let mut host = TaskManager::default();
    host.init_node(constant_node(3.25, 1));

    // converge, then catch the next streamed packet by hand
    spin_local(10, &mut client, &mut host);
    let mut data_packet: Option<RIDReport> = None;
    for _ in 0..4 {
        let h2c: RIDReport = match host.control_spin() {
            Some(buffer) => buffer,
            None => [0u8; RID_PACKET_SIZE],
        };
        client.collect(&h2c);
        if let Some(packet) = client.spin() {
            if packet[1] == 255 {
                data_packet = Some(packet);
                break;
            }
            host.collect(&packet);
        }
    }
    let packet = data_packet.expect("an active streaming node publishes data");
    assert_eq!(packet[0], 1);
    assert_eq!(&packet[10..14], &3.25f32.to_be_bytes());
}

#[test]
fn switch_with_control_node() {
    let mut client = TaskManager::default();
    let mut host = TaskManager::default();

    // node zero: the control constant; node one: the switch reading it
    host.init_node(constant_node(1.0, 1));
    let mut sw = TaskNode::new(
        1,
        100,
        3,
        2,
        TaskDriver::Switch,
        TaskExecutable::Switch(RTSwitch { n_outputs: 2 }),
    );
    let mut wires = [[0u8; 2]; MAX_TASK_INPUTS];
    wires[0] = [0, 0];
    wires[1] = [0, 0];
    wires[2] = [0, 0];
    sw.link(wires);
    host.init_node(sw);

    spin_local(20, &mut client, &mut host);

    assert_eq!(client.nodes[0].status, TaskStatus::Active);
    assert_eq!(client.nodes[1].status, TaskStatus::Active);
    assert_eq!(client.nodes[1].data[0], f32::to_bits(1.0));
    assert_eq!(client.nodes[1].data[1], f32::to_bits(1.0));
    assert_synchronized(&client, &host);

    // flip the control signal to zero by reconfiguring node zero
    host.nodes[0].modify(
        1,
        100,
        0,
        1,
        TaskDriver::Constant,
        TaskExecutable::Constant(RTConstant::new(f32::to_bits(0.0))),
    );
    spin_local(20, &mut client, &mut host);

    assert_eq!(client.nodes[0].data[0], f32::to_bits(0.0));
    assert_eq!(client.nodes[1].data[0], 0);
    assert_eq!(client.nodes[1].data[1], 0);
    assert_synchronized(&client, &host);
}

#[test]
fn panic_and_reload() {
    let mut client = TaskManager::default();
    let mut host = TaskManager::default();
    host.init_node(constant_node(1.0, 1));
    spin_local(10, &mut client, &mut host);
    assert_eq!(client.n_nodes, 1);

    // the host panics everything; one round trip empties the client
    host.panic_all();
    spin_local(1, &mut client, &mut host);
    assert_eq!(host.n_nodes, 0);
    assert_eq!(client.n_nodes, 0, "client did not empty within one round trip");
    assert_eq!(client.nodes[0].status, TaskStatus::Standby);
    assert!(client.nodes[0].driver.is_none());
    assert!(client.nodes[0].task.is_none());

    // reload a different configuration; the nodes resynchronize
    host.init_node(constant_node(2.5, 1));
    spin_local(10, &mut client, &mut host);
    assert_eq!(client.nodes[0].status, TaskStatus::Active);
    assert_eq!(client.nodes[0].data[0], f32::to_bits(2.5));
    assert_synchronized(&client, &host);
}

#[test]
fn active_client_nodes_are_configured() {
    let mut client = TaskManager::default();
    let mut host = TaskManager::default();
    host.init_node(constant_node(4.0, 1));
    host.init_node(constant_node(5.0, 0));
    spin_local(12, &mut client, &mut host);

    for i in 0..client.n_nodes {
        if client.nodes[i].status == TaskStatus::Active {
            assert!(client.nodes[i].driver.is_some());
            assert!(client.nodes[i].task.is_some());
            assert_eq!(client.nodes[i].config_cache.missing_chunks(), 0);
        }
    }
    assert_eq!(client.n_nodes, 2);
}

#[test]
fn same_packets_same_state() {
    // two clients absorbing the identical packet sequence stay identical
    let mut host = TaskManager::default();
    host.init_node(constant_node(9.75, 1));

    let mut a = TaskManager::default();
    let mut b = TaskManager::default();
    for _ in 0..10 {
        let packet: RIDReport = match host.control_spin() {
            Some(buffer) => buffer,
            None => [0u8; RID_PACKET_SIZE],
        };
        a.collect(&packet);
        b.collect(&packet);
        let from_a: RIDReport = match a.spin() {
            Some(buffer) => buffer,
            None => [0u8; RID_PACKET_SIZE],
        };
        let from_b = match b.spin() {
            Some(buffer) => buffer,
            None => [0u8; RID_PACKET_SIZE],
        };
        assert_eq!(from_a, from_b);
        host.collect(&from_a);
    }
    assert_eq!(a.n_nodes, b.n_nodes);
    for i in 0..a.n_nodes {
        assert_eq!(a.nodes[i].status, b.nodes[i].status);
        assert_eq!(a.nodes[i].config_cache, b.nodes[i].config_cache);
        assert_eq!(a.nodes[i].data, b.nodes[i].data);
    }
}

#[test]
fn out_of_range_selector_is_ignored() {
    let mut client = TaskManager::default();
    let before = client.nodes[0].status;
    let mut packet: RIDReport = [0u8; RID_PACKET_SIZE];
    packet[0] = 40;  // selector past the node table
    packet[1] = 0;  // an init packet
    assert!(!client.collect(&packet));
    assert_eq!(client.nodes[0].status, before);
    assert_eq!(client.n_nodes, 0);
}
