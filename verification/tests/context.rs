use fnv::FnvHashMap;
use mpc::address::{Ipv4Addr, SocketAddr};
use mpc::context::{
    check_launch, message_for_each, Context, Launch, Phase, AVSS_CHANNEL_CAPACITY, CHANNEL_CAPACITY, SERVICE_BYZ,
};
use mpc::node::Node;
use std::collections::HashMap;

fn v4(d: u8, port: u16) -> SocketAddr {
    SocketAddr::V4 { ip: Ipv4Addr { a: 10, b: 0, c: 0, d }, port }
}

fn any(port: u16) -> SocketAddr {
    SocketAddr::V4 { ip: Ipv4Addr { a: 0, b: 0, c: 0, d: 0 }, port }
}

fn config() -> Node {
    let mut net_map = HashMap::new();
    let mut sk_map = HashMap::new();
    for replica in 0..4usize {
        net_map.insert(replica, v4(replica as u8, 7000 + replica as u16));
        sk_map.insert(replica, vec![replica as u8; 3]);
    }
    net_map.insert(3, SocketAddr::V6 { bits: 77, port: 7003, flowinfo: 5, scope_id: 6 });
    Node {
        id: 2,
        num_nodes: 4,
        num_faults: 1,
        net_map,
        client_addr: v4(200, 9000),
        client_port: 9500,
        sk_map,
    }
}

fn launch() -> Launch<u32> {
    assert!(check_launch(&config(), 1000, 256));
    Context::spawn(config(), 1000, 256, 10, true)
}

#[test]
fn peers_of_a_node() {
    let launch = launch();
    let mut expected: FnvHashMap<usize, SocketAddr> = FnvHashMap::default();
    expected.insert(0, v4(0, 7000));
    expected.insert(1, v4(1, 7001));
    expected.insert(2, v4(2, 7002));
    expected.insert(3, SocketAddr::V6 { bits: 77, port: 7003, flowinfo: 5, scope_id: 6 });
    assert_eq!(launch.consensus_addrs, expected);
    assert_eq!(launch.my_address, any(7002));
    let mut client: FnvHashMap<usize, SocketAddr> = FnvHashMap::default();
    client.insert(0, v4(200, 9000));
    assert_eq!(launch.syncer_map, client);
    assert_eq!(launch.syncer_l_address, any(9500));
}

#[test]
fn services_of_a_node() {
    let launch = launch();
    let services = [
        (&launch.acss_ab_config, 0u16),
        (&launch.sh2t_config, 600),
        (&launch.acs_config, 1200),
        (&launch.ctrbc_config, 1800),
        (&launch.acs_2_config, 1950),
    ];
    for (service, offset) in services {
        assert_eq!(service.net_map.len(), 4);
        assert_eq!(service.net_map[&0], v4(0, 7000 + offset));
        assert_eq!(service.net_map[&1], v4(1, 7001 + offset));
        assert_eq!(service.net_map[&2], v4(2, 7002 + offset));
        assert_eq!(
            service.net_map[&3],
            SocketAddr::V6 { bits: 77, port: 7003 + offset, flowinfo: 0, scope_id: 0 }
        );
        assert_eq!(service.id, 2);
        assert_eq!(service.num_nodes, 4);
        assert_eq!(service.num_faults, 1);
        assert_eq!(service.client_addr, v4(200, 9000));
        assert_eq!(service.client_port, 9500);
        assert_eq!(service.sk_map, config().sk_map);
    }
    for (i, (service, _)) in services.iter().enumerate() {
        for (other, _) in &services[i + 1..] {
            for replica in 0..4usize {
                assert_ne!(service.net_map[&replica].port(), other.net_map[&replica].port());
            }
        }
    }
}

#[test]
fn sizes_of_a_computation() {
    let launch = launch();
    let context = launch.context;
    assert_eq!(context.num_nodes, 4);
    assert_eq!(context.myid, 2);
    assert_eq!(context.num_faults, 1);
    assert!(context.byz);
    assert_eq!(context.sec_key_map, config().sk_map);
    assert!(context.cancel_handlers.is_empty());
    let inputs: Vec<u64> = (172..258).collect();
    assert_eq!(context.inputs, inputs);
    assert_eq!(context.input_acss_id_offset, 500);
    assert_eq!(context.k_value, 256);
    assert_eq!(context.log_k, 8);
    assert_eq!(context.per_batch_maximum, 1000);
    assert_eq!(context.total_sharings, 8212);
    assert_eq!(context.tot_batches, 8);
    assert_eq!(context.total_sharings_for_coins, 40);
    assert_eq!(context.threshold, 10000);
    assert_eq!(context.max_id, 20000);
    assert!(!context.use_fft);
    assert_eq!(context.max_depth, 64);
    assert_eq!(context.output_mask_size, 256);
    assert_eq!(context.preprocessing_mult_depth, 0);
    assert_eq!(context.delinearization_depth, 5000);
    assert_eq!(context.compression_factor, 10);
    assert_eq!(context.multiplication_switch_threshold, 0);
    assert_eq!(context.phase, Phase::Created);
    assert_eq!(launch.hash_keys, [[5u8; 16], [29u8; 16], [23u8; 16]]);
    assert_eq!(CHANNEL_CAPACITY, 10000);
    assert_eq!(AVSS_CHANNEL_CAPACITY, 500000);
    assert_eq!(SERVICE_BYZ, false);
}

#[test]
fn nodes_that_cannot_start() {
    let mut stranger = config();
    stranger.id = 4;
    assert!(!check_launch(&stranger, 1000, 256));
    let mut high = config();
    high.net_map.insert(1, v4(1, 65535 - 1950));
    assert!(check_launch(&high, 1000, 256));
    high.net_map.insert(1, v4(1, 65535 - 1949));
    assert!(!check_launch(&high, 1000, 256));
    assert!(!check_launch(&config(), 0, 256));
    assert!(!check_launch(&config(), 1000, 0));
}

#[test]
fn broadcast_reaches_each_party_once() {
    let context = launch().context;
    let mut seen = Vec::new();
    for message in context.broadcast("hello".to_string()) {
        assert_eq!(message.payload.protmsg, "hello");
        assert_eq!(message.payload.sender, 2);
        assert_eq!(message.payload.sec_key, vec![message.replica as u8; 3]);
        seen.push(message.replica);
    }
    seen.sort();
    assert_eq!(seen, vec![0, 1, 2, 3]);
}

#[test]
fn broadcast_without_keys_is_silent() {
    let mut context = launch().context;
    context.sec_key_map.clear();
    assert!(context.broadcast(1u8).is_empty());
    assert!(message_for_each(&context.sec_key_map, 2, 1u8).is_empty());
}

#[test]
fn delivery_keeps_a_handle_for_each_message() {
    let mut context = launch().context;
    context.add_cancel_handler(7);
    context.cancel_handlers.insert(5, vec![1, 2]);
    let mut messages = context.broadcast(0u8);
    let mut order = Vec::new();
    let mut sent = None;
    while let Some(message) = context.deliver(&mut messages, sent.take()) {
        order.push(100 + message.replica as u32);
        sent = Some(100 + message.replica as u32);
    }
    let mut expected = vec![7];
    expected.extend(order);
    assert_eq!(expected.len(), 5);
    assert_eq!(context.cancel_handlers[&0], expected);
    assert_eq!(context.cancel_handlers[&5], vec![1, 2]);
    assert_eq!(context.cancel_handlers.len(), 2);
}

#[test]
fn send_is_one_message() {
    let mut context = launch().context;
    let mut messages = context.send(3, "sealed");
    assert_eq!(messages.len(), 1);
    let message = context.deliver(&mut messages, None).unwrap();
    assert_eq!((message.replica, message.payload), (3, "sealed"));
    assert!(context.cancel_handlers.is_empty());
    assert!(context.deliver(&mut messages, Some(11)).is_none());
    assert_eq!(context.cancel_handlers[&0], vec![11]);
}

#[test]
fn broadcast_is_one_send_for_each_key() {
    let mut together = launch().context;
    let mut apart = launch().context;
    let messages = together.broadcast("m");
    let plan: Vec<(usize, Vec<u8>)> =
        messages.iter().map(|m| (m.replica, m.payload.sec_key.clone())).collect();

    let mut queue = messages;
    let mut handed_out = Vec::new();
    let mut sent = None;
    while let Some(message) = together.deliver(&mut queue, sent.take()) {
        let sealed = (message.payload.protmsg, message.payload.sender, message.payload.sec_key);
        handed_out.push((message.replica, sealed));
        sent = Some(handed_out.len() as u32);
    }

    let mut sent_apart = Vec::new();
    for (replica, key) in plan {
        let mut queue = apart.send(replica, ("m", apart.myid, key));
        let mut sent = None;
        while let Some(message) = apart.deliver(&mut queue, sent.take()) {
            sent_apart.push((message.replica, message.payload));
            sent = Some(sent_apart.len() as u32);
        }
    }
    assert_eq!(handed_out, sent_apart);
    assert_eq!(handed_out.len(), 4);
    assert_eq!(together.cancel_handlers, apart.cancel_handlers);
    assert_eq!(together.cancel_handlers[&0], vec![1, 2, 3, 4]);
}
