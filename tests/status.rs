use std::collections::HashSet;
use astral_status::config::{split_commas_str, split_list};
use astral_status::hops::collect_hops;
use astral_status::instance::{close_server, is_easytier_running, parse_instance_id};
use astral_status::local::{get_ips, get_peer_route_pairs, resolve_local_peer_id};
use astral_status::model::{
    ConnectionStat, Ipv4Inet, LinkStats, LocalNodeInfo, NodeHopStats, PeerEntry, RouteEntry,
    RouteTopologyRow, RunningInfo, StunInfo,
};
use astral_status::render::{ipv4_to_string, nat_to_string, nat_type_to_string, prefix_to_string};
use astral_status::stats::{aggregate_conn_stats, loss_total};
use astral_status::status::{build_node_view, get_network_status};

fn conn(latency_us: Option<u64>, loss_ppm: u32, is_client: bool) -> ConnectionStat {
    ConnectionStat {
        tunnel_type: Some("udp".to_string()),
        is_client,
        stats: latency_us.map(|l| LinkStats {
            latency_us: l,
            rx_bytes: 100,
            tx_bytes: 200,
            rx_packets: 3,
            tx_packets: 4,
        }),
        loss_ppm,
    }
}

fn route(peer_id: u32, next: u32, cost: i32, addr: Option<u32>, name: &str) -> RouteEntry {
    RouteEntry {
        peer_id,
        next_hop_peer_id: next,
        cost,
        path_latency_ms: 0,
        hostname: name.to_string(),
        ipv4_addr: addr.map(|a| Ipv4Inet { addr: a, network_length: 24 }),
        stun_info: None,
        version: "1.0".to_string(),
    }
}

fn row(r: RouteEntry, peer: Option<PeerEntry>) -> RouteTopologyRow {
    RouteTopologyRow { route: Some(r), peer }
}

fn local_node() -> LocalNodeInfo {
    LocalNodeInfo {
        virtual_ipv4: Some(Ipv4Inet { addr: 0x0A00_0001, network_length: 24 }),
        hostname: "me".to_string(),
        stun_info: None,
        version: "1.0".to_string(),
    }
}

#[test]
fn aggregator_takes_min_latency_and_mean_loss() {
    let conns = vec![conn(Some(50000), 100_000, true), conn(Some(20000), 200_000, true), conn(None, 0, true)];
    let (latency_us, loss_ppm) = aggregate_conn_stats(&conns);
    assert_eq!(latency_us, 20000);
    assert_eq!(latency_us as f64 / 1000.0, 20.0);
    assert_eq!(loss_ppm, 100_000);
}

#[test]
fn aggregator_of_no_connections_is_zero() {
    assert_eq!(aggregate_conn_stats(&Vec::new()), (0, 0));
    let conns = vec![conn(None, 300_000, true)];
    assert_eq!(aggregate_conn_stats(&conns), (0, 300_000));
}

#[test]
fn ring_walk_terminates_with_each_peer_once() {
    let rows = vec![
        row(route(1, 2, 1, Some(0x0A00_0001), "a"), None),
        row(route(2, 3, 1, Some(0x0A00_0002), "b"), None),
        row(route(3, 1, 1, Some(0x0A00_0003), "c"), None),
    ];
    let mut path: Vec<NodeHopStats> = Vec::new();
    let mut visited: HashSet<u32> = HashSet::new();
    collect_hops(&rows, 1, &mut path, &mut visited);
    let ids: Vec<u32> = path.iter().map(|h| h.peer_id).collect();
    assert_eq!(ids, vec![1, 2, 3]);
    assert!(path.len() <= 3);
    assert_eq!(path[2].target_ip, "10.0.0.3");
    assert_eq!(visited, HashSet::from([1, 2, 3]));
}

#[test]
fn walk_stops_at_dangling_next_hop() {
    let rows = vec![row(route(1, 9, 2, None, "a"), None)];
    let mut path: Vec<NodeHopStats> = Vec::new();
    let mut visited: HashSet<u32> = HashSet::new();
    collect_hops(&rows, 1, &mut path, &mut visited);
    assert_eq!(path.len(), 1);
    assert_eq!(path[0].target_ip, "");
    assert_eq!(visited, HashSet::from([1, 9]));
}

fn two_node_info() -> RunningInfo {
    let peer2 = PeerEntry { peer_id: 2, conns: vec![conn(Some(5000), 0, true)] };
    RunningInfo {
        peers: vec![peer2.clone()],
        routes: vec![route(2, 2, 1, Some(0x0A00_0002), "b")],
        peer_route_pairs: vec![row(route(2, 2, 1, Some(0x0A00_0002), "b"), Some(peer2))],
        my_node_info: Some(local_node()),
    }
}

#[test]
fn status_of_direct_peer() {
    let s = get_network_status(Some(two_node_info()));
    assert_eq!(s.total_nodes, 1);
    let n = &s.nodes[0];
    assert_eq!(n.peer_id, 2);
    assert_eq!(n.ipv4, "10.0.0.2");
    assert_eq!(n.latency_us, 5000);
    assert_eq!(n.nat, "Unknown");
    assert_eq!(n.hops.len(), 2);
    assert_eq!(n.hops[0].peer_id, 0);
    assert_eq!(n.hops[0].target_ip, "10.0.0.1");
    assert_eq!(n.hops[0].node_name, "me");
    assert_eq!(n.hops[1].peer_id, 2);
    assert_eq!(n.hops[1].latency_us, 5000);
    assert_eq!(n.connections.len(), 1);
    assert_eq!(n.connections[0].conn_type, "udp");
    assert_eq!(n.connections[0].rx_bytes, 100);
}

#[test]
fn every_destination_has_a_hop() {
    let info = RunningInfo {
        peers: Vec::new(),
        routes: Vec::new(),
        peer_route_pairs: vec![
            row(route(4, 5, 3, None, "x"), None),
            RouteTopologyRow { route: None, peer: None },
            row(route(5, 4, 2, Some(7), "y"), None),
        ],
        my_node_info: None,
    };
    let s = get_network_status(Some(info));
    assert_eq!(s.total_nodes, 2);
    for n in &s.nodes {
        assert!(n.hops.len() >= 1);
    }
    assert_eq!(s.nodes[0].hops[0].peer_id, 4);
    assert_eq!(s.nodes[1].hops[0].target_ip, "0.0.0.7");
}

#[test]
fn route_without_peer_shows_zero_stats() {
    let rows = vec![row(route(7, 7, 1, Some(0x0A00_0007), "g"), None)];
    let n = build_node_view(&rows, &Vec::new(), &None, 0, &rows[0]);
    assert_eq!(n.latency_us, 0);
    assert_eq!(n.loss_ppm, 0);
    assert!(n.connections.is_empty());
    assert_eq!(n.hops.len(), 1);
}

#[test]
fn multi_hop_latency_uses_path_metric() {
    let mut r = route(7, 3, 2, None, "g");
    r.path_latency_ms = 42;
    let rows = vec![row(r, None)];
    let n = build_node_view(&rows, &Vec::new(), &None, 0, &rows[0]);
    assert_eq!(n.latency_us, 42_000);
    assert_eq!(n.ipv4, "0.0.0.0");
}

#[test]
fn top_loss_is_sum_and_hop_loss_is_mean() {
    let peer = PeerEntry {
        peer_id: 2,
        conns: vec![conn(Some(1000), 100_000, true), conn(Some(2000), 300_000, true)],
    };
    let rows = vec![row(route(2, 2, 1, Some(0x0A00_0002), "b"), Some(peer))];
    let n = build_node_view(&rows, &Vec::new(), &None, 0, &rows[0]);
    assert_eq!(n.loss_ppm, 400_000);
    assert_eq!(n.hops[0].loss_ppm, 200_000);
    assert_ne!(n.loss_ppm, n.hops[0].loss_ppm as u128);
    assert_eq!(loss_total(&rows[0].peer.as_ref().unwrap().conns), 400_000);
}

#[test]
fn unknown_instance_gives_empty_status() {
    let s = get_network_status(None);
    assert_eq!(s.total_nodes, 0);
    assert!(s.nodes.is_empty());
    assert!(get_ips(&None).is_empty());
}

#[test]
fn nat_unknown_without_stun_or_with_bad_code() {
    assert_eq!(nat_to_string(&None), "Unknown");
    assert_eq!(nat_to_string(&Some(StunInfo { udp_nat_type: 42 })), "Unknown");
    assert_eq!(nat_to_string(&Some(StunInfo { udp_nat_type: -1 })), "Unknown");
    assert_eq!(nat_to_string(&Some(StunInfo { udp_nat_type: 3 })), "FullCone");
    assert_eq!(nat_type_to_string(6), "Symmetric");
    assert_eq!(nat_type_to_string(0), "Unknown");
}

#[test]
fn addresses_render_as_dotted_quads() {
    assert_eq!(ipv4_to_string(0xC0A8_0001), "192.168.0.1");
    assert_eq!(ipv4_to_string(0), "0.0.0.0");
    assert_eq!(ipv4_to_string(0xFFFF_FFFF), "255.255.255.255");
    assert_eq!(prefix_to_string(&Ipv4Inet { addr: 0x0A0B_0C0D, network_length: 16 }), "10.11.12.13/16");
}

#[test]
fn ips_are_listed_once_in_order() {
    let info = RunningInfo {
        peers: Vec::new(),
        routes: vec![
            route(3, 3, 1, Some(0x0A00_0003), "c"),
            route(2, 2, 1, Some(0x0A00_0002), "b"),
            route(4, 4, 1, None, "d"),
            route(5, 5, 1, Some(0x0A00_0003), "e"),
        ],
        peer_route_pairs: Vec::new(),
        my_node_info: None,
    };
    assert_eq!(get_ips(&Some(info)), vec!["10.0.0.3/24".to_string(), "10.0.0.2/24".to_string()]);
}

#[test]
fn local_peer_is_first_with_accepted_connection() {
    let peers = vec![
        PeerEntry { peer_id: 4, conns: vec![conn(None, 0, true)] },
        PeerEntry { peer_id: 6, conns: vec![conn(None, 0, true), conn(None, 0, false)] },
        PeerEntry { peer_id: 8, conns: vec![conn(None, 0, false)] },
    ];
    assert_eq!(resolve_local_peer_id(&peers), 6);
    assert_eq!(resolve_local_peer_id(&vec![PeerEntry { peer_id: 4, conns: Vec::new() }]), 0);
}

#[test]
fn local_row_is_appended() {
    let rows = get_peer_route_pairs(two_node_info());
    assert_eq!(rows.len(), 2);
    let r = rows[1].route.as_ref().unwrap();
    assert_eq!(r.peer_id, 0);
    assert_eq!(r.next_hop_peer_id, 0);
    assert_eq!(r.cost, 0);
    assert_eq!(r.hostname, "me");
    assert!(rows[1].peer.is_none());
    let mut info = two_node_info();
    info.my_node_info = None;
    assert_eq!(get_peer_route_pairs(info).len(), 1);
}

#[test]
fn instance_ids_parse_as_uuids() {
    let v = parse_instance_id("550e8400-e29b-41d4-a716-446655440000").unwrap();
    assert_eq!(v, 0x550e8400_e29b_41d4_a716_446655440000);
    let e = parse_instance_id("not-a-uuid").unwrap_err();
    assert!(e.starts_with("invalid instance_id: "));
    assert!(e.len() > "invalid instance_id: ".len());
    assert_eq!(close_server("550e8400e29b41d4a716446655440000".to_string()), Ok(v));
    assert!(close_server(String::new()).is_err());
}

#[test]
fn running_check_matches_ids() {
    let v: u128 = 0x550e8400_e29b_41d4_a716_446655440000;
    assert!(is_easytier_running("550e8400-e29b-41d4-a716-446655440000", &vec![1, v]));
    assert!(!is_easytier_running("550e8400-e29b-41d4-a716-446655440000", &vec![1]));
    assert!(!is_easytier_running("bogus", &vec![v]));
}

#[test]
fn comma_pieces_keep_empty_ones() {
    assert_eq!(split_commas_str("80, 443,,x"), vec!["80", " 443", "", "x"]);
    assert_eq!(split_commas_str(""), vec![""]);
    assert_eq!(split_commas_str(","), vec!["", ""]);
}

#[test]
fn whitelist_entries_are_trimmed_and_nonempty() {
    assert_eq!(split_list(" 80 , 443,, \t ,8000-9000 "), vec!["80", "443", "8000-9000"]);
    assert!(split_list("").is_empty());
    assert!(split_list(" , ").is_empty());
}

#[test]
fn every_connection_is_reported() {
    let mut untunnelled = conn(None, 0, true);
    untunnelled.tunnel_type = None;
    let peer = PeerEntry { peer_id: 2, conns: vec![conn(Some(1000), 0, true), untunnelled] };
    let rows = vec![row(route(2, 2, 1, None, "b"), Some(peer))];
    let n = build_node_view(&rows, &Vec::new(), &None, 0, &rows[0]);
    assert_eq!(n.connections.len(), 2);
    assert_eq!(n.connections[0].conn_type, "udp");
    assert_eq!(n.connections[0].tx_packets, 4);
    assert_eq!(n.connections[1].conn_type, "unknown");
    assert_eq!(n.connections[1].rx_bytes, 0);
    assert_eq!(n.connections[1].tx_bytes, 0);
}

#[test]
fn destination_hop_carries_aggregated_stats() {
    let peer = PeerEntry {
        peer_id: 2,
        conns: vec![conn(Some(50000), 100_000, true), conn(Some(20000), 200_000, true), conn(None, 0, true)],
    };
    let info = RunningInfo {
        peers: vec![peer.clone()],
        routes: vec![route(2, 2, 1, Some(0x0A00_0002), "b")],
        peer_route_pairs: vec![row(route(2, 2, 1, Some(0x0A00_0002), "b"), Some(peer))],
        my_node_info: Some(local_node()),
    };
    let s = get_network_status(Some(info));
    let n = &s.nodes[0];
    let last = n.hops.last().unwrap();
    assert_eq!(last.peer_id, 2);
    assert_eq!(last.latency_us, 20000);
    assert_eq!(last.loss_ppm, 100_000);
    assert_eq!(n.latency_us, 20000);
    assert_eq!(n.loss_ppm, 300_000);
    assert_ne!(n.loss_ppm, last.loss_ppm as u128);
    assert_eq!(n.connections.len(), 3);
}

#[test]
fn invalid_id_message_carries_parser_text() {
    let e = parse_instance_id("not-a-uuid").unwrap_err();
    assert_eq!(e, format!("invalid instance_id: {}", uuid::Uuid::parse_str("not-a-uuid").unwrap_err()));
}

#[test]
fn ring_toward_destination_names_each_peer_once() {
    let info = RunningInfo {
        peers: Vec::new(),
        routes: vec![route(3, 1, 3, Some(0x0A00_0003), "c")],
        peer_route_pairs: vec![
            row(route(1, 2, 1, Some(0x0A00_0001), "a"), None),
            row(route(2, 3, 2, Some(0x0A00_0002), "b"), None),
            row(route(3, 1, 3, Some(0x0A00_0003), "c"), None),
        ],
        my_node_info: Some(LocalNodeInfo { virtual_ipv4: None, ..local_node() }),
    };
    let s = get_network_status(Some(info));
    let n = &s.nodes[2];
    let ids: Vec<u32> = n.hops.iter().map(|h| h.peer_id).collect();
    assert_eq!(ids, vec![0, 1, 2, 3]);
    assert_eq!(n.hops[0].target_ip, "me");
    assert!(n.hops.len() <= 4);
}
