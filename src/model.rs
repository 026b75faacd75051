//! Plain-value model of one routing snapshot and of the status report built from it.
//!
//! Rates are held as integers: a loss rate in parts per million (1_000_000 is total
//! loss), a latency in microseconds.
use vstd::prelude::*;

verus! {

/// Counters and round-trip estimate that one connection reports.
#[derive(Clone, Copy, Debug, PartialEq, Eq)]
pub struct LinkStats {
    pub latency_us: u64,
    pub rx_bytes: u64,
    pub tx_bytes: u64,
    pub rx_packets: u64,
    pub tx_packets: u64,
}

/// One connection to a peer.
#[derive(Clone, Debug)]
pub struct ConnectionStat {
    /// Transport tag of the tunnel, when the tunnel is known.
    pub tunnel_type: Option<String>,
    /// Whether this side opened the connection.
    pub is_client: bool,
    /// Counters, when the connection reports them.
    pub stats: Option<LinkStats>,
    /// Loss rate in parts per million.
    pub loss_ppm: u32,
}

/// The connections held to one peer.
#[derive(Clone, Debug)]
pub struct PeerEntry {
    pub peer_id: u32,
    pub conns: Vec<ConnectionStat>,
}

/// An IPv4 address with its prefix length.
#[derive(Clone, Copy, Debug, PartialEq, Eq)]
pub struct Ipv4Inet {
    pub addr: u32,
    pub network_length: u32,
}

/// NAT traversal data attached to a route.
#[derive(Clone, Copy, Debug, PartialEq, Eq)]
pub struct StunInfo {
    pub udp_nat_type: i32,
}

/// The local forwarding entry toward one peer.
#[derive(Clone, Debug)]
pub struct RouteEntry {
    pub peer_id: u32,
    /// Next hop toward `peer_id`; the peer itself or 0 means there is no further hop.
    pub next_hop_peer_id: u32,
    pub cost: i32,
    /// Latency of the latency-optimised path, in milliseconds.
    pub path_latency_ms: u32,
    pub hostname: String,
    pub ipv4_addr: Option<Ipv4Inet>,
    pub stun_info: Option<StunInfo>,
    pub version: String,
}

/// A route paired with the peer entry of the same id, if there is one.
#[derive(Clone, Debug)]
pub struct RouteTopologyRow {
    pub route: Option<RouteEntry>,
    pub peer: Option<PeerEntry>,
}

/// What the running instance knows of the local node.
#[derive(Clone, Debug)]
pub struct LocalNodeInfo {
    pub virtual_ipv4: Option<Ipv4Inet>,
    pub hostname: String,
    pub stun_info: Option<StunInfo>,
    pub version: String,
}

/// One snapshot of a running network instance.
#[derive(Clone, Debug)]
pub struct RunningInfo {
    pub peers: Vec<PeerEntry>,
    pub routes: Vec<RouteEntry>,
    pub peer_route_pairs: Vec<RouteTopologyRow>,
    pub my_node_info: Option<LocalNodeInfo>,
}

/// One hop on the path from the local node to a destination.
#[derive(Clone, Debug)]
pub struct NodeHopStats {
    pub peer_id: u32,
    pub target_ip: String,
    /// Best round-trip estimate over the hop's connections, in microseconds.
    pub latency_us: u64,
    /// Mean loss rate over the hop's connections, in parts per million.
    pub loss_ppm: u32,
    pub node_name: String,
}

/// Mathematical value of a hop.
pub struct HopView {
    pub peer_id: u32,
    pub target_ip: Seq<char>,
    pub latency_us: u64,
    pub loss_ppm: u32,
    pub node_name: Seq<char>,
}

impl View for NodeHopStats {
    type V = HopView;

    open spec fn view(&self) -> HopView {
        HopView {
            peer_id: self.peer_id,
            target_ip: self.target_ip@,
            latency_us: self.latency_us,
            loss_ppm: self.loss_ppm,
            node_name: self.node_name@,
        }
    }
}

/// Values of a list of hops.
pub open spec fn hops_view(hops: Seq<NodeHopStats>) -> Seq<HopView> {
    hops.map_values(|h: NodeHopStats| h@)
}

/// Values of a list of strings.
pub open spec fn strings_view(v: Seq<String>) -> Seq<Seq<char>> {
    v.map_values(|s: String| s@)
}

/// Traffic counters of one connection, as reported to the user.
#[derive(Clone, Debug)]
pub struct KVNodeConnectionStats {
    pub conn_type: String,
    pub rx_bytes: u64,
    pub tx_bytes: u64,
    pub rx_packets: u64,
    pub tx_packets: u64,
}

/// Status of one destination.
#[derive(Clone, Debug)]
pub struct KVNodeInfo {
    pub peer_id: u32,
    pub hostname: String,
    pub ipv4: String,
    /// Latency toward the destination, in microseconds.
    pub latency_us: u64,
    pub nat: String,
    pub hops: Vec<NodeHopStats>,
    /// Sum of the loss rates of the destination's connections, in parts per million.
    pub loss_ppm: u128,
    pub connections: Vec<KVNodeConnectionStats>,
    pub version: String,
    pub cost: i32,
}

/// Status of every destination of one instance.
#[derive(Clone, Debug)]
pub struct KVNetworkStatus {
    pub total_nodes: usize,
    pub nodes: Vec<KVNodeInfo>,
}

/// Options of a network instance as the user sets them.
#[derive(Clone, Debug)]
pub struct FlagsC {
    pub default_protocol: String,
    pub dev_name: String,
    pub enable_encryption: bool,
    pub enable_ipv6: bool,
    pub mtu: u32,
    pub latency_first: bool,
    pub enable_exit_node: bool,
    pub no_tun: bool,
    pub use_smoltcp: bool,
    pub relay_network_whitelist: String,
    pub disable_p2p: bool,
    pub relay_all_peer_rpc: bool,
    pub disable_udp_hole_punching: bool,
    pub disable_tcp_hole_punching: bool,
    pub multi_thread: bool,
    pub data_compress_algo: i32,
    pub bind_device: bool,
    pub enable_kcp_proxy: bool,
    pub disable_kcp_input: bool,
    pub disable_relay_kcp: bool,
    pub proxy_forward_by_system: bool,
    pub accept_dns: bool,
    pub private_mode: bool,
    pub enable_quic_proxy: bool,
    pub disable_quic_input: bool,
    pub disable_sym_hole_punching: bool,
    pub tcp_whitelist: String,
    pub udp_whitelist: String,
}

/// A port forward: traffic to `bind_addr` goes to `dst_addr` over `proto`.
#[derive(Clone, Debug)]
pub struct Forward {
    pub bind_addr: String,
    pub dst_addr: String,
    pub proto: String,
}

} // verus!
