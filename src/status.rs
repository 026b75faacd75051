//! Per-destination status views and the network summary built from one snapshot.
use std::collections::HashSet;
use vstd::prelude::*;
use vstd::string::StringExecFns;
use crate::hops::{
    collect_hops, hop_from_row, hop_of, lemma_walk_marks_visited, lemma_walk_visits_each_once, walk,
};
use crate::local::{augment_rows, augmented_rows, local_peer_id, resolve_local_peer_id};
use crate::model::{
    ConnectionStat, HopView, KVNetworkStatus, KVNodeConnectionStats, KVNodeInfo, LocalNodeInfo,
    NodeHopStats, PeerEntry, RouteEntry, RouteTopologyRow, RunningInfo, hops_view,
};
use crate::render::{ip_text, ip_text_or, nat_text, nat_to_string};
use crate::stats::{loss_total, peer_hop_stats, peer_loss_total, peer_stats};

verus! {

broadcast use vstd::std_specs::hash::group_hash_axioms;

/// Route `k` is the first one toward `id`.
pub open spec fn is_first_route_entry(routes: Seq<RouteEntry>, id: u32, k: int) -> bool {
    0 <= k < routes.len() && routes[k].peer_id == id && forall|j: int|
        0 <= j < k ==> (#[trigger] routes[j]).peer_id != id
}

/// The hop that stands for the local node at the head of every chain.
pub open spec fn local_hop(local: LocalNodeInfo, my_id: u32) -> HopView {
    HopView {
        peer_id: my_id,
        target_ip: ip_text_or(local.virtual_ipv4, local.hostname@),
        latency_us: 0,
        loss_ppm: 0,
        node_name: local.hostname@,
    }
}

/// Some hop of `hops` has address text `ip`.
pub open spec fn any_hop_at(hops: Seq<HopView>, ip: Seq<char>) -> bool {
    exists|j: int| 0 <= j < hops.len() && (#[trigger] hops[j]).target_ip == ip
}

/// The chain from the local node: its own hop, then the walk from the next hop that
/// the local routing table records toward `dest`, closed by `dest`'s own hop where the
/// walk neither reached its address nor visited it.
pub open spec fn chain_from_local(
    rows: Seq<RouteTopologyRow>,
    routes: Seq<RouteEntry>,
    local: LocalNodeInfo,
    my_id: u32,
    dest: RouteTopologyRow,
) -> Seq<HopView> {
    let r = dest.route->0;
    let head = seq![local_hop(local, my_id)];
    if exists|k: int| is_first_route_entry(routes, r.peer_id, k) {
        let k = choose|k: int| is_first_route_entry(routes, r.peer_id, k);
        let w = walk(rows, routes[k].next_hop_peer_id, Set::empty());
        let chain = head + w.0;
        if chain.last().target_ip != ip_text_or(r.ipv4_addr, Seq::empty()) && !w.1.contains(
            r.peer_id,
        ) {
            chain.push(hop_of(dest))
        } else {
            chain
        }
    } else {
        head
    }
}

/// Hops from the local node to `dest`. With the local node unknown the chain is empty;
/// a chain of at most one hop that has no hop at `dest`'s address gets `dest`'s own hop.
pub open spec fn dest_hops(
    rows: Seq<RouteTopologyRow>,
    routes: Seq<RouteEntry>,
    local: Option<LocalNodeInfo>,
    my_id: u32,
    dest: RouteTopologyRow,
) -> Seq<HopView> {
    let first = match local {
        Some(l) => chain_from_local(rows, routes, l, my_id, dest),
        None => Seq::empty(),
    };
    if first.len() <= 1 && !any_hop_at(first, ip_text_or(dest.route->0.ipv4_addr, Seq::empty())) {
        first.push(hop_of(dest))
    } else {
        first
    }
}

/// Every destination gets at least one hop, whatever the snapshot.
pub proof fn lemma_dest_hops_nonempty(
    rows: Seq<RouteTopologyRow>,
    routes: Seq<RouteEntry>,
    local: Option<LocalNodeInfo>,
    my_id: u32,
    dest: RouteTopologyRow,
)
    ensures
        dest_hops(rows, routes, local, my_id, dest).len() >= 1,
{
    let first = match local {
        Some(l) => chain_from_local(rows, routes, l, my_id, dest),
        None => Seq::empty(),
    };
    if first.len() == 0 {
        assert(!any_hop_at(first, ip_text_or(dest.route->0.ipv4_addr, Seq::empty())));
    }
}

/// After the local node's head hop, a destination's chain names each peer at most
/// once, cycles in the next-hop pointers included; without a known local node it is the
/// destination's own hop alone.
pub proof fn lemma_dest_hops_distinct(
    rows: Seq<RouteTopologyRow>,
    routes: Seq<RouteEntry>,
    local: Option<LocalNodeInfo>,
    my_id: u32,
    dest: RouteTopologyRow,
)
    requires
        dest.route is Some,
    ensures
        local is None ==> dest_hops(rows, routes, local, my_id, dest) == seq![hop_of(dest)],
        dest_hops(rows, routes, local, my_id, dest).len() <= rows.len() + 2,
        forall|a: int, b: int|
            1 <= a < b < dest_hops(rows, routes, local, my_id, dest).len() ==> (#[trigger] dest_hops(
                rows,
                routes,
                local,
                my_id,
                dest,
            )[a]).peer_id != (#[trigger] dest_hops(rows, routes, local, my_id, dest)[b]).peer_id,
{
    let r = dest.route->0;
    let target = ip_text_or(r.ipv4_addr, Seq::empty());
    let hops = dest_hops(rows, routes, local, my_id, dest);
    match local {
        None => {
            assert(!any_hop_at(Seq::<HopView>::empty(), target));
            assert(hops =~= seq![hop_of(dest)]);
        },
        Some(l) => {
            let head = seq![local_hop(l, my_id)];
            let chain = chain_from_local(rows, routes, l, my_id, dest);
            if exists|k: int| is_first_route_entry(routes, r.peer_id, k) {
                let k = choose|k: int| is_first_route_entry(routes, r.peer_id, k);
                let start = routes[k].next_hop_peer_id;
                let w = walk(rows, start, Set::empty());
                lemma_walk_visits_each_once(rows, start, Set::empty());
                lemma_walk_marks_visited(rows, start, Set::empty());
                let c0 = head + w.0;
                assert forall|a: int, b: int| 1 <= a < b < c0.len() implies (#[trigger] c0[a]).peer_id
                    != (#[trigger] c0[b]).peer_id by {
                    assert(c0[a] == w.0[a - 1]);
                    assert(c0[b] == w.0[b - 1]);
                }
                if c0.last().target_ip != target && !w.1.contains(r.peer_id) {
                    let c1 = c0.push(hop_of(dest));
                    assert(chain == c1);
                    assert forall|a: int, b: int| 1 <= a < b < c1.len() implies (#[trigger] c1[a]).peer_id
                        != (#[trigger] c1[b]).peer_id by {
                        if b == c1.len() - 1 {
                            assert(c1[a] == w.0[a - 1]);
                            assert(w.1.contains(w.0[a - 1].peer_id));
                        } else {
                            assert(c1[a] == c0[a]);
                            assert(c1[b] == c0[b]);
                        }
                    }
                }
            }
            if chain.len() <= 1 && !any_hop_at(chain, target) {
                assert(hops == chain.push(hop_of(dest)));
            }
        },
    }
}

/// Mathematical value of a connection's counters as reported.
pub struct ConnView {
    pub conn_type: Seq<char>,
    pub rx_bytes: u64,
    pub tx_bytes: u64,
    pub rx_packets: u64,
    pub tx_packets: u64,
}

impl View for KVNodeConnectionStats {
    type V = ConnView;

    open spec fn view(&self) -> ConnView {
        ConnView {
            conn_type: self.conn_type@,
            rx_bytes: self.rx_bytes,
            tx_bytes: self.tx_bytes,
            rx_packets: self.rx_packets,
            tx_packets: self.tx_packets,
        }
    }
}

/// Values of a list of connection reports.
pub open spec fn conns_view(v: Seq<KVNodeConnectionStats>) -> Seq<ConnView> {
    v.map_values(|c: KVNodeConnectionStats| c@)
}

/// Report of a connection: its tunnel type, or `unknown` where the tunnel is not
/// known, and its counters, all 0 where the connection reports none.
pub open spec fn report_of(c: ConnectionStat) -> ConnView {
    ConnView {
        conn_type: match c.tunnel_type {
            Some(t) => t@,
            None => "unknown"@,
        },
        rx_bytes: match c.stats { Some(s) => s.rx_bytes, None => 0 },
        tx_bytes: match c.stats { Some(s) => s.tx_bytes, None => 0 },
        rx_packets: match c.stats { Some(s) => s.rx_packets, None => 0 },
        tx_packets: match c.stats { Some(s) => s.tx_packets, None => 0 },
    }
}

/// One report per connection, in order.
pub open spec fn conn_breakdown(conns: Seq<ConnectionStat>) -> Seq<ConnView> {
    conns.map_values(|c: ConnectionStat| report_of(c))
}

/// Connection reports of a peer; none without a peer entry.
pub open spec fn peer_breakdown(peer: Option<PeerEntry>) -> Seq<ConnView> {
    match peer {
        Some(p) => conn_breakdown(p.conns@),
        None => Seq::empty(),
    }
}

/// Latency shown for a destination: for a direct peer (cost 1) the best connection's,
/// otherwise the latency-optimised path's.
pub open spec fn view_latency_us(dest: RouteTopologyRow) -> int {
    let r = dest.route->0;
    if r.cost == 1 {
        peer_hop_stats(dest.peer).0 as int
    } else {
        r.path_latency_ms * 1000
    }
}

/// `n` is the status view of `dest`, with hop chains walked over `rows`.
pub open spec fn is_node_view(
    n: KVNodeInfo,
    rows: Seq<RouteTopologyRow>,
    routes: Seq<RouteEntry>,
    local: Option<LocalNodeInfo>,
    my_id: u32,
    dest: RouteTopologyRow,
) -> bool {
    let r = dest.route->0;
    &&& n.peer_id == r.peer_id
    &&& n.hostname@ == r.hostname@
    &&& n.ipv4@ == ip_text_or(r.ipv4_addr, "0.0.0.0"@)
    &&& n.latency_us == view_latency_us(dest)
    &&& n.nat@ == nat_text(r.stun_info)
    &&& hops_view(n.hops@) == dest_hops(rows, routes, local, my_id, dest)
    &&& n.loss_ppm == peer_loss_total(dest.peer)
    &&& conns_view(n.connections@) == peer_breakdown(dest.peer)
    &&& n.version@ == r.version@
    &&& n.cost == r.cost
}

/// The rows that carry a route, in order.
pub open spec fn routed_rows(rows: Seq<RouteTopologyRow>) -> Seq<RouteTopologyRow>
    decreases rows.len(),
{
    if rows.len() == 0 {
        Seq::empty()
    } else if rows.last().route is Some {
        routed_rows(rows.drop_last()).push(rows.last())
    } else {
        routed_rows(rows.drop_last())
    }
}

/// A destination whose row has a route but no peer entry shows no loss and no
/// connections, and a latency of 0 when it is a direct peer or its path reports none.
pub proof fn lemma_view_without_peer(
    n: KVNodeInfo,
    rows: Seq<RouteTopologyRow>,
    routes: Seq<RouteEntry>,
    local: Option<LocalNodeInfo>,
    my_id: u32,
    dest: RouteTopologyRow,
)
    requires
        is_node_view(n, rows, routes, local, my_id, dest),
        dest.route is Some,
        dest.peer is None,
        dest.route->0.cost == 1 || dest.route->0.path_latency_ms == 0,
    ensures
        n.latency_us == 0,
        n.loss_ppm == 0,
        n.connections@.len() == 0,
{
    assert(conns_view(n.connections@).len() == n.connections@.len());
}

/// `s` is the summary of the snapshot `info`: one view per row of the snapshot that
/// carries a route, in order, with hop chains walked over the rows with the local row.
pub open spec fn is_network_status(s: KVNetworkStatus, info: RunningInfo) -> bool {
    let dests = routed_rows(info.peer_route_pairs@);
    let rows = augmented_rows(info);
    let my_id = local_peer_id(info.peers@);
    &&& s.total_nodes == s.nodes.len()
    &&& s.nodes.len() == dests.len()
    &&& forall|k: int| 0 <= k < s.nodes.len() ==> (#[trigger] s.nodes@[k]).hops@.len() >= 1
    &&& forall|k: int|
        0 <= k < dests.len() ==> is_node_view(
            #[trigger] s.nodes@[k],
            rows,
            info.routes@,
            info.my_node_info,
            my_id,
            dests[k],
        )
}

fn find_route_entry(routes: &Vec<RouteEntry>, id: u32) -> (r: Option<usize>)
    ensures
        match r {
            Some(k) => is_first_route_entry(routes@, id, k as int),
            None => !exists|k: int| is_first_route_entry(routes@, id, k),
        },
{
    let mut i: usize = 0;
    while i < routes.len()
        invariant
            i <= routes.len(),
            forall|j: int| 0 <= j < i ==> (#[trigger] routes@[j]).peer_id != id,
        decreases routes.len() - i,
    {
        if routes[i].peer_id == id {
            return Some(i);
        }
        i = i + 1;
    }
    None
}

fn local_hop_stats(local: &LocalNodeInfo, my_id: u32) -> (r: NodeHopStats)
    ensures
        r@ == local_hop(*local, my_id),
{
    let r = NodeHopStats {
        peer_id: my_id,
        target_ip: ip_text(&local.virtual_ipv4, local.hostname.as_str()),
        latency_us: 0,
        loss_ppm: 0,
        node_name: local.hostname.clone(),
    };
    assert(r@.target_ip == local_hop(*local, my_id).target_ip);
    assert(r@.node_name == local_hop(*local, my_id).node_name);
    r
}

fn chain_has_ip(hops: &Vec<NodeHopStats>, ip: &String) -> (r: bool)
    ensures
        r == any_hop_at(hops_view(hops@), ip@),
{
    let mut j: usize = 0;
    while j < hops.len()
        invariant
            j <= hops.len(),
            forall|k: int| 0 <= k < j ==> (#[trigger] hops@[k]).target_ip@ != ip@,
        decreases hops.len() - j,
    {
        if hops[j].target_ip == *ip {
            assert(hops_view(hops@)[j as int].target_ip == ip@);
            return true;
        }
        j = j + 1;
    }
    assert forall|k: int| 0 <= k < hops@.len() implies (#[trigger] hops_view(hops@)[k]).target_ip != ip@ by {
        assert(hops@[k].target_ip@ != ip@);
    }
    false
}

/// Hops from the local node to the destination `dest`, walked over `rows`.
pub fn build_hops(
    rows: &Vec<RouteTopologyRow>,
    routes: &Vec<RouteEntry>,
    local: &Option<LocalNodeInfo>,
    my_id: u32,
    dest: &RouteTopologyRow,
) -> (r: Vec<NodeHopStats>)
    requires
        dest.route is Some,
    ensures
        hops_view(r@) == dest_hops(rows@, routes@, *local, my_id, *dest),
        r@.len() >= 1,
{
    proof {
        reveal_strlit("");
    }
    let route = dest.route.as_ref().unwrap();
    let target_ip = ip_text(&route.ipv4_addr, "");
    assert(target_ip@ == ip_text_or(route.ipv4_addr, Seq::empty()));
    let mut hops: Vec<NodeHopStats> = Vec::new();
    match local {
        None => {
            assert(hops_view(hops@) =~= Seq::<HopView>::empty());
        },
        Some(l) => {
            hops.push(local_hop_stats(l, my_id));
            assert(hops_view(hops@) =~= seq![local_hop(*l, my_id)]);
            match find_route_entry(routes, route.peer_id) {
                None => {
                    assert(hops_view(hops@) == chain_from_local(rows@, routes@, *l, my_id, *dest));
                },
                Some(k) => {
                    assert(forall|x: int| is_first_route_entry(routes@, route.peer_id, x) ==> x == k);
                    let mut visited: HashSet<u32> = HashSet::new();
                    let ghost h0 = hops_view(hops@);
                    collect_hops(rows, routes[k].next_hop_peer_id, &mut hops, &mut visited);
                    assert(hops_view(hops@).len() == hops@.len());
                    assert(hops_view(hops@) == h0 + walk(
                        rows@,
                        routes@[k as int].next_hop_peer_id,
                        Set::empty(),
                    ).0);
                    assert(visited@ == walk(
                        rows@,
                        routes@[k as int].next_hop_peer_id,
                        Set::empty(),
                    ).1);
                    let last_is_target = hops[hops.len() - 1].target_ip == target_ip;
                    let ghost h1 = hops_view(hops@);
                    assert(h1.last() == h1[hops@.len() - 1]);
                    assert(h1[hops@.len() - 1].target_ip == hops@[hops@.len() - 1].target_ip@);
                    assert(target_ip@ == ip_text_or(route.ipv4_addr, Seq::empty()));
                    assert(last_is_target == (h1.last().target_ip == ip_text_or(
                        route.ipv4_addr,
                        Seq::empty(),
                    )));
                    if !last_is_target && !visited.contains(&route.peer_id) {
                        hops.push(hop_from_row(dest));
                        assert(hops_view(hops@) =~= h1.push(hop_of(*dest)));
                    }
                    assert(hops_view(hops@) == chain_from_local(rows@, routes@, *l, my_id, *dest));
                },
            }
        },
    }
    assert(hops_view(hops@) == match *local {
        Some(l) => chain_from_local(rows@, routes@, l, my_id, *dest),
        None => Seq::empty(),
    });
    let ghost first = hops_view(hops@);
    if hops.len() <= 1 && !chain_has_ip(&hops, &target_ip) {
        hops.push(hop_from_row(dest));
        assert(hops_view(hops@) =~= first.push(hop_of(*dest)));
    }
    assert(hops_view(hops@) == dest_hops(rows@, routes@, *local, my_id, *dest));
    hops
}

fn conn_report(c: &ConnectionStat) -> (r: KVNodeConnectionStats)
    ensures
        r@ == report_of(*c),
{
    proof {
        reveal_strlit("unknown");
    }
    let conn_type = match &c.tunnel_type {
        Some(t) => t.clone(),
        None => String::from_str("unknown"),
    };
    let r = match c.stats {
        Some(s) => KVNodeConnectionStats {
            conn_type,
            rx_bytes: s.rx_bytes,
            tx_bytes: s.tx_bytes,
            rx_packets: s.rx_packets,
            tx_packets: s.tx_packets,
        },
        None => KVNodeConnectionStats {
            conn_type,
            rx_bytes: 0,
            tx_bytes: 0,
            rx_packets: 0,
            tx_packets: 0,
        },
    };
    assert(r@.conn_type == report_of(*c).conn_type);
    r
}

/// Reports of every connection of `peer`, in order; none without a peer entry.
pub fn connection_breakdown(peer: &Option<PeerEntry>) -> (r: Vec<KVNodeConnectionStats>)
    ensures
        conns_view(r@) == peer_breakdown(*peer),
        r@.len() == match *peer {
            Some(p) => p.conns@.len(),
            None => 0,
        },
{
    let mut out: Vec<KVNodeConnectionStats> = Vec::new();
    match peer {
        None => {
            assert(conns_view(out@) =~= Seq::<ConnView>::empty());
        },
        Some(p) => {
            let mut i: usize = 0;
            while i < p.conns.len()
                invariant
                    i <= p.conns.len(),
                    out@.len() == i,
                    conns_view(out@) == conn_breakdown(p.conns@.take(i as int)),
                decreases p.conns.len() - i,
            {
                let ghost o0 = out@;
                let c = conn_report(&p.conns[i]);
                out.push(c);
                assert forall|k: int| 0 <= k < i + 1 implies #[trigger] conns_view(out@)[k]
                    == conn_breakdown(p.conns@.take(i as int + 1))[k] by {
                    if k < i {
                        assert(out@[k] == o0[k]);
                        assert(conns_view(out@)[k] == conns_view(o0)[k]);
                        assert(conns_view(o0)[k] == conn_breakdown(p.conns@.take(i as int))[k]);
                    }
                }
                assert(conns_view(out@) =~= conn_breakdown(p.conns@.take(i as int + 1)));
                i = i + 1;
            }
            assert(p.conns@.take(p.conns.len() as int) =~= p.conns@);
        },
    }
    out
}

/// Status view of the destination `dest`, with hop chains walked over `rows`.
pub fn build_node_view(
    rows: &Vec<RouteTopologyRow>,
    routes: &Vec<RouteEntry>,
    local: &Option<LocalNodeInfo>,
    my_id: u32,
    dest: &RouteTopologyRow,
) -> (r: KVNodeInfo)
    requires
        dest.route is Some,
    ensures
        is_node_view(r, rows@, routes@, *local, my_id, *dest),
        r.hops@.len() >= 1,
{
    proof {
        reveal_strlit("0.0.0.0");
    }
    let route = dest.route.as_ref().unwrap();
    let latency_us: u64 = if route.cost == 1 {
        peer_stats(&dest.peer).0
    } else {
        route.path_latency_ms as u64 * 1000
    };
    let loss_ppm: u128 = match &dest.peer {
        Some(p) => loss_total(&p.conns),
        None => 0,
    };
    KVNodeInfo {
        peer_id: route.peer_id,
        hostname: route.hostname.clone(),
        ipv4: ip_text(&route.ipv4_addr, "0.0.0.0"),
        latency_us,
        nat: nat_to_string(&route.stun_info),
        hops: build_hops(rows, routes, local, my_id, dest),
        loss_ppm,
        connections: connection_breakdown(&dest.peer),
        version: route.version.clone(),
        cost: route.cost,
    }
}

/// Status of every destination of a snapshot; for an unknown instance (`None`) an
/// empty summary.
pub fn get_network_status(info: Option<RunningInfo>) -> (r: KVNetworkStatus)
    ensures
        match info {
            None => r.total_nodes == 0 && r.nodes@.len() == 0,
            Some(i) => is_network_status(r, i),
        },
{
    match info {
        None => KVNetworkStatus { total_nodes: 0, nodes: Vec::new() },
        Some(info) => {
            let ghost snapshot = info;
            let RunningInfo { peers, routes, peer_route_pairs, my_node_info } = info;
            let ghost base = peer_route_pairs@;
            let my_id = resolve_local_peer_id(&peers);
            let n = peer_route_pairs.len();
            let rows = augment_rows(peers, peer_route_pairs, &my_node_info);
            assert(rows@ == augmented_rows(snapshot));
            let mut nodes: Vec<KVNodeInfo> = Vec::new();
            let mut i: usize = 0;
            while i < n
                invariant
                    i <= n,
                    n == base.len(),
                    rows@ == augmented_rows(snapshot),
                    base == snapshot.peer_route_pairs@,
                    routes == snapshot.routes,
                    my_node_info == snapshot.my_node_info,
                    my_id == local_peer_id(snapshot.peers@),
                    nodes@.len() == routed_rows(base.take(i as int)).len(),
                    forall|k: int| 0 <= k < nodes@.len() ==> (#[trigger] nodes@[k]).hops@.len() >= 1,
                    forall|k: int|
                        0 <= k < nodes@.len() ==> is_node_view(
                            #[trigger] nodes@[k],
                            rows@,
                            routes@,
                            my_node_info,
                            my_id,
                            routed_rows(base.take(i as int))[k],
                        ),
                decreases n - i,
            {
                assert(rows@[i as int] == base[i as int]);
                assert(base.take(i as int + 1).drop_last() =~= base.take(i as int));
                assert(base.take(i as int + 1).last() == base[i as int]);
                if rows[i].route.is_some() {
                    let v = build_node_view(&rows, &routes, &my_node_info, my_id, &rows[i]);
                    nodes.push(v);
                }
                i = i + 1;
            }
            assert(base.take(n as int) =~= base);
            KVNetworkStatus { total_nodes: nodes.len(), nodes }
        },
    }
}

} // verus!
