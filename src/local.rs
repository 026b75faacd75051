//! The local node: its inferred peer id and the synthetic row that heads hop chains.
use vstd::prelude::*;
use crate::model::{
    LocalNodeInfo, PeerEntry, RouteEntry, RouteTopologyRow, RunningInfo, strings_view,
};
use crate::render::{prefix_text, prefix_to_string};

verus! {

/// The peer has at least one connection that this side accepted.
pub open spec fn has_server_conn(p: PeerEntry) -> bool {
    exists|j: int| 0 <= j < p.conns@.len() && !(#[trigger] p.conns@[j]).is_client
}

/// Peer `i` is the first with an accepted connection.
pub open spec fn is_first_server_peer(peers: Seq<PeerEntry>, i: int) -> bool {
    0 <= i < peers.len() && has_server_conn(peers[i]) && forall|j: int|
        0 <= j < i ==> !has_server_conn(#[trigger] peers[j])
}

/// Inferred id of the local node: that of the first peer with an accepted connection,
/// 0 when there is none.
pub open spec fn local_peer_id(peers: Seq<PeerEntry>) -> u32 {
    if exists|i: int| is_first_server_peer(peers, i) {
        peers[choose|i: int| is_first_server_peer(peers, i)].peer_id
    } else {
        0
    }
}

/// Peer `i` is the first with id `id`.
pub open spec fn is_first_peer_with_id(peers: Seq<PeerEntry>, id: u32, i: int) -> bool {
    0 <= i < peers.len() && peers[i].peer_id == id && forall|j: int|
        0 <= j < i ==> (#[trigger] peers[j]).peer_id != id
}

/// Index of the first peer with id `id`, if any.
pub open spec fn first_peer_index(peers: Seq<PeerEntry>, id: u32) -> Option<int> {
    if exists|i: int| is_first_peer_with_id(peers, id, i) {
        Some(choose|i: int| is_first_peer_with_id(peers, id, i))
    } else {
        None
    }
}

/// The synthetic route of the local node: cost 0, its own next hop.
pub open spec fn local_route(local: LocalNodeInfo, my_id: u32) -> RouteEntry {
    RouteEntry {
        peer_id: my_id,
        next_hop_peer_id: my_id,
        cost: 0,
        path_latency_ms: 0,
        hostname: local.hostname,
        ipv4_addr: local.virtual_ipv4,
        stun_info: local.stun_info,
        version: local.version,
    }
}

/// The rows of a snapshot with the local row appended when the local node is known;
/// that row carries the local node's own peer entry, if it has one.
pub open spec fn augmented_rows(info: RunningInfo) -> Seq<RouteTopologyRow> {
    rows_with_local(info.peers@, info.peer_route_pairs@, info.my_node_info)
}

/// `rows` with the local node's row appended when `local` is known.
pub open spec fn rows_with_local(
    peers: Seq<PeerEntry>,
    rows: Seq<RouteTopologyRow>,
    local: Option<LocalNodeInfo>,
) -> Seq<RouteTopologyRow> {
    match local {
        None => rows,
        Some(l) => {
            let my_id = local_peer_id(peers);
            let peer = match first_peer_index(peers, my_id) {
                Some(i) => Some(peers[i]),
                None => None,
            };
            rows.push(RouteTopologyRow { route: Some(local_route(l, my_id)), peer })
        },
    }
}

fn has_accepted_conn(p: &PeerEntry) -> (r: bool)
    ensures
        r == has_server_conn(*p),
{
    let mut j: usize = 0;
    while j < p.conns.len()
        invariant
            j <= p.conns.len(),
            forall|k: int| 0 <= k < j ==> (#[trigger] p.conns@[k]).is_client,
        decreases p.conns.len() - j,
    {
        if !p.conns[j].is_client {
            return true;
        }
        j = j + 1;
    }
    false
}

/// Id of the first peer with a connection that this side accepted; 0 when none has one.
pub fn resolve_local_peer_id(peers: &Vec<PeerEntry>) -> (r: u32)
    ensures
        r == local_peer_id(peers@),
{
    let mut i: usize = 0;
    while i < peers.len()
        invariant
            i <= peers.len(),
            forall|j: int| 0 <= j < i ==> !has_server_conn(#[trigger] peers@[j]),
        decreases peers.len() - i,
    {
        if has_accepted_conn(&peers[i]) {
            assert(is_first_server_peer(peers@, i as int));
            assert(forall|k: int| is_first_server_peer(peers@, k) ==> k == i);
            return peers[i].peer_id;
        }
        i = i + 1;
    }
    0
}

fn find_peer(peers: &Vec<PeerEntry>, id: u32) -> (r: Option<usize>)
    ensures
        match r {
            Some(i) => first_peer_index(peers@, id) == Some(i as int),
            None => first_peer_index(peers@, id) is None,
        },
{
    let mut i: usize = 0;
    while i < peers.len()
        invariant
            i <= peers.len(),
            forall|j: int| 0 <= j < i ==> (#[trigger] peers@[j]).peer_id != id,
        decreases peers.len() - i,
    {
        if peers[i].peer_id == id {
            assert(is_first_peer_with_id(peers@, id, i as int));
            assert(forall|k: int| is_first_peer_with_id(peers@, id, k) ==> k == i);
            return Some(i);
        }
        i = i + 1;
    }
    None
}

/// Appends to `rows` the local node's row when `local` is known; the row takes its
/// peer entry out of `peers`.
pub fn augment_rows(
    peers: Vec<PeerEntry>,
    rows: Vec<RouteTopologyRow>,
    local: &Option<LocalNodeInfo>,
) -> (r: Vec<RouteTopologyRow>)
    ensures
        r@ == rows_with_local(peers@, rows@, *local),
{
    let mut peers = peers;
    let mut rows = rows;
    match local {
        None => {},
        Some(l) => {
            let my_id = resolve_local_peer_id(&peers);
            let peer = match find_peer(&peers, my_id) {
                Some(i) => Some(peers.remove(i)),
                None => None,
            };
            let route = RouteEntry {
                peer_id: my_id,
                next_hop_peer_id: my_id,
                cost: 0,
                path_latency_ms: 0,
                hostname: l.hostname.clone(),
                ipv4_addr: l.virtual_ipv4,
                stun_info: l.stun_info,
                version: l.version.clone(),
            };
            rows.push(RouteTopologyRow { route: Some(route), peer });
        },
    }
    rows
}

/// The rows of `info` with the local node's row appended when the local node is known.
pub fn get_peer_route_pairs(info: RunningInfo) -> (r: Vec<RouteTopologyRow>)
    ensures
        r@ == augmented_rows(info),
{
    augment_rows(info.peers, info.peer_route_pairs, &info.my_node_info)
}

/// Address texts of `routes`, each once, in order of first appearance.
pub open spec fn route_prefixes(routes: Seq<RouteEntry>) -> Seq<Seq<char>>
    decreases routes.len(),
{
    if routes.len() == 0 {
        Seq::empty()
    } else {
        let prev = route_prefixes(routes.drop_last());
        match routes.last().ipv4_addr {
            Some(a) => if prev.contains(prefix_text(a)) {
                prev
            } else {
                prev.push(prefix_text(a))
            },
            None => prev,
        }
    }
}

fn has_string(v: &Vec<String>, s: &String) -> (r: bool)
    ensures
        r == strings_view(v@).contains(s@),
{
    let mut i: usize = 0;
    while i < v.len()
        invariant
            i <= v.len(),
            forall|j: int| 0 <= j < i ==> (#[trigger] v@[j])@ != s@,
        decreases v.len() - i,
    {
        if v[i] == *s {
            assert(strings_view(v@)[i as int] == s@);
            return true;
        }
        i = i + 1;
    }
    assert forall|j: int| 0 <= j < v@.len() implies (#[trigger] strings_view(v@)[j]) != s@ by {
        assert(v@[j]@ != s@);
    }
    false
}

/// The `a.b.c.d/len` addresses of an instance's routes, each once, in order of first
/// appearance; none for an unknown instance.
pub fn get_ips(info: &Option<RunningInfo>) -> (r: Vec<String>)
    ensures
        strings_view(r@) == match info {
            Some(i) => route_prefixes(i.routes@),
            None => Seq::empty(),
        },
{
    let mut out: Vec<String> = Vec::new();
    match info {
        None => {
            assert(strings_view(out@) =~= Seq::<Seq<char>>::empty());
        },
        Some(i) => {
            let routes = &i.routes;
            let mut k: usize = 0;
            assert(strings_view(out@) =~= Seq::<Seq<char>>::empty());
            while k < routes.len()
                invariant
                    k <= routes.len(),
                    strings_view(out@) == route_prefixes(routes@.take(k as int)),
                decreases routes.len() - k,
            {
                let ghost o0 = out@;
                assert(routes@.take(k as int + 1).drop_last() =~= routes@.take(k as int));
                assert(routes@.take(k as int + 1).last() == routes@[k as int]);
                match &routes[k].ipv4_addr {
                    None => {},
                    Some(a) => {
                        let text = prefix_to_string(a);
                        if !has_string(&out, &text) {
                            out.push(text);
                            assert(strings_view(out@) =~= strings_view(o0).push(text@));
                        }
                    },
                }
                k = k + 1;
            }
            assert(routes@.take(routes.len() as int) =~= routes@);
        },
    }
    out
}

} // verus!
