//! Reconstruction of the hop chain from the local node toward a destination, by
//! walking next-hop pointers that may dangle or form cycles.
use std::collections::HashSet;
use vstd::prelude::*;
use crate::model::{HopView, NodeHopStats, RouteTopologyRow, hops_view};
use crate::render::{ip_text, ip_text_or};
use crate::stats::{peer_hop_stats, peer_stats};

verus! {

broadcast use vstd::std_specs::hash::group_hash_axioms;

/// The row carries a route toward `id`.
pub open spec fn row_routes_to(row: RouteTopologyRow, id: u32) -> bool {
    row.route is Some && row.route->0.peer_id == id
}

/// Row `i` is the first one that carries a route toward `id`.
pub open spec fn is_first_route(rows: Seq<RouteTopologyRow>, id: u32, i: int) -> bool {
    0 <= i < rows.len() && row_routes_to(rows[i], id) && forall|j: int|
        0 <= j < i ==> !row_routes_to(#[trigger] rows[j], id)
}

/// The hop that a row with a route describes.
pub open spec fn hop_of(row: RouteTopologyRow) -> HopView {
    let r = row.route->0;
    HopView {
        peer_id: r.peer_id,
        target_ip: ip_text_or(r.ipv4_addr, Seq::empty()),
        latency_us: peer_hop_stats(row.peer).0,
        loss_ppm: peer_hop_stats(row.peer).1 as u32,
        node_name: r.hostname@,
    }
}

/// Number of rows whose route leads to a peer not in `visited`.
pub open spec fn unvisited_count(rows: Seq<RouteTopologyRow>, visited: Set<u32>) -> nat
    decreases rows.len(),
{
    if rows.len() == 0 {
        0
    } else {
        let last = rows.last();
        unvisited_count(rows.drop_last(), visited) + if last.route is Some && !visited.contains(
            last.route->0.peer_id,
        ) {
            1nat
        } else {
            0nat
        }
    }
}

pub proof fn lemma_unvisited_insert(rows: Seq<RouteTopologyRow>, visited: Set<u32>, x: u32, i: int)
    requires
        0 <= i < rows.len(),
        row_routes_to(rows[i], x),
        !visited.contains(x),
    ensures
        unvisited_count(rows, visited.insert(x)) < unvisited_count(rows, visited),
    decreases rows.len(),
{
    lemma_unvisited_insert_le(rows.drop_last(), visited, x);
    if i < rows.len() - 1 {
        assert(rows.drop_last()[i] == rows[i]);
        lemma_unvisited_insert(rows.drop_last(), visited, x, i);
    }
}

pub proof fn lemma_unvisited_insert_le(rows: Seq<RouteTopologyRow>, visited: Set<u32>, x: u32)
    ensures
        unvisited_count(rows, visited.insert(x)) <= unvisited_count(rows, visited),
    decreases rows.len(),
{
    if rows.len() > 0 {
        lemma_unvisited_insert_le(rows.drop_last(), visited, x);
    }
}

proof fn lemma_unvisited_le_len(rows: Seq<RouteTopologyRow>, visited: Set<u32>)
    ensures
        unvisited_count(rows, visited) <= rows.len(),
    decreases rows.len(),
{
    if rows.len() > 0 {
        lemma_unvisited_le_len(rows.drop_last(), visited);
    }
}

/// A walk ends on every snapshot, cycles included, and reaches each peer at most once:
/// no two of its hops share a peer id, none is a peer visited before it started, and it
/// yields at most one hop per row.
pub proof fn lemma_walk_visits_each_once(
    rows: Seq<RouteTopologyRow>,
    cur: u32,
    visited: Set<u32>,
)
    ensures
        walk(rows, cur, visited).0.len() <= rows.len(),
        forall|k: int|
            0 <= k < walk(rows, cur, visited).0.len() ==> !visited.contains(
                (#[trigger] walk(rows, cur, visited).0[k]).peer_id,
            ),
        forall|a: int, b: int|
            0 <= a < b < walk(rows, cur, visited).0.len() ==> (#[trigger] walk(
                rows,
                cur,
                visited,
            ).0[a]).peer_id != (#[trigger] walk(rows, cur, visited).0[b]).peer_id,
    decreases unvisited_count(rows, visited),
{
    lemma_walk_len(rows, cur, visited);
    lemma_unvisited_le_len(rows, visited);
    if !visited.contains(cur) && exists|i: int| is_first_route(rows, cur, i) {
        let i = choose|i: int| is_first_route(rows, cur, i);
        let next = rows[i].route->0.next_hop_peer_id;
        if next != cur && next != 0 {
            let v2 = visited.insert(cur);
            lemma_unvisited_insert(rows, visited, cur, i);
            lemma_walk_visits_each_once(rows, next, v2);
            let rest = walk(rows, next, v2).0;
            let w = walk(rows, cur, visited).0;
            assert(w == seq![hop_of(rows[i])] + rest);
            assert forall|k: int| 0 <= k < rest.len() implies !visited.contains(
                (#[trigger] rest[k]).peer_id,
            ) && rest[k].peer_id != cur by {
                assert(!v2.contains(rest[k].peer_id));
            }
            assert forall|k: int| 0 <= k < w.len() implies !visited.contains(
                (#[trigger] w[k]).peer_id,
            ) by {
                if k > 0 {
                    assert(w[k] == rest[k - 1]);
                }
            }
            assert forall|a: int, b: int| 0 <= a < b < w.len() implies (#[trigger] w[a]).peer_id
                != (#[trigger] w[b]).peer_id by {
                assert(w[b] == rest[b - 1]);
                if a > 0 {
                    assert(w[a] == rest[a - 1]);
                }
            }
        }
    }
}

/// Every peer a walk reaches ends in the visited set it leaves, which keeps every peer
/// visited before.
pub proof fn lemma_walk_marks_visited(rows: Seq<RouteTopologyRow>, cur: u32, visited: Set<u32>)
    ensures
        visited.subset_of(walk(rows, cur, visited).1),
        forall|k: int|
            0 <= k < walk(rows, cur, visited).0.len() ==> walk(rows, cur, visited).1.contains(
                (#[trigger] walk(rows, cur, visited).0[k]).peer_id,
            ),
    decreases unvisited_count(rows, visited),
{
    if !visited.contains(cur) && exists|i: int| is_first_route(rows, cur, i) {
        let i = choose|i: int| is_first_route(rows, cur, i);
        let next = rows[i].route->0.next_hop_peer_id;
        lemma_unvisited_insert(rows, visited, cur, i);
        if next != cur && next != 0 {
            let v2 = visited.insert(cur);
            lemma_walk_marks_visited(rows, next, v2);
            let rest = walk(rows, next, v2).0;
            let w = walk(rows, cur, visited).0;
            assert forall|k: int| 0 <= k < w.len() implies walk(rows, cur, visited).1.contains(
                (#[trigger] w[k]).peer_id,
            ) by {
                if k > 0 {
                    assert(w[k] == rest[k - 1]);
                }
            }
        }
    }
}

proof fn lemma_walk_len(rows: Seq<RouteTopologyRow>, cur: u32, visited: Set<u32>)
    ensures
        walk(rows, cur, visited).0.len() <= unvisited_count(rows, visited),
    decreases unvisited_count(rows, visited),
{
    if !visited.contains(cur) && exists|i: int| is_first_route(rows, cur, i) {
        let i = choose|i: int| is_first_route(rows, cur, i);
        let next = rows[i].route->0.next_hop_peer_id;
        lemma_unvisited_insert(rows, visited, cur, i);
        if next != cur && next != 0 {
            lemma_walk_len(rows, next, visited.insert(cur));
        }
    }
}

/// The walk from `cur`: the hops it appends and the visited set it leaves.
///
/// A peer already visited ends the walk (a cycle); so does a peer without a route
/// (a dangling pointer). Otherwise the peer's hop is appended and the walk goes on to
/// its next hop, unless that is the peer itself or 0.
pub open spec fn walk(rows: Seq<RouteTopologyRow>, cur: u32, visited: Set<u32>) -> (
    Seq<HopView>,
    Set<u32>,
)
    decreases unvisited_count(rows, visited),
{
    if visited.contains(cur) {
        (Seq::empty(), visited)
    } else if exists|i: int| is_first_route(rows, cur, i) {
        let i = choose|i: int| is_first_route(rows, cur, i);
        let next = rows[i].route->0.next_hop_peer_id;
        if next != cur && next != 0 {
            proof {
                lemma_unvisited_insert(rows, visited, cur, i);
            }
            let rest = walk(rows, next, visited.insert(cur));
            (seq![hop_of(rows[i])] + rest.0, rest.1)
        } else {
            (seq![hop_of(rows[i])], visited.insert(cur))
        }
    } else {
        (Seq::empty(), visited.insert(cur))
    }
}

/// Index of the first row with a route toward `id`, if any.
pub fn find_route_row(rows: &Vec<RouteTopologyRow>, id: u32) -> (r: Option<usize>)
    ensures
        match r {
            Some(i) => is_first_route(rows@, id, i as int),
            None => forall|j: int| 0 <= j < rows.len() ==> !row_routes_to(#[trigger] rows@[j], id),
        },
{
    let mut i: usize = 0;
    while i < rows.len()
        invariant
            i <= rows.len(),
            forall|j: int| 0 <= j < i ==> !row_routes_to(#[trigger] rows@[j], id),
        decreases rows.len() - i,
    {
        match &rows[i].route {
            Some(r) => {
                if r.peer_id == id {
                    return Some(i);
                }
            },
            None => {},
        }
        i = i + 1;
    }
    None
}

/// The hop that a row with a route describes.
pub fn hop_from_row(row: &RouteTopologyRow) -> (r: NodeHopStats)
    requires
        row.route is Some,
    ensures
        r@ == hop_of(*row),
{
    proof {
        reveal_strlit("");
    }
    let route = row.route.as_ref().unwrap();
    let (latency_us, loss_ppm) = peer_stats(&row.peer);
    let r = NodeHopStats {
        peer_id: route.peer_id,
        target_ip: ip_text(&route.ipv4_addr, ""),
        latency_us,
        loss_ppm,
        node_name: route.hostname.clone(),
    };
    assert(r@.target_ip == hop_of(*row).target_ip);
    assert(r@.loss_ppm == hop_of(*row).loss_ppm);
    assert(r@.node_name == hop_of(*row).node_name);
    assert(r@.peer_id == hop_of(*row).peer_id);
    r
}

/// Walks next-hop pointers from `start`, appending one hop per peer reached to `path`
/// and recording each peer tried in `visited`; stops at a peer already visited, at a
/// peer without a route, and where a route names no further hop.
pub fn collect_hops(
    rows: &Vec<RouteTopologyRow>,
    start: u32,
    path: &mut Vec<NodeHopStats>,
    visited: &mut HashSet<u32>,
)
    ensures
        hops_view(final(path)@) == hops_view(old(path)@) + walk(rows@, start, old(visited)@).0,
        final(visited)@ == walk(rows@, start, old(visited)@).1,
    decreases unvisited_count(rows@, old(visited)@),
{
    proof {
        reveal_strlit("");
    }
    if visited.contains(&start) {
        assert(hops_view(path@) =~= hops_view(path@) + Seq::<HopView>::empty());
        return;
    }
    let ghost v0 = visited@;
    visited.insert(start);
    match find_route_row(rows, start) {
        None => {
            assert(!exists|i: int| is_first_route(rows@, start, i));
            assert(hops_view(path@) =~= hops_view(path@) + Seq::<HopView>::empty());
        },
        Some(i) => {
            let row = &rows[i];
            let hop = hop_from_row(row);
            let ghost p0 = path@;
            path.push(hop);
            assert(hops_view(path@) =~= hops_view(p0) + seq![hop_of(rows@[i as int])]);
            let next = row.route.as_ref().unwrap().next_hop_peer_id;
            assert(forall|k: int| is_first_route(rows@, start, k) ==> k == i);
            if next != start && next != 0 {
                proof {
                    lemma_unvisited_insert(rows@, v0, start, i as int);
                }
                collect_hops(rows, next, path, visited);
                assert(hops_view(path@) =~= hops_view(p0) + walk(rows@, start, v0).0);
            }
        },
    }
}

} // verus!
