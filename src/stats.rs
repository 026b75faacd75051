//! Reduction of a peer's parallel connections to one latency and one loss figure.
use vstd::prelude::*;
use crate::model::{ConnectionStat, PeerEntry};

verus! {

/// Smallest latency over the connections that report counters, if any do.
pub open spec fn min_latency(conns: Seq<ConnectionStat>) -> Option<u64>
    decreases conns.len(),
{
    if conns.len() == 0 {
        None
    } else {
        let rest = min_latency(conns.drop_last());
        match conns.last().stats {
            None => rest,
            Some(s) => match rest {
                None => Some(s.latency_us),
                Some(m) => Some(if s.latency_us < m { s.latency_us } else { m }),
            },
        }
    }
}

/// Latency of a hop: the best connection's, 0 when none reports one.
pub open spec fn hop_latency_us(conns: Seq<ConnectionStat>) -> u64 {
    match min_latency(conns) {
        Some(m) => m,
        None => 0,
    }
}

/// Sum of the loss rates of all connections.
pub open spec fn loss_sum(conns: Seq<ConnectionStat>) -> nat
    decreases conns.len(),
{
    if conns.len() == 0 {
        0
    } else {
        (loss_sum(conns.drop_last()) + conns.last().loss_ppm) as nat
    }
}

/// Mean loss rate over all connections, counting those without counters; 0 for none.
pub open spec fn mean_loss_ppm(conns: Seq<ConnectionStat>) -> nat {
    if conns.len() == 0 {
        0
    } else {
        loss_sum(conns) / conns.len()
    }
}

/// Latency and mean loss of a peer; both 0 when there is no peer entry.
pub open spec fn peer_hop_stats(peer: Option<PeerEntry>) -> (u64, nat) {
    match peer {
        Some(p) => (hop_latency_us(p.conns@), mean_loss_ppm(p.conns@)),
        None => (0, 0),
    }
}

/// Sum of the loss rates of a peer's connections; 0 when there is no peer entry.
pub open spec fn peer_loss_total(peer: Option<PeerEntry>) -> nat {
    match peer {
        Some(p) => loss_sum(p.conns@),
        None => 0,
    }
}

proof fn lemma_loss_sum_bound(conns: Seq<ConnectionStat>)
    ensures
        loss_sum(conns) <= conns.len() * 0xFFFF_FFFF,
    decreases conns.len(),
{
    if conns.len() > 0 {
        lemma_loss_sum_bound(conns.drop_last());
    }
}

/// Sum of all loss rates.
pub fn loss_total(conns: &Vec<ConnectionStat>) -> (r: u128)
    ensures
        r == loss_sum(conns@),
{
    let mut sum: u128 = 0;
    let mut i: usize = 0;
    while i < conns.len()
        invariant
            i <= conns.len(),
            sum == loss_sum(conns@.take(i as int)),
        decreases conns.len() - i,
    {
        proof {
            let t = conns@.take(i as int + 1);
            assert(t.drop_last() =~= conns@.take(i as int));
            lemma_loss_sum_bound(conns@.take(i as int));
            assert(i < 0x1_0000_0000_0000_0000);
            assert(sum <= (i as int) * 0xFFFF_FFFF) by (nonlinear_arith)
                requires sum <= (i as int) * 0xFFFF_FFFF;
            assert((i as int) * 0xFFFF_FFFF <= 0x1_0000_0000_0000_0000 * 0xFFFF_FFFF) by (nonlinear_arith)
                requires i < 0x1_0000_0000_0000_0000;
        }
        sum = sum + conns[i].loss_ppm as u128;
        i = i + 1;
    }
    assert(conns@.take(conns.len() as int) =~= conns@);
    sum
}

/// Best latency over the connections that report counters, 0 when none does.
pub fn min_latency_us(conns: &Vec<ConnectionStat>) -> (r: u64)
    ensures
        r == hop_latency_us(conns@),
{
    let mut best: Option<u64> = None;
    let mut i: usize = 0;
    while i < conns.len()
        invariant
            i <= conns.len(),
            best == min_latency(conns@.take(i as int)),
        decreases conns.len() - i,
    {
        assert(conns@.take(i as int + 1).drop_last() =~= conns@.take(i as int));
        match &conns[i].stats {
            None => {},
            Some(s) => {
                best = match best {
                    None => Some(s.latency_us),
                    Some(m) => Some(if s.latency_us < m { s.latency_us } else { m }),
                };
            },
        }
        i = i + 1;
    }
    assert(conns@.take(conns.len() as int) =~= conns@);
    match best {
        Some(m) => m,
        None => 0,
    }
}

/// Reduces a peer's connections to `(latency_us, loss_ppm)`: the smallest reported
/// latency (0 when none reports one) and the mean loss over all connections.
pub fn aggregate_conn_stats(conns: &Vec<ConnectionStat>) -> (r: (u64, u32))
    ensures
        r.0 == hop_latency_us(conns@),
        r.1 == mean_loss_ppm(conns@),
{
    let latency = min_latency_us(conns);
    let total = loss_total(conns);
    let n = conns.len();
    if n == 0 {
        (latency, 0)
    } else {
        proof {
            lemma_loss_sum_bound(conns@);
            let s = loss_sum(conns@) as int;
            let k = n as int;
            assert(s / k <= 0xFFFF_FFFF) by (nonlinear_arith)
                requires s <= k * 0xFFFF_FFFF, k > 0;
        }
        let mean = total / (n as u128);
        (latency, mean as u32)
    }
}

/// `(latency_us, loss_ppm)` of a hop toward `peer`; both 0 without a peer entry.
pub fn peer_stats(peer: &Option<PeerEntry>) -> (r: (u64, u32))
    ensures
        r.0 == peer_hop_stats(*peer).0,
        r.1 == peer_hop_stats(*peer).1,
{
    match peer {
        Some(p) => aggregate_conn_stats(&p.conns),
        None => (0, 0),
    }
}

} // verus!
