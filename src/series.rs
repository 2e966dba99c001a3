//! The two time series derived from a decoded packet list: the running balance of
//! SYN over SYN-ACK segments against elapsed time, and the delays between packets.
use vstd::prelude::*;
use crate::capture::{Packet, PacketHeader, PacketModel, packet_models};
use crate::classify::{is_tcp_of, is_syn_of, is_synack_of};

verus! {

/// Microseconds in a second.
pub const USEC_PER_SEC: i64 = 1_000_000;

/// A record's timestamp as a single count of microseconds.
pub open spec fn usec_of(h: PacketHeader) -> int {
    h.ts_sec as int * USEC_PER_SEC as int + h.ts_usec as int
}

/// The number of TCP packets among the first `n`.
pub open spec fn tcp_count(ps: Seq<PacketModel>, n: int) -> int
    decreases n,
{
    if n <= 0 {
        0
    } else {
        tcp_count(ps, n - 1) + if is_tcp_of(ps[n - 1].1) { 1int } else { 0int }
    }
}

/// The number of TCP SYN packets among the first `n`.
pub open spec fn syn_count(ps: Seq<PacketModel>, n: int) -> int
    decreases n,
{
    if n <= 0 {
        0
    } else {
        syn_count(ps, n - 1) + if is_tcp_of(ps[n - 1].1) && is_syn_of(ps[n - 1].1) { 1int } else { 0int }
    }
}

/// The number of TCP SYN-ACK packets among the first `n`.
pub open spec fn synack_count(ps: Seq<PacketModel>, n: int) -> int
    decreases n,
{
    if n <= 0 {
        0
    } else {
        synack_count(ps, n - 1) + if is_tcp_of(ps[n - 1].1) && is_synack_of(ps[n - 1].1) { 1int } else { 0int }
    }
}

/// The timestamp of the first TCP packet among the first `n`, if there is one.
pub open spec fn first_tcp_usec(ps: Seq<PacketModel>, n: int) -> Option<int>
    decreases n,
{
    if n <= 0 {
        None
    } else {
        match first_tcp_usec(ps, n - 1) {
            Some(t) => Some(t),
            None => if is_tcp_of(ps[n - 1].1) { Some(usec_of(ps[n - 1].0)) } else { None },
        }
    }
}

/// The balance series after the first `n` packets: a seed point (0, 0), then for each
/// TCP packet its time since the first TCP packet and the SYN count minus the SYN-ACK
/// count up to and including it.
pub open spec fn balance_points(ps: Seq<PacketModel>, n: int) -> Seq<(int, int)>
    decreases n,
{
    if n <= 0 {
        seq![(0int, 0int)]
    } else {
        let prev = balance_points(ps, n - 1);
        if is_tcp_of(ps[n - 1].1) {
            prev.push((usec_of(ps[n - 1].0) - first_tcp_usec(ps, n)->Some_0, syn_count(ps, n) - synack_count(ps, n)))
        } else {
            prev
        }
    }
}

/// A series of machine-integer points as mathematical pairs.
pub open spec fn points_view(v: Seq<(i64, i64)>) -> Seq<(int, int)> {
    v.map_values(|x: (i64, i64)| (x.0 as int, x.1 as int))
}

impl PacketHeader {
    /// The timestamp as a single count of microseconds.
    pub fn as_usec(&self) -> (r: i64)
        ensures
            r == usec_of(*self),
    {
        self.ts_sec as i64 * USEC_PER_SEC + self.ts_usec as i64
    }
}

/// Walks the packets once and builds the SYN/SYN-ACK balance series: the seed point,
/// then one point per TCP packet.
pub fn syn_balance_series(packets: &[Packet]) -> (r: Vec<(i64, i64)>)
    requires
        packets@.len() <= i64::MAX,
    ensures
        points_view(r@) == balance_points(packet_models(packets@), packets@.len() as int),
        r@.len() == tcp_count(packet_models(packets@), packets@.len() as int) + 1,
{
    let ghost ps = packet_models(packets@);
    let mut series: Vec<(i64, i64)> = Vec::new();
    series.push((0, 0));
    let mut syns: i64 = 0;
    let mut synacks: i64 = 0;
    let mut begin: Option<i64> = None;
    assert(points_view(series@) =~= balance_points(ps, 0));
    let mut i: usize = 0;
    while i < packets.len()
        invariant
            i <= packets@.len() <= i64::MAX,
            ps == packet_models(packets@),
            syns == syn_count(ps, i as int),
            synacks == synack_count(ps, i as int),
            0 <= syns <= i,
            0 <= synacks <= i,
            begin matches Some(b) ==> first_tcp_usec(ps, i as int) == Some(b as int),
            begin is None ==> first_tcp_usec(ps, i as int) is None,
            begin matches Some(b) ==> 0 <= b <= u32::MAX as int * USEC_PER_SEC as int + u32::MAX as int,
            points_view(series@) == balance_points(ps, i as int),
            series@.len() == tcp_count(ps, i as int) + 1,
        decreases packets@.len() - i,
    {
        let p = &packets[i];
        assert(ps[i as int] == p@);
        if p.is_tcp() {
            if p.is_syn() {
                syns = syns + 1;
            }
            if p.is_synack() {
                synacks = synacks + 1;
            }
            let t = p.header.as_usec();
            let b = match begin {
                Some(b) => b,
                None => t,
            };
            begin = Some(b);
            let ghost old_series = series@;
            series.push((t - b, syns - synacks));
            assert(points_view(series@) =~= points_view(old_series).push(((t - b) as int, (syns - synacks) as int)));
        }
        i = i + 1;
    }
    series
}

/// The delays between neighbouring packets, in microseconds, each with its pair index.
pub fn inter_arrival_series(packets: &[Packet]) -> (r: Vec<(usize, i64)>)
    ensures
        r@.len() == if packets@.len() == 0 { 0 } else { packets@.len() - 1 },
        forall|k: int|
            0 <= k < packets@.len() - 1 ==> #[trigger] r@[k] == (
                k as usize,
                (usec_of(packets@[k + 1].header) - usec_of(packets@[k].header)) as i64,
            ),
{
    let mut series: Vec<(usize, i64)> = Vec::new();
    let mut i: usize = 1;
    while i < packets.len()
        invariant
            1 <= i,
            packets@.len() > 0 ==> i <= packets@.len(),
            packets@.len() == 0 ==> i == 1,
            series@.len() == i - 1,
            forall|k: int|
                0 <= k < i - 1 ==> #[trigger] series@[k] == (
                    k as usize,
                    (usec_of(packets@[k + 1].header) - usec_of(packets@[k].header)) as i64,
                ),
        decreases packets@.len() - i,
    {
        let delay = packets[i].header.as_usec() - packets[i - 1].header.as_usec();
        series.push((i - 1, delay));
        i = i + 1;
    }
    series
}

} // verus!
