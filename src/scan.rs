//! Which addresses to probe next: snapshots of known servers, and the
//! ranges that the rescanning modes derive from them.
use vstd::prelude::*;
use std::collections::HashSet;
use crate::database::{DatabaseSharedData, Snapshot, CANONICAL_PORT};

verus! {

broadcast use vstd::std_specs::hash::group_hash_axioms;

/// The categories of known servers.
#[derive(Clone, Copy, Debug, PartialEq, Eq, Structural)]
pub enum CollectServersFilter {
    /// Was alive in the past 30 days
    Active30d,
    /// Was alive in the past 365 days
    Active365d,
    /// Found in the past 7 days
    New,
}

/// The order in which servers are rescanned.
#[derive(Clone, Copy, Debug, PartialEq, Eq, Structural)]
pub enum Sort {
    Random,
    Oldest,
}

/// Addresses `addr_start..=addr_end` on ports `port_start..=port_end`.
#[derive(Clone, Copy, Debug, PartialEq, Eq, Structural)]
pub struct ScanRange {
    pub addr_start: u32,
    pub addr_end: u32,
    pub port_start: u16,
    pub port_end: u16,
}

/// How long a snapshot serves, in milliseconds.
pub const SNAPSHOT_TTL_MS: u64 = 86_400_000;

pub const DAY_MS: i64 = 86_400_000;

pub open spec fn snapshot_of(shared: DatabaseSharedData, filter: CollectServersFilter) -> Option<Snapshot> {
    match filter {
        CollectServersFilter::Active30d => shared.cached_all_servers_30_days,
        CollectServersFilter::Active365d => shared.cached_all_servers_365_days,
        CollectServersFilter::New => shared.cached_all_servers_new,
    }
}

/// A snapshot taken at `taken_at` still serves at `now` (a monotonic clock;
/// a clock that went back counts as no time passed).
pub open spec fn fresh(taken_at: u64, now: u64) -> bool {
    now <= taken_at || now - taken_at < 86_400_000
}

fn copy_servers(v: &Vec<(u32, u16)>) -> (r: Vec<(u32, u16)>)
    ensures
        r@ == v@,
{
    let mut out: Vec<(u32, u16)> = Vec::new();
    let mut i: usize = 0;
    while i < v.len()
        invariant
            i <= v.len(),
            out@ == v@.subrange(0, i as int),
        decreases v.len() - i,
    {
        out.push(v[i]);
        i += 1;
        assert(out@ =~= v@.subrange(0, i as int));
    }
    assert(v@.subrange(0, v.len() as int) =~= v@);
    out
}

/// The cached list of a category, where it was collected less than a day
/// before `now` (milliseconds on a monotonic clock).
pub fn cached_servers(shared: &DatabaseSharedData, filter: CollectServersFilter, now: u64) -> (r: Option<Vec<(u32, u16)>>)
    ensures
        match snapshot_of(*shared, filter) {
            Some(s) => if fresh(s.taken_at, now) { r matches Some(v) && v@ == s.servers@ } else { r is None },
            None => r is None,
        },
{
    let snap = match filter {
        CollectServersFilter::Active30d => &shared.cached_all_servers_30_days,
        CollectServersFilter::Active365d => &shared.cached_all_servers_365_days,
        CollectServersFilter::New => &shared.cached_all_servers_new,
    };
    match snap {
        Some(s) => if now <= s.taken_at || now - s.taken_at < SNAPSHOT_TTL_MS {
            Some(copy_servers(&s.servers))
        } else {
            None
        },
        None => None,
    }
}

/// Keeps a freshly collected list of a category, taken at `now`.
pub fn store_snapshot(shared: &mut DatabaseSharedData, filter: CollectServersFilter, servers: Vec<(u32, u16)>, now: u64)
    ensures
        snapshot_of(*final(shared), filter) matches Some(s) && s.servers@ == servers@ && s.taken_at == now,
        forall|f: CollectServersFilter| f != filter ==> snapshot_of(*final(shared), f) == snapshot_of(*old(shared), f),
        final(shared).bad_ips == old(shared).bad_ips,
        final(shared).ips_with_same_hash == old(shared).ips_with_same_hash,
{
    let snap = Snapshot { servers, taken_at: now };
    match filter {
        CollectServersFilter::Active30d => shared.cached_all_servers_30_days = Some(snap),
        CollectServersFilter::Active365d => shared.cached_all_servers_365_days = Some(snap),
        CollectServersFilter::New => shared.cached_all_servers_new = Some(snap),
    }
}

/// What a category selects in the store.
#[derive(Clone, Copy, Debug, PartialEq, Eq, Structural)]
pub enum ServerSelection {
    /// Records whose last response came after this instant (milliseconds
    /// since the epoch).
    RespondedAfter(i64),
    /// Records created after this instant (seconds since the epoch).
    CreatedAfter(u32),
}

/// `ms` milliseconds before `now`, held at the earliest instant that an
/// `i64` can name.
pub open spec fn before(now: i64, ms: int) -> i64 {
    if now - ms < i64::MIN { i64::MIN } else { (now - ms) as i64 }
}

/// `ms` milliseconds before `now`, held at the earliest instant that an
/// `i64` can name.
pub fn millis_before(now: i64, ms: u64) -> (r: i64)
    ensures
        r == before(now, ms as int),
{
    let t: i128 = now as i128 - ms as i128;
    if t < i64::MIN as i128 { i64::MIN } else { t as i64 }
}

/// Whole seconds since the epoch of an instant in milliseconds, 0 before the
/// epoch, kept to 32 bits as object ids keep them.
pub open spec fn id_seconds(t: i64) -> u32 {
    if t <= 0 { 0 } else { (t / 1000) as u32 }
}

/// The selection of a category at `now` (milliseconds since the epoch).
pub fn selection_for(filter: CollectServersFilter, now: i64) -> (r: ServerSelection)
    ensures
        filter == CollectServersFilter::Active30d ==> r == ServerSelection::RespondedAfter(before(now, 30 * 86_400_000int)),
        filter == CollectServersFilter::Active365d ==> r == ServerSelection::RespondedAfter(before(now, 365 * 86_400_000int)),
        filter == CollectServersFilter::New ==> r == ServerSelection::CreatedAfter(id_seconds(before(now, 7 * 86_400_000int))),
{
    match filter {
        CollectServersFilter::Active30d => ServerSelection::RespondedAfter(millis_before(now, 30 * DAY_MS as u64)),
        CollectServersFilter::Active365d => ServerSelection::RespondedAfter(millis_before(now, 365 * DAY_MS as u64)),
        CollectServersFilter::New => {
            let t = millis_before(now, 7 * DAY_MS as u64);
            ServerSelection::CreatedAfter(if t <= 0 { 0 } else { #[verifier::truncate] ((t / 1000) as u32) })
        },
    }
}

/// The twelve bytes of the smallest object id created after `secs` seconds
/// since the epoch: the seconds, big-endian, then zeros.
pub fn object_id_floor(secs: u32) -> (r: Vec<u8>)
    ensures
        r@.len() == 12,
        r@[0] as nat * 0x1000000 + r@[1] as nat * 0x10000 + r@[2] as nat * 0x100 + r@[3] as nat == secs,
        forall|i: int| 4 <= i < 12 ==> r@[i] == 0,
{
    let b0 = (secs >> 24u32) as u8;
    let b1 = #[verifier::truncate] ((secs >> 16u32) as u8);
    let b2 = #[verifier::truncate] ((secs >> 8u32) as u8);
    let b3 = #[verifier::truncate] (secs as u8);
    assert(b0 as nat * 0x1000000 + b1 as nat * 0x10000 + b2 as nat * 0x100 + b3 as nat == secs) by (bit_vector)
        requires
            b0 == (secs >> 24u32) as u8,
            b1 == (secs >> 16u32) as u8,
            b2 == (secs >> 8u32) as u8,
            b3 == secs as u8,
    ;
    vec![b0, b1, b2, b3, 0, 0, 0, 0, 0, 0, 0, 0]
}

/// The time window of servers due for a rescan.
#[derive(Clone, Copy, Debug, PartialEq, Eq, Structural)]
pub struct RescanWindow {
    /// Last response after this instant (milliseconds since the epoch).
    pub responded_after: i64,
    /// Last response before this instant.
    pub responded_before: i64,
    /// Players seen after this instant, where that is asked for.
    pub active_after: Option<i64>,
}

/// The window at `now` (milliseconds since the epoch) for servers last seen
/// at most `last_ping_ago_max_secs` ago, not rescanned in the last
/// `rescan_every_secs`, and, where given, with players in the last
/// `players_online_ago_max_secs`.
pub fn rescan_window(now: i64, rescan_every_secs: u64, players_online_ago_max_secs: Option<u64>, last_ping_ago_max_secs: u64)
    -> (r: RescanWindow)
    ensures
        r.responded_after == before(now, last_ping_ago_max_secs * 1000int),
        r.responded_before == before(now, rescan_every_secs * 1000int),
        r.active_after == match players_online_ago_max_secs {
            Some(p) => Some(before(now, p * 1000int)),
            None => None,
        },
{
    let active_after = match players_online_ago_max_secs {
        Some(p) => Some(seconds_before(now, p)),
        None => None,
    };
    RescanWindow {
        responded_after: seconds_before(now, last_ping_ago_max_secs),
        responded_before: seconds_before(now, rescan_every_secs),
        active_after,
    }
}

fn seconds_before(now: i64, secs: u64) -> (r: i64)
    ensures
        r == before(now, secs * 1000int),
{
    let t: i128 = now as i128 - (secs as i128) * 1000;
    if t < i64::MIN as i128 { i64::MIN } else { t as i64 }
}

/// The order in which a rescan takes its servers from the store.
#[derive(Clone, Copy, Debug, PartialEq, Eq, Structural)]
pub enum RescanOrder {
    /// A random sample of this size.
    Sample(i64),
    /// Longest unseen first, at most this many where given.
    OldestFirst(Option<i64>),
}

/// The order for a sort choice (oldest first by default) and a limit.
pub fn rescan_order(sort: Option<Sort>, limit: Option<usize>) -> (r: RescanOrder)
    ensures
        sort == Some(Sort::Random) ==> r == RescanOrder::Sample(match limit {
            Some(l) => l as i64,
            None => 10000000,
        }),
        sort != Some(Sort::Random) ==> r == RescanOrder::OldestFirst(match limit {
            Some(l) => Some(l as i64),
            None => None,
        }),
{
    match sort {
        Some(Sort::Random) => RescanOrder::Sample(match limit {
            Some(l) => #[verifier::truncate] (l as i64),
            None => 10000000,
        }),
        _ => RescanOrder::OldestFirst(match limit {
            Some(l) => Some(#[verifier::truncate] (l as i64)),
            None => None,
        }),
    }
}

/// Rescan targets from stored servers, in order: a server on a known
/// honeypot's non-canonical port is not rescanned but its address is listed
/// for the deletion of its records, once.
pub open spec fn rescan_plan(bad: Set<u32>, found: Seq<(u32, u16)>) -> (Seq<ScanRange>, Seq<u32>, Set<u32>)
    decreases found.len(),
{
    if found.len() == 0 {
        (Seq::empty(), Seq::empty(), bad)
    } else {
        let (ranges, deletions, left) = rescan_plan(bad, found.drop_last());
        let (ip, port) = found.last();
        if left.contains(ip) && port != 25565 {
            (ranges, deletions.push(ip), left.remove(ip))
        } else {
            (ranges.push(ScanRange { addr_start: ip, addr_end: ip, port_start: port, port_end: port }), deletions, left)
        }
    }
}

/// The rescan targets among `found`, and the honeypot addresses whose stray
/// records are to be deleted.
pub fn rescan_targets(bad_ips: &HashSet<u32>, found: &Vec<(u32, u16)>) -> (r: (Vec<ScanRange>, Vec<u32>))
    ensures
        r.0@ == rescan_plan(bad_ips@, found@).0,
        r.1@ == rescan_plan(bad_ips@, found@).1,
{
    let mut left: HashSet<u32> = HashSet::new();
    let mut ranges: Vec<ScanRange> = Vec::new();
    let mut deletions: Vec<u32> = Vec::new();
    let mut i: usize = 0;
    assert(found@.subrange(0, 0) =~= Seq::<(u32, u16)>::empty());
    let mut removed: HashSet<u32> = HashSet::new();
    while i < found.len()
        invariant
            i <= found.len(),
            rescan_plan(bad_ips@, found@.subrange(0, i as int)) == (ranges@, deletions@, bad_ips@.difference(removed@)),
        decreases found.len() - i,
    {
        let ghost pre = found@.subrange(0, i as int + 1);
        assert(pre.drop_last() =~= found@.subrange(0, i as int));
        let (ip, port) = found[i];
        if bad_ips.contains(&ip) && !removed.contains(&ip) && port != CANONICAL_PORT {
            deletions.push(ip);
            removed.insert(ip);
            assert(bad_ips@.difference(removed@) =~= bad_ips@.difference(removed@.remove(ip)).remove(ip));
        } else {
            ranges.push(ScanRange { addr_start: ip, addr_end: ip, port_start: port, port_end: port });
        }
        i += 1;
    }
    assert(found@.subrange(0, found.len() as int) =~= found@);
    (ranges, deletions)
}

/// Some range of `rs` starts at address `a`.
pub open spec fn covers(rs: Seq<ScanRange>, a: u32) -> bool {
    exists|i: int| 0 <= i < rs.len() && rs[i].addr_start == a
}

/// Some server of `ss` is on address `a`.
pub open spec fn hosts(ss: Seq<(u32, u16)>, a: u32) -> bool {
    exists|k: int| 0 <= k < ss.len() && ss[k].0 == a
}

/// One range per distinct address of `servers`, in order of first
/// appearance, covering ports 1024 to 65535.
pub fn all_ports_ranges(servers: &Vec<(u32, u16)>) -> (r: Vec<ScanRange>)
    ensures
        forall|i: int| 0 <= i < r@.len() ==> #[trigger] r@[i] == (ScanRange {
            addr_start: r@[i].addr_start, addr_end: r@[i].addr_start, port_start: 1024, port_end: 65535 }),
        forall|i: int, j: int| 0 <= i < j < r@.len() ==> #[trigger] r@[i].addr_start != #[trigger] r@[j].addr_start,
        forall|k: int| 0 <= k < servers@.len() ==> covers(r@, #[trigger] servers@[k].0),
        forall|i: int| 0 <= i < r@.len() ==> hosts(servers@, #[trigger] r@[i].addr_start),
{
    let mut seen: HashSet<u32> = HashSet::new();
    let mut out: Vec<ScanRange> = Vec::new();
    let mut k: usize = 0;
    while k < servers.len()
        invariant
            k <= servers.len(),
            forall|i: int| 0 <= i < out@.len() ==> #[trigger] out@[i] == (ScanRange {
                addr_start: out@[i].addr_start, addr_end: out@[i].addr_start, port_start: 1024, port_end: 65535 }),
            forall|i: int, j: int| 0 <= i < j < out@.len() ==> #[trigger] out@[i].addr_start != #[trigger] out@[j].addr_start,
            forall|a: u32| #[trigger] seen@.contains(a) <==> covers(out@, a),
            forall|t: int| 0 <= t < k ==> #[trigger] seen@.contains(servers@[t].0),
            forall|i: int| 0 <= i < out@.len() ==> hosts(servers@, #[trigger] out@[i].addr_start),
        decreases servers.len() - k,
    {
        let ip = servers[k].0;
        if !seen.contains(&ip) {
            let ghost before = out@;
            out.push(ScanRange { addr_start: ip, addr_end: ip, port_start: 1024, port_end: 65535 });
            seen.insert(ip);
            assert forall|a: u32| #[trigger] seen@.contains(a) <==> covers(out@, a) by {
                if a == ip {
                    assert(out@[out@.len() - 1].addr_start == a);
                } else if covers(before, a) {
                    let i = choose|i: int| 0 <= i < before.len() && before[i].addr_start == a;
                    assert(out@[i].addr_start == a);
                } else if covers(out@, a) {
                    let i = choose|i: int| 0 <= i < out@.len() && out@[i].addr_start == a;
                    assert(i < before.len());
                    assert(before[i].addr_start == a);
                }
            }
            assert(hosts(servers@, servers@[k as int].0));
            assert forall|i: int, j: int| 0 <= i < j < out@.len() implies #[trigger] out@[i].addr_start != #[trigger] out@[j].addr_start by {
                if j == out@.len() - 1 {
                    assert(covers(before, out@[i].addr_start));
                }
            }
        }
        k += 1;
    }
    proof {
        assert forall|t: int| 0 <= t < servers@.len() implies covers(out@, #[trigger] servers@[t].0) by {
            assert(seen@.contains(servers@[t].0));
        }
    }
    out
}

} // verus!
