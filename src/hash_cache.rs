//! Honeypot detection: a per-address record of the content hash of the
//! servers found on it, kept in a bounded LRU cache.
use vstd::prelude::*;
use lru_cache::LruCache;

verus! {

/// What is known of the servers seen on one address.
#[derive(Clone, Copy, Debug, PartialEq, Eq, Structural)]
pub struct CachedIpHash {
    /// The number of IPs found with the same hash. None if we already found an
    /// IP with a different hash.
    pub count: Option<usize>,
    pub hash: u64,
}

/// The record of one address: its hash state and the ports already counted.
pub struct AddressHashes {
    pub info: CachedIpHash,
    pub ports: Vec<u16>,
}

/// An address's record as plain values.
pub open spec fn record_view(r: AddressHashes) -> (CachedIpHash, Seq<u16>) {
    (r.info, r.ports@)
}

#[verifier::external_type_specification]
#[verifier::external_body]
#[verifier::reject_recursive_types(K)]
#[verifier::reject_recursive_types(V)]
#[verifier::reject_recursive_types(S)]
pub struct ExLruCache<K: core::cmp::Eq + core::hash::Hash, V, S: core::hash::BuildHasher>(LruCache<K, V, S>);

/// A name for what an LRU cache of address records holds.
pub uninterp spec fn lru_entries(c: LruCache<u32, AddressHashes>) -> Map<u32, (CachedIpHash, Seq<u16>)>;

/// A name for the capacity that an LRU cache was made with.
pub uninterp spec fn lru_capacity(c: LruCache<u32, AddressHashes>) -> nat;

/// Relies on lru_cache::LruCache::new: an empty cache of that capacity.
#[verifier::external_body]
pub(crate) fn new_lru(capacity: usize) -> (r: LruCache<u32, AddressHashes>)
    ensures
        lru_entries(r).dom() == Set::<u32>::empty(),
        lru_capacity(r) == capacity,
{
    LruCache::new(capacity)
}

/// Relies on lru_cache::LruCache::get_mut: the record of `k`, if any; what the
/// cache holds does not change (only its recency order).
#[verifier::external_body]
fn lru_get(c: &mut LruCache<u32, AddressHashes>, k: u32) -> (r: Option<AddressHashes>)
    ensures
        lru_entries(*final(c)) == lru_entries(*old(c)),
        lru_capacity(*final(c)) == lru_capacity(*old(c)),
        r is Some <==> lru_entries(*old(c)).contains_key(k),
        r matches Some(e) ==> record_view(e) == lru_entries(*old(c))[k],
{
    c.get_mut(&k).map(|e| AddressHashes { info: e.info, ports: e.ports.clone() })
}

/// Relies on lru_cache::LruCache::insert: the record of `k` is replaced (the
/// map's length stays, so nothing is evicted: no insert ever leaves the cache
/// above its capacity); where `k` is new and the cache is then over capacity,
/// the front of its recency list goes, which is not `k` (just put at the back).
#[verifier::external_body]
fn lru_insert(c: &mut LruCache<u32, AddressHashes>, k: u32, v: AddressHashes)
    requires
        lru_capacity(*old(c)) > 0,
    ensures
        lru_capacity(*final(c)) == lru_capacity(*old(c)),
        stored(lru_entries(*old(c)), lru_entries(*final(c)), k, record_view(v)),
{
    c.insert(k, v);
}

/// `after` is `before` with `k` set to `v`, and, where `k` was new, perhaps one
/// other key gone.
pub open spec fn stored(
    before: Map<u32, (CachedIpHash, Seq<u16>)>,
    after: Map<u32, (CachedIpHash, Seq<u16>)>,
    k: u32,
    v: (CachedIpHash, Seq<u16>),
) -> bool {
    ||| after == before.insert(k, v)
    ||| !before.contains_key(k) && exists|j: u32| j != k && before.contains_key(j)
        && after == #[trigger] before.insert(k, v).remove(j)
}

/// Count of same-hash ports at which an address is taken for a honeypot.
pub const PROMOTION_THRESHOLD: usize = 100;

/// Whether a new response on `port` needs its content hash to be decided.
pub open spec fn needs_hash(rec: Option<(CachedIpHash, Seq<u16>)>, port: u16) -> bool {
    match rec {
        None => true,
        Some((info, ports)) => !ports.contains(port) && info.count is Some,
    }
}

/// The decisions for responses on `ports` with content hashes `hashes`, one
/// after another, on an address with no record: the final record and, for
/// each response, whether it made the address a honeypot.
pub open spec fn run(ports: Seq<u16>, hashes: Seq<u64>) -> (Option<(CachedIpHash, Seq<u16>)>, Seq<bool>)
    decreases ports.len(),
{
    if ports.len() == 0 || hashes.len() != ports.len() {
        (None, Seq::empty())
    } else {
        let (rec, flags) = run(ports.drop_last(), hashes.drop_last());
        let (next, promote) = step(rec, ports.last(), hashes.last());
        (next, flags.push(promote))
    }
}

/// For each response of `run`, whether it made the address a honeypot.
pub open spec fn promotions(ports: Seq<u16>, hashes: Seq<u64>) -> Seq<bool> {
    run(ports, hashes).1
}

proof fn lemma_run_same_hash(ports: Seq<u16>, h: u64, k: nat)
    requires
        ports.no_duplicates(),
        1 <= k <= ports.len(),
        ports.len() <= 65536,
    ensures
        run(ports.subrange(0, k as int), Seq::new(k, |i: int| h)).0
            == Some((CachedIpHash { count: Some(k as usize), hash: h }, ports.subrange(0, k as int))),
        run(ports.subrange(0, k as int), Seq::new(k, |i: int| h)).1 =~= Seq::new(k, |i: int| i + 1 == 100),
    decreases k,
{
    let ps = ports.subrange(0, k as int);
    let hs = Seq::new(k, |i: int| h);
    assert(ps.drop_last() =~= ports.subrange(0, k - 1));
    assert(hs.drop_last() =~= Seq::new((k - 1) as nat, |i: int| h));
    if k == 1 {
        assert(ports.subrange(0, 0) =~= Seq::<u16>::empty());
        assert(seq![ports[0]] =~= ps);
    } else {
        lemma_run_same_hash(ports, h, (k - 1) as nat);
        let prev = ports.subrange(0, k - 1);
        assert(!prev.contains(ports[k - 1])) by {
            if prev.contains(ports[k - 1]) {
                let t = choose|t: int| 0 <= t < prev.len() && prev[t] == ports[k - 1];
                assert(ports[t] == ports[k - 1]);
            }
        }
        assert(prev.push(ports[k - 1]) =~= ps);
    }
}

/// A hundred distinct ports of one address, all with the same content hash,
/// make it a honeypot exactly once: at the hundredth.
pub proof fn lemma_promotes_at_threshold(ports: Seq<u16>, h: u64)
    requires
        ports.len() == 100,
        ports.no_duplicates(),
    ensures
        promotions(ports, Seq::new(100, |j: int| h)) == Seq::new(100, |i: int| i == 99),
{
    lemma_run_same_hash(ports, h, 100);
    assert(ports.subrange(0, 100) =~= ports);
}

/// Ninety-nine distinct ports with the same content hash do not make an
/// address a honeypot.
pub proof fn lemma_no_promotion_below_threshold(ports: Seq<u16>, h: u64)
    requires
        ports.len() == 99,
        ports.no_duplicates(),
    ensures
        promotions(ports, Seq::new(99, |j: int| h)) == Seq::new(99, |i: int| false),
{
    lemma_run_same_hash(ports, h, 99);
    assert(ports.subrange(0, 99) =~= ports);
}

/// Once an address's count is disabled, no later response changes its record
/// or makes it a honeypot.
pub proof fn lemma_disabled_stays_disabled(info: CachedIpHash, ports: Seq<u16>, port: u16, hash: u64)
    requires
        info.count is None,
    ensures
        step(Some((info, ports)), port, hash) == (Some((info, ports)), false),
{
}

/// While every hash so far equals the first, the count is the number of
/// responses and below the threshold nothing is promoted; after a different
/// hash the count is disabled.
proof fn lemma_run_prefix(ports: Seq<u16>, hashes: Seq<u64>, k: nat)
    requires
        ports.no_duplicates(),
        ports.len() == hashes.len(),
        1 <= k <= ports.len() <= 100,
    ensures
        ({
            let (rec, flags) = run(ports.subrange(0, k as int), hashes.subrange(0, k as int));
            &&& rec is Some
            &&& rec.unwrap().0.hash == hashes[0]
            &&& rec.unwrap().1 =~= ports.subrange(0, k as int) || rec.unwrap().0.count is None
            &&& (forall|i: int| 0 <= i < k ==> #[trigger] hashes[i] == hashes[0]) ==> rec.unwrap().0.count == Some(k as usize)
            &&& (exists|i: int| 0 <= i < k && #[trigger] hashes[i] != hashes[0]) ==> rec.unwrap().0.count is None
            &&& forall|i: int| 0 <= i < k ==> #[trigger] flags[i] ==> (i == 99 && forall|t: int| 0 <= t <= i ==> #[trigger] hashes[t] == hashes[0])
            &&& flags.len() == k
        }),
    decreases k,
{
    let ps = ports.subrange(0, k as int);
    let hs = hashes.subrange(0, k as int);
    assert(ps.drop_last() =~= ports.subrange(0, k - 1));
    assert(hs.drop_last() =~= hashes.subrange(0, k - 1));
    if k == 1 {
        assert(ports.subrange(0, 0) =~= Seq::<u16>::empty());
        assert(seq![ports[0]] =~= ps);
    } else {
        lemma_run_prefix(ports, hashes, (k - 1) as nat);
        let prev = ports.subrange(0, k - 1);
        assert(!prev.contains(ports[k - 1])) by {
            if prev.contains(ports[k - 1]) {
                let t = choose|t: int| 0 <= t < prev.len() && prev[t] == ports[k - 1];
                assert(ports[t] == ports[k - 1]);
            }
        }
        assert(prev.push(ports[k - 1]) =~= ps);
        let (rec, flags) = run(ports.subrange(0, k - 1), hashes.subrange(0, k - 1));
        if exists|i: int| 0 <= i < k - 1 && #[trigger] hashes[i] != hashes[0] {
        } else {
            assert(rec.unwrap().0.count == Some((k - 1) as usize));
        }
    }
}

/// Among a hundred distinct ports, one content hash that differs from the
/// others keeps the address from being made a honeypot.
pub proof fn lemma_divergent_hash_blocks_promotion(ports: Seq<u16>, hashes: Seq<u64>, h: u64, d: int)
    requires
        ports.len() == 100,
        hashes.len() == 100,
        ports.no_duplicates(),
        0 <= d < 100,
        forall|i: int| 0 <= i < 100 && i != d ==> hashes[i] == h,
        hashes[d] != h,
    ensures
        promotions(ports, hashes) == Seq::new(100, |i: int| false),
        run(ports, hashes).0 matches Some(r) && r.0.count is None,
{
    lemma_run_prefix(ports, hashes, 100);
    assert(ports.subrange(0, 100) =~= ports);
    assert(hashes.subrange(0, 100) =~= hashes);
    if d == 0 {
        assert(hashes[1] != hashes[0]);
    } else {
        assert(hashes[d] != hashes[0]);
    }
    assert(exists|i: int| 0 <= i < 100 && #[trigger] hashes[i] != hashes[0]);
    assert(promotions(ports, hashes) =~= Seq::new(100, |i: int| false));
}

proof fn lemma_run_promoted_then_high(ports: Seq<u16>, hashes: Seq<u64>)
    requires
        ports.len() == hashes.len(),
    ensures
        (exists|i: int| 0 <= i < run(ports, hashes).1.len() && #[trigger] run(ports, hashes).1[i])
            ==> (run(ports, hashes).0 matches Some(r) && (r.0.count matches Some(c) ==> c >= 100)),
        run(ports, hashes).1.len() == ports.len(),
        forall|i: int, j: int| 0 <= i < j < run(ports, hashes).1.len()
            ==> !(#[trigger] run(ports, hashes).1[i] && #[trigger] run(ports, hashes).1[j]),
    decreases ports.len(),
{
    if ports.len() > 0 {
        let (ps, hs) = (ports.drop_last(), hashes.drop_last());
        lemma_run_promoted_then_high(ps, hs);
        let (rec, flags) = run(ps, hs);
        let (next, promote) = step(rec, ports.last(), hashes.last());
        assert(run(ports, hashes) == (next, flags.push(promote)));
        if exists|i: int| 0 <= i < flags.len() && #[trigger] flags[i] {
            assert(!promote);
        }
        assert forall|i: int, j: int| 0 <= i < j < flags.push(promote).len()
            implies !(#[trigger] flags.push(promote)[i] && #[trigger] flags.push(promote)[j]) by {
            if j == flags.len() && flags[i] {
                assert(flags.push(promote)[i] == flags[i]);
            }
        }
        if exists|i: int| 0 <= i < flags.push(promote).len() && #[trigger] flags.push(promote)[i] {
            let i = choose|i: int| 0 <= i < flags.push(promote).len() && #[trigger] flags.push(promote)[i];
            if i < flags.len() {
                assert(flags[i]);
            }
        }
    }
}

/// Whatever the ports and hashes, an address is made a honeypot at most once.
pub proof fn lemma_promoted_at_most_once(ports: Seq<u16>, hashes: Seq<u64>)
    requires
        ports.len() == hashes.len(),
    ensures
        forall|i: int, j: int| 0 <= i < j < promotions(ports, hashes).len()
            ==> !(#[trigger] promotions(ports, hashes)[i] && #[trigger] promotions(ports, hashes)[j]),
{
    lemma_run_promoted_then_high(ports, hashes);
}

/// `c + 1`, held at the top of the type's range.
pub open spec fn saturating_inc(c: usize) -> usize {
    if c < usize::MAX { (c + 1) as usize } else { c }
}

/// One decision: the address's new record, and whether it has just become a
/// honeypot (its count reaching the threshold, which happens once).
pub open spec fn step(rec: Option<(CachedIpHash, Seq<u16>)>, port: u16, hash: u64)
    -> (Option<(CachedIpHash, Seq<u16>)>, bool)
{
    match rec {
        None => (Some((CachedIpHash { count: Some(1), hash }, seq![port])), false),
        Some((info, ports)) => if ports.contains(port) {
            (rec, false)
        } else {
            match info.count {
                None => (rec, false),
                Some(c) => if hash == info.hash {
                    (Some((CachedIpHash { count: Some(saturating_inc(c)), hash: info.hash }, ports.push(port))),
                        saturating_inc(c) == 100)
                } else {
                    (Some((CachedIpHash { count: None, hash: info.hash }, ports)), false)
                },
            }
        },
    }
}

/// The record of `ip` in `m`, if any.
pub open spec fn record_of(m: Map<u32, (CachedIpHash, Seq<u16>)>, ip: u32) -> Option<(CachedIpHash, Seq<u16>)> {
    if m.contains_key(ip) { Some(m[ip]) } else { None }
}

/// The effect of counting a response on `ip`:`port` with content hash `hash`:
/// the decision of `step` on the address's record, stored in the cache; or,
/// where the hash was needed and is missing, nothing.
pub open spec fn hash_recorded(
    before: Map<u32, (CachedIpHash, Seq<u16>)>,
    after: Map<u32, (CachedIpHash, Seq<u16>)>,
    ip: u32,
    port: u16,
    hash: Option<u64>,
    r: Result<bool, MissingHash>,
) -> bool {
    let rec = record_of(before, ip);
    if needs_hash(rec, port) && hash is None {
        r == Err::<bool, MissingHash>(MissingHash) && after == before
    } else {
        let h = match hash { Some(x) => x, None => 0 };
        let (next, promote) = step(rec, port, h);
        &&& r == Ok::<bool, MissingHash>(promote)
        &&& next == rec ==> after == before
        &&& next != rec ==> (next matches Some(n) && stored(before, after, ip, n))
    }
}

/// Each counted response advances its address's record by exactly one
/// `step`, so the laws about `run` hold of the calls on one address (while
/// its record stays in the cache).
pub proof fn lemma_recorded_is_step(
    before: Map<u32, (CachedIpHash, Seq<u16>)>,
    after: Map<u32, (CachedIpHash, Seq<u16>)>,
    ip: u32,
    port: u16,
    hash: u64,
    r: Result<bool, MissingHash>,
)
    requires
        hash_recorded(before, after, ip, port, Some(hash), r),
    ensures
        record_of(after, ip) == step(record_of(before, ip), port, hash).0,
        r == Ok::<bool, MissingHash>(step(record_of(before, ip), port, hash).1),
{
    let (next, _) = step(record_of(before, ip), port, hash);
    if next != record_of(before, ip) {
        let n = next.unwrap();
        if after != before.insert(ip, n) {
            let j = choose|j: u32| j != ip && before.contains_key(j) && after == #[trigger] before.insert(ip, n).remove(j);
            assert(after.contains_key(ip) && after[ip] == n);
        }
    }
}

/// No hash could be computed for a response whose hash was needed.
#[derive(Clone, Copy, Debug, PartialEq, Eq, Structural)]
pub struct MissingHash;

fn contains_port(ports: &Vec<u16>, port: u16) -> (r: bool)
    ensures
        r == ports@.contains(port),
{
    let mut i: usize = 0;
    while i < ports.len()
        invariant
            i <= ports.len(),
            forall|t: int| 0 <= t < i ==> ports@[t] != port,
        decreases ports.len() - i,
    {
        if ports[i] == port {
            assert(ports@[i as int] == port);
            return true;
        }
        i += 1;
    }
    false
}

/// Counts a response on `ip`:`port` whose content hash is `hash` (`None`
/// where it could not be computed), and says whether the address has now
/// reached the honeypot threshold.
pub fn record_hash(cache: &mut LruCache<u32, AddressHashes>, ip: u32, port: u16, hash: Option<u64>)
    -> (r: Result<bool, MissingHash>)
    requires
        lru_capacity(*old(cache)) > 0,
    ensures
        lru_capacity(*final(cache)) == lru_capacity(*old(cache)),
        hash_recorded(lru_entries(*old(cache)), lru_entries(*final(cache)), ip, port, hash, r),
{
    let ghost before = lru_entries(*cache);
    match lru_get(cache, ip) {
        None => {
            let h = match hash {
                Some(x) => x,
                None => return Err(MissingHash),
            };
            let ports = vec![port];
            assert(ports@ =~= seq![port]);
            lru_insert(cache, ip, AddressHashes { info: CachedIpHash { count: Some(1), hash: h }, ports });
            Ok(false)
        },
        Some(rec) => {
            if contains_port(&rec.ports, port) {
                return Ok(false);
            }
            match rec.info.count {
                None => Ok(false),
                Some(count) => {
                    let h = match hash {
                        Some(x) => x,
                        None => return Err(MissingHash),
                    };
                    let mut ports = rec.ports;
                    if h == rec.info.hash {
                        let n = if count < usize::MAX { count + 1 } else { count };
                        ports.push(port);
                        lru_insert(cache, ip, AddressHashes { info: CachedIpHash { count: Some(n), hash: rec.info.hash }, ports });
                        Ok(n == PROMOTION_THRESHOLD)
                    } else {
                        lru_insert(cache, ip, AddressHashes { info: CachedIpHash { count: None, hash: rec.info.hash }, ports });
                        Ok(false)
                    }
                },
            }
        },
    }
}

} // verus!
