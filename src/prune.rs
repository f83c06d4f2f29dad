//! Trimming of the player maps of servers that report a new random player on
//! every probe.
use vstd::prelude::*;

verus! {

/// One entry of a server's player map.
pub struct PlayerEntry {
    /// The player's identifier, the key of the entry.
    pub id: String,
    /// When the player was last seen, in milliseconds since the epoch.
    pub last_seen: i64,
    pub name: String,
}

/// Player maps larger than this are trimmed.
pub const TRIM_ABOVE: usize = 1000;

/// How many entries a trimmed map keeps.
pub const TRIM_TO: usize = 500;

/// Whether a player map of `n` entries is to be trimmed.
pub fn needs_trim(n: usize) -> (r: bool)
    ensures
        r == (n > 1000),
{
    n > TRIM_ABOVE
}

/// Relies on slice::sort_by_key (std): the entries are rearranged in order of
/// last-seen time, ascending.
#[verifier::external_body]
fn sort_by_last_seen(v: &mut Vec<PlayerEntry>)
    ensures
        final(v)@.to_multiset() == old(v)@.to_multiset(),
        forall|i: int, j: int| 0 <= i <= j < final(v)@.len() ==> final(v)@[i].last_seen <= final(v)@[j].last_seen,
{
    v.sort_by_key(|p| p.last_seen)
}

/// The 500 most recently seen entries of a player map, most recent first
/// (all of them where there are fewer).
pub fn trim_players(players: Vec<PlayerEntry>) -> (r: Vec<PlayerEntry>)
    ensures
        r@.len() == if players@.len() < 500 { players@.len() } else { 500 },
        forall|i: int, j: int| 0 <= i <= j < r@.len() ==> r@[i].last_seen >= r@[j].last_seen,
        exists|dropped: Seq<PlayerEntry>| {
            &&& (r@ + dropped).to_multiset() == players@.to_multiset()
            &&& forall|i: int, j: int| 0 <= i < r@.len() && 0 <= j < dropped.len()
                ==> #[trigger] dropped[j].last_seen <= #[trigger] r@[i].last_seen
        },
{
    let ghost input = players@;
    let mut sorted = players;
    sort_by_last_seen(&mut sorted);
    let ghost s = sorted@;
    proof {
        vstd::seq_lib::to_multiset_len(s);
        vstd::seq_lib::to_multiset_len(input);
    }
    let n = sorted.len();
    let k: usize = if n < TRIM_TO { n } else { TRIM_TO };
    let ghost rs = s.reverse();
    let mut kept: Vec<PlayerEntry> = Vec::new();
    let mut rest = sorted;
    let mut i: usize = 0;
    while i < k
        invariant
            k <= n,
            n == s.len(),
            rs == s.reverse(),
            i <= k,
            rest@ == s.subrange(0, n - i),
            kept@ == rs.subrange(0, i as int),
        decreases k - i,
    {
        let e = rest.pop().unwrap();
        kept.push(e);
        assert(kept@ =~= rs.subrange(0, i as int + 1));
        assert(rest@ =~= s.subrange(0, n - i - 1));
        i += 1;
    }
    let ghost dropped = rs.subrange(k as int, n as int);
    proof {
        assert(kept@ + dropped =~= rs);
        s.lemma_reverse_to_multiset();
        assert forall|a: int, b: int| 0 <= a < kept@.len() && 0 <= b < dropped.len()
            implies #[trigger] dropped[b].last_seen <= #[trigger] kept@[a].last_seen by {
            assert(dropped[b] == s[n - 1 - (k + b)]);
            assert(kept@[a] == s[n - 1 - a]);
        }
        assert forall|a: int, b: int| 0 <= a <= b < kept@.len()
            implies kept@[a].last_seen >= kept@[b].last_seen by {
            assert(kept@[a] == s[n - 1 - a]);
            assert(kept@[b] == s[n - 1 - b]);
        }
    }
    kept
}

} // verus!
