//! The state shared by all processing tasks, the content hash of a record,
//! and the building of idempotent upserts.
use vstd::prelude::*;
use crate::text::lit;
use vstd::std_specs::hash::DefaultHasherAdditionalSpecFns;
use std::collections::hash_map::DefaultHasher;
use std::collections::HashSet;
use std::hash::Hasher;
use lru_cache::LruCache;
use crate::hash_cache::{hash_recorded, lru_capacity, lru_entries, new_lru, record_hash, AddressHashes, MissingHash};
use crate::json::{field, get_field, str_field, JsonValue};
use crate::normalize::ServerUpdate;

verus! {

broadcast use vstd::std_specs::hash::group_hash_axioms;

/// The port that a genuine server uses; records there survive a honeypot's
/// promotion.
pub const CANONICAL_PORT: u16 = 25565;

/// How many addresses the hash cache remembers.
pub const HASH_CACHE_CAPACITY: usize = 1048576;

/// A list of server addresses with the moment it was collected.
pub struct Snapshot {
    pub servers: Vec<(u32, u16)>,
    /// Milliseconds on a monotonic clock.
    pub taken_at: u64,
}

/// State shared by every processing task, behind one lock.
pub struct DatabaseSharedData {
    pub ips_with_same_hash: LruCache<u32, AddressHashes>,
    pub bad_ips: HashSet<u32>,
    pub cached_all_servers_30_days: Option<Snapshot>,
    pub cached_all_servers_365_days: Option<Snapshot>,
    pub cached_all_servers_new: Option<Snapshot>,
}

impl DatabaseSharedData {
    pub open spec fn wf(&self) -> bool {
        lru_capacity(self.ips_with_same_hash) > 0
    }

    /// Fresh state that knows the honeypot addresses `bad_ips`.
    pub fn new(bad_ips: HashSet<u32>) -> (r: Self)
        ensures
            r.wf(),
            lru_capacity(r.ips_with_same_hash) == HASH_CACHE_CAPACITY,
            r.bad_ips@ == bad_ips@,
            lru_entries(r.ips_with_same_hash).dom() == Set::<u32>::empty(),
            r.cached_all_servers_30_days is None,
            r.cached_all_servers_365_days is None,
            r.cached_all_servers_new is None,
    {
        DatabaseSharedData {
            ips_with_same_hash: new_lru(HASH_CACHE_CAPACITY),
            bad_ips,
            cached_all_servers_30_days: None,
            cached_all_servers_365_days: None,
            cached_all_servers_new: None,
        }
    }

    /// Takes `ip` for a honeypot. The set only grows.
    pub fn add_bad_ip(&mut self, ip: u32)
        ensures
            final(self).bad_ips@ == old(self).bad_ips@.insert(ip),
            final(self).ips_with_same_hash == old(self).ips_with_same_hash,
    {
        self.bad_ips.insert(ip);
    }

    pub fn is_bad_ip(&self, ip: u32) -> (r: bool)
        ensures
            r == self.bad_ips@.contains(ip),
    {
        self.bad_ips.contains(&ip)
    }
}

/// An integer member read as stored: an `i32`, truncated where it is wider;
/// 0 where it is missing or not an integer.
pub open spec fn stored_i32(v: Option<JsonValue>) -> i32 {
    match v {
        Some(JsonValue::Int(n)) => n as i32,
        _ => 0,
    }
}

/// The fields that a record's content hash covers: description, version
/// name, protocol and maximum players. `None` where the version is no object.
pub open spec fn hashed_fields(u: ServerUpdate) -> Option<(Seq<char>, Seq<char>, i32, i32)> {
    match field(u.minecraft, "version"@) {
        Some(version) => if version is Object {
            let name = match str_field(version, "name"@) { Some(s) => s, None => Seq::empty() };
            let max = match field(u.minecraft, "players"@) {
                Some(p) => if p is Object { stored_i32(field(p, "max"@)) } else { 0 },
                None => 0,
            };
            Some((u.description@, name, stored_i32(field(version, "protocol"@)), max))
        } else {
            None
        },
        None => None,
    }
}

/// The little-endian bytes of `x`.
pub open spec fn le_bytes(x: i32) -> Seq<u8> {
    seq![(x as u32 & 0xFF) as u8, ((x as u32 >> 8u32) & 0xFF) as u8,
        ((x as u32 >> 16u32) & 0xFF) as u8, ((x as u32 >> 24u32) & 0xFF) as u8]
}

/// The content hash of the fields: std's default hasher over the two strings
/// (each closed by a 0xFF byte) and the two integers.
pub open spec fn content_hash(f: (Seq<char>, Seq<char>, i32, i32)) -> u64 {
    DefaultHasher::spec_finish(seq![
        vstd::utf8::encode_utf8(f.0), seq![0xFFu8], vstd::utf8::encode_utf8(f.1), seq![0xFFu8],
        le_bytes(f.2), le_bytes(f.3)])
}

/// The content hash of a record, where its version is an object.
pub open spec fn server_hash(u: ServerUpdate) -> Option<u64> {
    match hashed_fields(u) {
        Some(f) => Some(content_hash(f)),
        None => None,
    }
}

fn stored_i32_of(v: Option<&JsonValue>) -> (r: i32)
    ensures
        r == stored_i32(match v { Some(x) => Some(*x), None => None }),
{
    match v {
        Some(JsonValue::Int(n)) => #[verifier::truncate] (*n as i32),
        _ => 0,
    }
}

fn le_bytes_of(x: i32) -> (r: Vec<u8>)
    ensures
        r@ == le_bytes(x),
{
    let u = #[verifier::truncate] (x as u32);
    let v = vec![
        #[verifier::truncate] ((u & 0xFF) as u8),
        #[verifier::truncate] (((u >> 8u32) & 0xFF) as u8),
        #[verifier::truncate] (((u >> 16u32) & 0xFF) as u8),
        #[verifier::truncate] (((u >> 24u32) & 0xFF) as u8),
    ];
    assert(v@ =~= le_bytes(x));
    v
}

/// The content hash of a record, where its version is an object.
pub fn compute_server_hash(u: &ServerUpdate) -> (r: Option<u64>)
    ensures
        r == server_hash(*u),
{
    let version = match get_field(&u.minecraft, &lit("version")) {
        Some(v) => v,
        None => return None,
    };
    if !matches!(version, JsonValue::Object(_)) {
        return None;
    }
    let name: &str = match get_field(version, &lit("name")) {
        Some(JsonValue::Str(s)) => s.as_str(),
        _ => "",
    };
    proof {
        reveal_strlit("");
    }
    let protocol = stored_i32_of(get_field(version, &lit("protocol")));
    let max = match get_field(&u.minecraft, &lit("players")) {
        Some(p) => if matches!(p, JsonValue::Object(_)) {
            stored_i32_of(get_field(p, &lit("max")))
        } else {
            0
        },
        None => 0,
    };
    let closer: Vec<u8> = vec![0xFFu8];
    assert(closer@ =~= seq![0xFFu8]);
    let d_bytes = u.description.as_str().as_bytes();
    assert(d_bytes@ == vstd::utf8::encode_utf8(u.description@));
    let n_bytes = name.as_bytes();
    assert(n_bytes@ == vstd::utf8::encode_utf8(name@));
    let p_bytes = le_bytes_of(protocol);
    let m_bytes = le_bytes_of(max);
    let mut hasher = DefaultHasher::new();
    hasher.write(d_bytes);
    hasher.write(closer.as_slice());
    hasher.write(n_bytes);
    hasher.write(closer.as_slice());
    hasher.write(p_bytes.as_slice());
    hasher.write(m_bytes.as_slice());
    let ghost f = (u.description@, name@, protocol, max);
    assert(hashed_fields(*u) == Some(f));
    assert(hasher@ =~= seq![
        vstd::utf8::encode_utf8(f.0), seq![0xFFu8], vstd::utf8::encode_utf8(f.1), seq![0xFFu8],
        le_bytes(f.2), le_bytes(f.3)]);
    Some(hasher.finish())
}

/// How a stored record changed.
#[derive(Clone, Copy, Debug, PartialEq, Eq, Structural)]
pub enum UpdateResult {
    Inserted,
    UpdatedAndRevived,
    Updated,
}

/// Which stored record an update is for.
pub enum Query {
    /// The record of a server, by address (written as dotted text) and port.
    ByIp { ip: u32, port: u16 },
}

/// What an update sets.
pub enum UpdateSet {
    Server(ServerUpdate),
    ActiveFingerprint(crate::active::ActiveFingerprint),
}

/// One update of a batched write.
pub struct BulkUpdate {
    pub query: Query,
    pub update: UpdateSet,
    /// Whether to insert the record where none matches; unset leaves the
    /// store's default.
    pub upsert: Option<bool>,
}

/// Why an update was not made.
#[derive(Clone, Copy, Debug, PartialEq, Eq, Structural)]
pub enum UpdateRejected {
    /// The address is a known honeypot and the port is not the canonical one.
    BadAddress,
    /// This response made the address a honeypot; it is to be promoted.
    NewBadAddress,
    /// The record's content hash was needed and its version is no object.
    MissingVersion,
}

/// The effect of `create_bulk_update`: a known honeypot's non-canonical port
/// is refused with nothing changed; otherwise the response is counted in the
/// hash cache, and the upsert is made unless the hash was missing or the
/// address has just become a honeypot. The cached snapshots and the honeypot
/// set do not change.
pub open spec fn bulk_update_made(
    before: DatabaseSharedData,
    after: DatabaseSharedData,
    ip: u32,
    port: u16,
    update: ServerUpdate,
    r: Result<BulkUpdate, UpdateRejected>,
) -> bool {
    &&& after.bad_ips@ == before.bad_ips@
    &&& after.cached_all_servers_30_days == before.cached_all_servers_30_days
    &&& after.cached_all_servers_365_days == before.cached_all_servers_365_days
    &&& after.cached_all_servers_new == before.cached_all_servers_new
    &&& before.bad_ips@.contains(ip) && port != CANONICAL_PORT ==> r == Err::<BulkUpdate, UpdateRejected>(
        UpdateRejected::BadAddress) && lru_entries(after.ips_with_same_hash) == lru_entries(before.ips_with_same_hash)
    &&& !(before.bad_ips@.contains(ip) && port != CANONICAL_PORT) ==> exists|h: Result<bool, MissingHash>|
        #[trigger] hash_recorded(lru_entries(before.ips_with_same_hash), lru_entries(after.ips_with_same_hash),
        ip, port, server_hash(update), h) && match h {
            Err(_) => r == Err::<BulkUpdate, UpdateRejected>(UpdateRejected::MissingVersion),
            Ok(true) => r == Err::<BulkUpdate, UpdateRejected>(UpdateRejected::NewBadAddress),
            Ok(false) => r matches Ok(b) && b.query == (Query::ByIp { ip, port }) && b.upsert == Some(true)
                && b.update == UpdateSet::Server(update),
        }
}

/// The upsert for a processed response on `ip`:`port`, after honeypot checks.
pub fn create_bulk_update(shared: &mut DatabaseSharedData, ip: u32, port: u16, update: ServerUpdate)
    -> (r: Result<BulkUpdate, UpdateRejected>)
    requires
        old(shared).wf(),
    ensures
        final(shared).wf(),
        bulk_update_made(*old(shared), *final(shared), ip, port, update, r),
{
    if shared.is_bad_ip(ip) && port != CANONICAL_PORT {
        return Err(UpdateRejected::BadAddress);
    }
    let hash = compute_server_hash(&update);
    let ghost before = lru_entries(shared.ips_with_same_hash);
    let counted = record_hash(&mut shared.ips_with_same_hash, ip, port, hash);
    assert(hash_recorded(before, lru_entries(shared.ips_with_same_hash), ip, port, server_hash(update), counted));
    match counted {
        Err(_) => Err(UpdateRejected::MissingVersion),
        Ok(true) => Err(UpdateRejected::NewBadAddress),
        Ok(false) => Ok(BulkUpdate { query: Query::ByIp { ip, port }, update: UpdateSet::Server(update), upsert: Some(true) }),
    }
}

/// Two records that differ only in their timestamps and in their players
/// (the sample, the player map, the activity times) have the same content hash.
pub proof fn lemma_hash_ignores_time_and_players(u1: ServerUpdate, u2: ServerUpdate)
    requires
        u1.description@ == u2.description@,
        field(u1.minecraft, "version"@) == field(u2.minecraft, "version"@),
        field(u1.minecraft, "players"@) is Some <==> field(u2.minecraft, "players"@) is Some,
        field(u1.minecraft, "players"@) matches Some(p1) ==> (field(u2.minecraft, "players"@) matches Some(p2)
            && (p1 is Object <==> p2 is Object) && field(p1, "max"@) == field(p2, "max"@)),
    ensures
        server_hash(u1) == server_hash(u2),
{
}

} // verus!
