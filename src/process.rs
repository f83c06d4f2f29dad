//! Processing of one status response: parse, fingerprint, normalise, watch
//! for players, and decide the upsert.
use vstd::prelude::*;
use crate::text::lit;
use std::collections::HashMap;
use crate::active::{active_reply_spec, process_active_reply};
use crate::database::{bulk_update_made, create_bulk_update, BulkUpdate, DatabaseSharedData, UpdateRejected};
use crate::json::{field, get_field, parse_json, parsed_json, str_field, JsonValue};
use crate::normalize::{clean_response_data, update_spec};
use crate::passive::{fingerprint_spec, generate_passive_fingerprint};
use crate::snipe::{names_in_sample, sample_names, snipe_check, snipe_spec, views, SnipeConfig, SnipeOutcome};

verus! {

broadcast use vstd::std_specs::hash::group_hash_axioms;

/// A name for the text that std::string::String::from_utf8_lossy makes of
/// bytes (invalid sequences become U+FFFD).
pub uninterp spec fn utf8_lossy(b: Seq<u8>) -> Seq<char>;

/// Relies on String::from_utf8_lossy: the text depends on the bytes alone.
#[verifier::external_body]
pub(crate) fn lossy_text(b: &[u8]) -> (r: String)
    ensures
        r@ == utf8_lossy(b@),
{
    String::from_utf8_lossy(b).into_owned()
}

/// State that the processing of status responses shares.
pub struct SharedData {
    /// For each server (`address << 16 | port`), the names in its last sample.
    pub cached_servers: HashMap<u64, Vec<String>>,
}

/// The key of a server in the previous-response cache.
pub open spec fn server_key(ip: u32, port: u16) -> u64 {
    ((ip as u64) * 65536 + port as u64) as u64
}

/// Why a response leads to no upsert.
#[derive(Clone, Copy, Debug, PartialEq, Eq, Structural)]
pub enum ProcessSkip {
    /// The response is not a server status.
    NotStatus,
    Rejected(UpdateRejected),
}

/// The outcome of processing one response.
pub struct Processed {
    pub update: Result<BulkUpdate, ProcessSkip>,
    /// What to report about watched players, where watching is on.
    pub snipe: Option<SnipeOutcome>,
}

/// The version name of a response, empty where it has none.
pub open spec fn version_name_of(v: JsonValue) -> Seq<char> {
    match field(v, "version"@) {
        Some(ver) => match str_field(ver, "name"@) {
            Some(s) => s,
            None => Seq::empty(),
        },
        None => Seq::empty(),
    }
}

/// The number of players online, 0 where it is not a signed integer.
pub open spec fn online_of(v: JsonValue) -> i64 {
    match field(v, "players"@) {
        Some(p) => match field(p, "online"@) {
            Some(JsonValue::Int(n)) => n,
            _ => 0,
        },
        None => 0,
    }
}

/// The names that the cache holds for a server, none where it holds nothing.
pub open spec fn cached_names(m: Map<u64, Vec<String>>, k: u64) -> Seq<Seq<char>> {
    if m.contains_key(k) { views(m[k]@) } else { Seq::empty() }
}

fn version_name(v: &JsonValue) -> (r: String)
    ensures
        r@ == version_name_of(*v),
{
    match get_field(v, &lit("version")) {
        Some(ver) => match get_field(ver, &lit("name")) {
            Some(JsonValue::Str(s)) => s.clone(),
            _ => String::new(),
        },
        None => String::new(),
    }
}

fn online_players(v: &JsonValue) -> (r: i64)
    ensures
        r == online_of(*v),
{
    match get_field(v, &lit("players")) {
        Some(p) => match get_field(p, &lit("online")) {
            Some(JsonValue::Int(n)) => *n,
            _ => 0,
        },
        None => 0,
    }
}

/// The outcome of processing a status response `data` from `ip`:`port` at
/// `now`: nothing where the text is not JSON; otherwise the watch report
/// (where watching is on, with the cache of names updated) and the upsert
/// that normalisation and the honeypot checks lead to.
pub open spec fn processed_spec(
    shared_before: SharedData,
    shared_after: SharedData,
    db_before: DatabaseSharedData,
    db_after: DatabaseSharedData,
    config: SnipeConfig,
    ip: u32,
    port: u16,
    data: Seq<u8>,
    now: i64,
    r: Processed,
) -> bool {
    match parsed_json(utf8_lossy(data)) {
        None => r.update == Err::<BulkUpdate, ProcessSkip>(ProcessSkip::NotStatus) && r.snipe is None
            && db_after == db_before && shared_after.cached_servers@ == shared_before.cached_servers@,
        Some(v) => {
            &&& config.enabled ==> (r.snipe matches Some(o) && snipe_spec(config,
                cached_names(shared_before.cached_servers@, server_key(ip, port)), sample_names(v),
                version_name_of(v), online_of(v), o)
                && shared_after.cached_servers@.dom() == shared_before.cached_servers@.dom().insert(server_key(ip, port))
                && views(shared_after.cached_servers@[server_key(ip, port)]@) == sample_names(v)
                && forall|k: u64| k != server_key(ip, port) && #[trigger] shared_before.cached_servers@.contains_key(k)
                    ==> shared_after.cached_servers@[k] == shared_before.cached_servers@[k])
            &&& !config.enabled ==> r.snipe is None && shared_after.cached_servers@ == shared_before.cached_servers@
            &&& exists|fp, u: Option<crate::normalize::ServerUpdate>| fingerprint_spec(v, fp)
                && #[trigger] update_spec(v, Some(fp), now, u) && match u {
                None => r.update == Err::<BulkUpdate, ProcessSkip>(ProcessSkip::NotStatus)
                    && db_after == db_before,
                Some(up) => exists|b: Result<BulkUpdate, UpdateRejected>|
                    #[trigger] bulk_update_made(db_before, db_after, ip, port, up, b) && match b {
                    Ok(x) => r.update == Ok::<BulkUpdate, ProcessSkip>(x),
                    Err(e) => r.update == Err::<BulkUpdate, ProcessSkip>(ProcessSkip::Rejected(e)),
                },
            }
        },
    }
}

/// Processes a status response `data` from `ip`:`port`, received at `now`
/// (milliseconds since the epoch).
pub fn process(
    shared: &mut SharedData,
    database: &mut DatabaseSharedData,
    config: &SnipeConfig,
    ip: u32,
    port: u16,
    data: &[u8],
    now: i64,
) -> (r: Processed)
    requires
        old(database).wf(),
    ensures
        final(database).wf(),
        processed_spec(*old(shared), *final(shared), *old(database), *final(database), *config, ip, port, data@, now, r),
{
    let text = lossy_text(data);
    let passive = generate_passive_fingerprint(text.as_str());
    let json = match parse_json(text.as_str()) {
        Some(j) => j,
        None => return Processed { update: Err(ProcessSkip::NotStatus), snipe: None },
    };
    let passive = match passive {
        Ok(fp) => fp,
        Err(_) => return Processed { update: Err(ProcessSkip::NotStatus), snipe: None },
    };
    let snipe = if config.enabled {
        let key: u64 = (ip as u64) * 65536 + port as u64;
        let empty: Vec<String> = Vec::new();
        let current = names_in_sample(&json);
        let outcome = {
            assert(key == server_key(ip, port));
            let previous = match shared.cached_servers.get(&key) {
                Some(p) => p,
                None => &empty,
            };
            assert(views(previous@) =~= cached_names(shared.cached_servers@, key));
            snipe_check(config, previous, &current, version_name(&json).as_str(), online_players(&json))
        };
        shared.cached_servers.insert(key, current);
        Some(outcome)
    } else {
        None
    };
    let ghost v = json;
    let ghost fp = passive;
    let ghost db0 = *database;
    let cleaned = clean_response_data(json, Some(passive), now);
    assert(fingerprint_spec(v, fp));
    assert(update_spec(v, Some(fp), now, cleaned));
    let update = match cleaned {
        None => Err(ProcessSkip::NotStatus),
        Some(u) => {
            let ghost up = u;
            let ghost before = *database;
            let b = create_bulk_update(database, ip, port, u);
            assert(bulk_update_made(before, *database, ip, port, up, b));
            match b {
                Ok(x) => Ok(x),
                Err(e) => Err(ProcessSkip::Rejected(e)),
            }
        },
    };
    Processed { update, snipe }
}

/// The protocols whose responses are processed.
#[derive(Clone, Copy, Debug, PartialEq, Eq, Structural)]
pub enum Protocol {
    /// A status response.
    Minecraft,
    /// The reply to a deliberately malformed login.
    MinecraftFingerprinting,
}

/// Processes one response of `protocol` from `ip`:`port`.
pub fn process_response(
    protocol: Protocol,
    shared: &mut SharedData,
    database: &mut DatabaseSharedData,
    config: &SnipeConfig,
    ip: u32,
    port: u16,
    data: &[u8],
    now: i64,
) -> (r: Processed)
    requires
        old(database).wf(),
    ensures
        final(database).wf(),
        protocol == Protocol::Minecraft ==> processed_spec(*old(shared), *final(shared), *old(database),
            *final(database), *config, ip, port, data@, now, r),
        protocol == Protocol::MinecraftFingerprinting ==> {
            &&& *final(database) == *old(database)
            &&& final(shared).cached_servers@ == old(shared).cached_servers@
            &&& r.snipe is None
            &&& r.update matches Ok(b) && active_reply_spec(ip, port, data@, now, b)
        },
{
    match protocol {
        Protocol::Minecraft => process(shared, database, config, ip, port, data, now),
        Protocol::MinecraftFingerprinting => Processed {
            update: Ok(process_active_reply(ip, port, data, now)),
            snipe: None,
        },
    }
}

} // verus!
