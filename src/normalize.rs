//! Turns a parsed status response into the record that is stored for a
//! server: derived description texts, Forge data, the player sample and the
//! online-mode guess.
use vstd::prelude::*;
use crate::chat::{check_renders, plain_text, renders_safely, to_plain_text, RENDER_DEPTH};
use crate::forge::{extract_forge_mods, mod_list, mods_view, unpacked, ForgeMod};
use crate::json::{check_storable, field, get_field, json_text, member, storable, str_field, to_json_text, JsonValue, NESTING_LIMIT};
use crate::passive::PassiveMinecraftFingerprint;
use crate::text::{chars_of, lit, push_char};

verus! {

/// The name that servers give to players they hide.
pub open spec fn anonymous_name() -> Seq<char> {
    "Anonymous Player"@
}

/// The description of servers that randomise their player sample until one
/// logs in.
pub open spec fn privacy_sentinel() -> Seq<char> {
    "To protect the privacy of this server and its\nusers, you must log in once to see ping data."@
}

/// How many sample entries are read.
pub const SAMPLE_LIMIT: usize = 100;

/// The account kind that a player identifier shows.
#[derive(Clone, Copy, Debug, PartialEq, Eq, Structural)]
pub enum IdKind {
    /// The nil identifier.
    Anonymous,
    /// Version 4: an authenticated account.
    Authenticated,
    /// Any other version: an unauthenticated account.
    Unauthenticated,
}

/// The guess at whether a server checks accounts.
#[derive(Clone, Copy, Debug, PartialEq, Eq, Structural)]
pub enum OnlineMode {
    Offline,
    Online,
    Mixed,
}

impl OnlineMode {
    /// The number that stores this guess.
    pub fn code(&self) -> (r: i32)
        ensures
            *self == OnlineMode::Offline ==> r == 0,
            *self == OnlineMode::Online ==> r == 1,
            *self == OnlineMode::Mixed ==> r == 2,
    {
        match self {
            OnlineMode::Offline => 0,
            OnlineMode::Online => 1,
            OnlineMode::Mixed => 2,
        }
    }
}

/// A player seen in a sample: the identifier without hyphens, and the name.
pub struct SeenPlayer {
    pub id: String,
    pub name: String,
}

/// What is stored for a server after one response.
pub struct ServerUpdate {
    /// When the response came, in milliseconds since the epoch.
    pub timestamp: i64,
    /// The response as received.
    pub minecraft: JsonValue,
    /// The description as compact JSON text.
    pub description: String,
    /// The description's text without formatting; empty where azalea-chat
    /// could not render it safely.
    pub clean_description: String,
    pub is_forge: bool,
    /// The mods of the Forge data, where they decode.
    pub forge_mods: Option<Vec<ForgeMod>>,
    pub online_mode_guess: OnlineMode,
    /// The sampled players; `None` where the sample is not trusted.
    pub players: Option<Vec<SeenPlayer>>,
    pub last_active: Option<i64>,
    pub last_empty: Option<i64>,
    pub passive: Option<PassiveMinecraftFingerprint>,
}

/// `s` without hyphens.
pub open spec fn strip_hyphens(s: Seq<char>) -> Seq<char>
    decreases s.len(),
{
    if s.len() == 0 {
        s
    } else if s.last() == '-' {
        strip_hyphens(s.drop_last())
    } else {
        strip_hyphens(s.drop_last()).push(s.last())
    }
}

pub open spec fn is_lower_hex(c: char) -> bool {
    ('0' <= c && c <= '9') || ('a' <= c && c <= 'f')
}

/// `s` holds 32 lowercase hex digits in a row whose thirteenth is a version
/// digit 3 or 4.
pub open spec fn has_canonical_id(s: Seq<char>) -> bool {
    exists|i: int| canonical_at(s, i)
}

/// A canonical identifier starts at position `i` of `s`.
pub open spec fn canonical_at(s: Seq<char>, i: int) -> bool {
    &&& 0 <= i && i + 32 <= s.len()
    &&& forall|t: int| i <= t < i + 32 ==> is_lower_hex(#[trigger] s[t])
    &&& s[i + 12] == '3' || s[i + 12] == '4'
}

/// The pattern of a canonical identifier.
pub open spec fn canonical_id_pattern() -> Seq<char> {
    "[0-9a-f]{12}[34][0-9a-f]{19}"@
}

/// Relies on regex::Regex::new and Regex::is_match: the canonical identifier
/// pattern, unanchored, matches where 32 characters in a row fit it.
#[verifier::external_body]
fn regex_is_match(pattern: &str, text: &str) -> (r: bool)
    ensures
        pattern@ == canonical_id_pattern() ==> r == has_canonical_id(text@),
{
    regex::Regex::new(pattern).map_or(false, |re| re.is_match(text))
}

pub open spec fn id_kind(id: Seq<char>) -> IdKind {
    if forall|t: int| 0 <= t < id.len() ==> id[t] == '0' {
        IdKind::Anonymous
    } else if id.len() > 12 && id[12] == '4' {
        IdKind::Authenticated
    } else {
        IdKind::Unauthenticated
    }
}

/// The kind of a player identifier (hyphens already stripped).
pub fn classify_identifier(id: &str) -> (r: IdKind)
    ensures
        r == id_kind(id@),
{
    let cs = chars_of(id);
    let mut i: usize = 0;
    while i < cs.len()
        invariant
            cs@ == id@,
            i <= cs.len(),
            forall|t: int| 0 <= t < i ==> cs@[t] == '0',
        decreases cs.len() - i,
    {
        if cs[i] != '0' {
            if cs.len() > 12 && cs[12] == '4' {
                return IdKind::Authenticated;
            }
            return IdKind::Unauthenticated;
        }
        i += 1;
    }
    IdKind::Anonymous
}

/// `s` without hyphens.
pub fn remove_hyphens(s: &str) -> (r: String)
    ensures
        r@ == strip_hyphens(s@),
{
    let cs = chars_of(s);
    let mut out = String::new();
    let mut i: usize = 0;
    while i < cs.len()
        invariant
            cs@ == s@,
            i <= cs.len(),
            out@ == strip_hyphens(cs@.subrange(0, i as int)),
        decreases cs.len() - i,
    {
        let ghost pre = cs@.subrange(0, i as int + 1);
        assert(pre.drop_last() =~= cs@.subrange(0, i as int));
        if cs[i] != '-' {
            push_char(&mut out, cs[i]);
        }
        i += 1;
    }
    assert(cs@.subrange(0, cs.len() as int) =~= cs@);
    out
}

/// The entries of the player sample that are read: at most the first hundred.
pub open spec fn sampled(v: JsonValue) -> Seq<JsonValue> {
    match field(v, "players"@) {
        Some(p) => match field(p, "sample"@) {
            Some(JsonValue::Array(a)) => if a@.len() <= 100 { a@ } else { a@.subrange(0, 100) },
            _ => Seq::empty(),
        },
        None => Seq::empty(),
    }
}

/// The identifier of a sample entry, hyphens stripped; empty where it has none.
pub open spec fn entry_id(e: JsonValue) -> Seq<char> {
    match str_field(e, "id"@) {
        Some(s) => strip_hyphens(s),
        None => Seq::empty(),
    }
}

/// The name of a sample entry; empty where it has none.
pub open spec fn entry_name(e: JsonValue) -> Seq<char> {
    match str_field(e, "name"@) {
        Some(s) => s,
        None => Seq::empty(),
    }
}

/// An entry that no genuine server sends: not anonymous and without a
/// canonical identifier.
pub open spec fn forged_entry(e: JsonValue) -> bool {
    !has_canonical_id(entry_id(e)) && entry_name(e) != anonymous_name()
}

pub open spec fn is_object(e: JsonValue) -> bool {
    e is Object
}

/// The online-mode guess from the kinds seen in a sample.
pub open spec fn mode_of(entries: Seq<JsonValue>) -> OnlineMode {
    let online = exists|i: int| 0 <= i < entries.len() && id_kind(entry_id(#[trigger] entries[i])) == IdKind::Authenticated;
    let offline = exists|i: int| 0 <= i < entries.len() && id_kind(entry_id(#[trigger] entries[i])) == IdKind::Unauthenticated;
    if online && offline {
        OnlineMode::Mixed
    } else if online {
        OnlineMode::Online
    } else {
        OnlineMode::Offline
    }
}

/// Whether the sample holds a forged entry.
pub open spec fn forged_sample(entries: Seq<JsonValue>) -> bool {
    exists|i: int| 0 <= i < entries.len() && forged_entry(#[trigger] entries[i])
}

/// The players of a sample, as (identifier, name).
pub open spec fn players_view(ps: Seq<SeenPlayer>) -> Seq<(Seq<char>, Seq<char>)> {
    ps.map_values(|p: SeenPlayer| (p.id@, p.name@))
}

pub open spec fn entries_view(es: Seq<JsonValue>) -> Seq<(Seq<char>, Seq<char>)> {
    es.map_values(|e: JsonValue| (entry_id(e), entry_name(e)))
}

/// The Forge mods that the record carries, as (id, version).
pub open spec fn forge_mods_of(v: JsonValue) -> Option<Seq<(Seq<char>, Seq<char>)>> {
    match field(v, "forgeData"@) {
        Some(JsonValue::Object(fd)) => match member(fd@, "d"@) {
            Some(JsonValue::Str(d)) => match unpacked(d@) {
                Some(b) => mod_list(b),
                None => None,
            },
            _ => None,
        },
        _ => None,
    }
}

/// Whether the description is the privacy sentinel.
pub open spec fn sample_hidden(v: JsonValue) -> bool {
    field(v, "description"@) matches Some(JsonValue::Str(s)) && s@ == privacy_sentinel()
}

/// The sample entries that are read: none where the sample is hidden.
pub open spec fn read_entries(v: JsonValue) -> Seq<JsonValue> {
    if sample_hidden(v) { Seq::empty() } else { sampled(v) }
}

/// The record for a response `v`, received at `now`.
pub open spec fn update_spec(v: JsonValue, fp: Option<PassiveMinecraftFingerprint>, now: i64, r: Option<ServerUpdate>) -> bool {
    let desc = field(v, "description"@);
    let entries = read_entries(v);
    if !(v is Object) || !storable(v, NESTING_LIMIT as nat) || desc is None
        || !(forall|i: int| 0 <= i < entries.len() ==> is_object(#[trigger] entries[i])) {
        r is None
    } else {
        r matches Some(u) && {
            let d = desc.unwrap();
            let forged = forged_sample(entries);
            &&& u.timestamp == now
            &&& u.minecraft == v
            &&& u.description@ == json_text(d)
            &&& u.clean_description@ == (if renders_safely(d, RENDER_DEPTH as nat) {
                plain_text(d)
            } else {
                Seq::empty()
            })
            &&& u.is_forge == (field(v, "modinfo"@) is Some || field(v, "forgeData"@) is Some)
            &&& match forge_mods_of(v) {
                None => u.forge_mods is None,
                Some(ms) => u.forge_mods matches Some(m) && mods_view(m@) == ms,
            }
            &&& u.online_mode_guess == mode_of(entries)
            &&& (forged ==> u.players is None && u.last_active is None && u.last_empty is None)
            &&& (!forged ==> (u.players matches Some(ps) && players_view(ps@) == entries_view(entries)))
            &&& (!forged && entries.len() > 0 ==> u.last_active == Some(now) && u.last_empty is None)
            &&& (!forged && entries.len() == 0 ==> u.last_empty == Some(now) && u.last_active is None)
            &&& u.passive == fp
        }
    }
}

/// The thirteenth hex digit decides an identifier's kind: 4 authenticated,
/// 3 unauthenticated; the nil identifier is anonymous.
pub proof fn lemma_identifier_kinds(id: Seq<char>)
    ensures
        id.len() > 12 && id[12] == '4' ==> id_kind(id) == IdKind::Authenticated,
        id.len() > 12 && id[12] == '3' ==> id_kind(id) == IdKind::Unauthenticated,
        (forall|t: int| 0 <= t < id.len() ==> id[t] == '0') ==> id_kind(id) == IdKind::Anonymous,
{
}

/// Both account kinds among the sampled identifiers make the guess mixed.
pub proof fn lemma_mode_from_kinds(v: JsonValue, fp: Option<PassiveMinecraftFingerprint>, now: i64, u: ServerUpdate, i: int, j: int)
    requires
        update_spec(v, fp, now, Some(u)),
        0 <= i < read_entries(v).len(),
        0 <= j < read_entries(v).len(),
        id_kind(entry_id(read_entries(v)[i])) == IdKind::Authenticated,
        id_kind(entry_id(read_entries(v)[j])) == IdKind::Unauthenticated,
    ensures
        u.online_mode_guess == OnlineMode::Mixed,
{
}

/// A sample entry that is not anonymous and lacks a canonical identifier makes
/// the whole sample untrusted: no players and no activity time are written.
pub proof fn lemma_forged_entry_suppresses_presence(v: JsonValue, fp: Option<PassiveMinecraftFingerprint>, now: i64, u: ServerUpdate, i: int)
    requires
        update_spec(v, fp, now, Some(u)),
        0 <= i < read_entries(v).len(),
        !has_canonical_id(entry_id(read_entries(v)[i])),
        entry_name(read_entries(v)[i]) != anonymous_name(),
    ensures
        u.players is None,
        u.last_active is None,
        u.last_empty is None,
{
    assert(forged_entry(read_entries(v)[i]));
}

/// Anonymous entries are recorded by name among the players of a trusted
/// sample, and alone they make no online-mode guess but offline.
pub proof fn lemma_anonymous_recorded(v: JsonValue, fp: Option<PassiveMinecraftFingerprint>, now: i64, u: ServerUpdate, i: int)
    requires
        update_spec(v, fp, now, Some(u)),
        u.players is Some,
        0 <= i < read_entries(v).len(),
    ensures
        players_view(u.players.unwrap()@)[i] == (entry_id(read_entries(v)[i]), entry_name(read_entries(v)[i])),
        (forall|t: int| 0 <= t < read_entries(v).len() ==> id_kind(entry_id(#[trigger] read_entries(v)[t])) == IdKind::Anonymous)
            ==> u.online_mode_guess == OnlineMode::Offline,
{
}

/// The Forge mods that the record carries.
fn forge_mods_in(v: &JsonValue) -> (r: Option<Vec<ForgeMod>>)
    ensures
        match forge_mods_of(*v) {
            None => r is None,
            Some(ms) => r matches Some(m) && mods_view(m@) == ms,
        },
{
    match get_field(v, &lit("forgeData")) {
        Some(JsonValue::Object(fd)) => match crate::json::get_member(fd, &lit("d")) {
            Some(JsonValue::Str(d)) => extract_forge_mods(d.as_str()),
            _ => None,
        },
        _ => None,
    }
}

/// The string member `key` of `e`, or the empty string.
fn str_member_or_empty(e: &JsonValue, key: &str) -> (r: String)
    ensures
        match str_field(*e, key@) {
            Some(s) => r@ == s,
            None => r@ == Seq::<char>::empty(),
        },
{
    match get_field(e, &lit(key)) {
        Some(JsonValue::Str(s)) => s.clone(),
        _ => String::new(),
    }
}

/// The sample array of a response, where there is one.
fn sample_array(v: &JsonValue) -> (r: Option<&Vec<JsonValue>>)
    ensures
        match field(*v, "players"@) {
            Some(p) => match field(p, "sample"@) {
                Some(JsonValue::Array(a)) => r == Some(&a),
                _ => r is None,
            },
            None => r is None,
        },
{
    match get_field(v, &lit("players")) {
        Some(p) => match get_field(p, &lit("sample")) {
            Some(JsonValue::Array(a)) => Some(a),
            _ => None,
        },
        None => None,
    }
}

/// The record to store for a parsed response received at `now` (milliseconds
/// since the epoch); `None` where the response is not a server's status or
/// holds a number that the store cannot.
pub fn clean_response_data(json: JsonValue, passive: Option<PassiveMinecraftFingerprint>, now: i64) -> (r: Option<ServerUpdate>)
    ensures
        update_spec(json, passive, now, r),
{
    let data = &json;
    if !matches!(data, JsonValue::Object(_)) || !check_storable(data, NESTING_LIMIT) {
        return None;
    }
    let desc = match get_field(data, &lit("description")) {
        Some(d) => d,
        None => return None,
    };
    let description = to_json_text(desc);
    let clean_description = if check_renders(desc, RENDER_DEPTH) {
        to_plain_text(desc)
    } else {
        String::new()
    };
    let is_forge = get_field(data, &lit("modinfo")).is_some() || get_field(data, &lit("forgeData")).is_some();
    let forge_mods = forge_mods_in(data);
    let hidden = match desc {
        JsonValue::Str(s) => *s == lit("To protect the privacy of this server and its\nusers, you must log in once to see ping data."),
        _ => false,
    };
    let no_entries: Vec<JsonValue> = Vec::new();
    let sample: &Vec<JsonValue> = if hidden {
        &no_entries
    } else {
        match sample_array(data) {
            Some(a) => a,
            None => &no_entries,
        }
    };
    let n: usize = if sample.len() <= SAMPLE_LIMIT { sample.len() } else { SAMPLE_LIMIT };
    let ghost entries = sample@.subrange(0, n as int);
    let ghost spec_entries = read_entries(json);
    assert(entries =~= spec_entries);
    let pattern = lit("[0-9a-f]{12}[34][0-9a-f]{19}");
    let anonymous = lit("Anonymous Player");
    let mut forged = false;
    let mut online = false;
    let mut offline = false;
    let mut players: Vec<SeenPlayer> = Vec::new();
    let mut i: usize = 0;
    while i < n
        invariant
            n <= sample.len(),
            entries == sample@.subrange(0, n as int),
            entries == spec_entries,
            spec_entries == read_entries(json),
            pattern@ == canonical_id_pattern(),
            anonymous@ == anonymous_name(),
            i <= n,
            forall|t: int| 0 <= t < i ==> is_object(#[trigger] entries[t]),
            forged == exists|t: int| 0 <= t < i && forged_entry(#[trigger] entries[t]),
            online == exists|t: int| 0 <= t < i && id_kind(entry_id(#[trigger] entries[t])) == IdKind::Authenticated,
            offline == exists|t: int| 0 <= t < i && id_kind(entry_id(#[trigger] entries[t])) == IdKind::Unauthenticated,
            players_view(players@) == entries_view(entries.subrange(0, i as int)),
        decreases n - i,
    {
        let e = &sample[i];
        assert(*e == entries[i as int]);
        if !matches!(e, JsonValue::Object(_)) {
            assert(!is_object(spec_entries[i as int]));
            return None;
        }
        let raw_id = str_member_or_empty(e, "id");
        let id = remove_hyphens(raw_id.as_str());
        assert(id@ == entry_id(*e));
        let name = str_member_or_empty(e, "name");
        let this_forged = !regex_is_match(pattern.as_str(), id.as_str()) && name != anonymous;
        let kind = classify_identifier(id.as_str());
        let ghost before = players@;
        forged = forged || this_forged;
        online = online || kind == IdKind::Authenticated;
        offline = offline || kind == IdKind::Unauthenticated;
        players.push(SeenPlayer { id, name });
        assert(entries.subrange(0, i as int + 1) =~= entries.subrange(0, i as int).push(entries[i as int]));
        assert(players_view(players@) =~= players_view(before).push((entry_id(entries[i as int]), entry_name(entries[i as int]))));
        i += 1;
    }
    assert(entries.subrange(0, n as int) =~= entries);
    let online_mode_guess = if online && offline {
        OnlineMode::Mixed
    } else if online {
        OnlineMode::Online
    } else {
        OnlineMode::Offline
    };
    let has_players = n > 0;
    let (players, last_active, last_empty) = if forged {
        (None, None, None)
    } else if has_players {
        (Some(players), Some(now), None)
    } else {
        (Some(players), None, Some(now))
    };
    Some(ServerUpdate {
        timestamp: now,
        minecraft: json,
        description,
        clean_description,
        is_forge,
        forge_mods,
        online_mode_guess,
        players,
        last_active,
        last_empty,
        passive,
    })
}

} // verus!
