//! Passive fingerprinting: anomalies in the structure of a status response,
//! read without sending any further probe.
use vstd::prelude::*;
use crate::json::{
    as_unsigned, field, get_field, members, parse_json, parsed_json, JsonValue,
};
use crate::text::{chars_of, lit, string_of};

verus! {

/// What the structure of a status response reveals.
pub struct PassiveMinecraftFingerprint {
    pub incorrect_order: bool,
    pub field_order: Option<String>,
    /// Servers shouldn't have the sample field if there are no players online.
    pub empty_sample: bool,
    /// A favicon that has the string ""
    pub empty_favicon: bool,
}

/// The response text is not JSON.
#[derive(Debug, PartialEq, Eq, Structural)]
pub struct InvalidJson;

pub open spec fn key_description() -> Seq<char> { "description"@ }
pub open spec fn key_players() -> Seq<char> { "players"@ }
pub open spec fn key_version() -> Seq<char> { "version"@ }

/// Protocol versions from the snapshot that reordered the top-level members on.
pub open spec fn reordered_protocol(p: u64) -> bool {
    p >= 1073741943 || (762 <= p && p <= 0x40000000)
}

/// The top-level member order that a genuine server sends.
pub open spec fn expected_order(p: u64) -> Seq<Seq<char>> {
    if reordered_protocol(p) {
        seq![key_version(), key_description(), key_players()]
    } else {
        seq![key_description(), key_players(), key_version()]
    }
}

pub open spec fn expected_players_order() -> Seq<Seq<char>> { seq!["max"@, "online"@] }
pub open spec fn expected_version_order() -> Seq<Seq<char>> { seq!["name"@, "protocol"@] }

/// The names of `fields` that are among `allowed`, in order.
pub open spec fn names_among(fields: Seq<(String, JsonValue)>, allowed: Seq<Seq<char>>) -> Seq<Seq<char>>
    decreases fields.len(),
{
    if fields.len() == 0 {
        Seq::empty()
    } else {
        let r = names_among(fields.drop_last(), allowed);
        if allowed.contains(fields.last().0@) { r.push(fields.last().0@) } else { r }
    }
}

/// The names of the members of `v` among `allowed`; none where `v` is no object.
pub open spec fn sub_order(v: Option<JsonValue>, allowed: Seq<Seq<char>>) -> Seq<Seq<char>> {
    match v {
        Some(JsonValue::Object(fields)) => names_among(fields@, allowed),
        _ => Seq::empty(),
    }
}

/// `parts` joined with commas.
pub open spec fn join(parts: Seq<Seq<char>>) -> Seq<char>
    decreases parts.len(),
{
    if parts.len() == 0 {
        Seq::empty()
    } else if parts.len() == 1 {
        parts[0]
    } else {
        join(parts.drop_last()) + seq![','] + parts.last()
    }
}

/// A top-level name, followed by its members' order in parentheses where
/// that order is wrong.
pub open spec fn annotated(key: Seq<char>, players: Seq<Seq<char>>, version: Seq<Seq<char>>) -> Seq<char> {
    if key == key_players() && players != expected_players_order() {
        key + seq!['('] + join(players) + seq![')']
    } else if key == key_version() && version != expected_version_order() {
        key + seq!['('] + join(version) + seq![')']
    } else {
        key
    }
}

/// The protocol number that a response declares, 0 where it declares none.
pub open spec fn declared_protocol(v: JsonValue) -> u64 {
    match field(v, key_version()) {
        Some(ver) => match field(ver, "protocol"@) {
            Some(p) => match as_unsigned(p) {
                Some(n) => n,
                None => 0,
            },
            None => 0,
        },
        None => 0,
    }
}

/// The fingerprint of a parsed response, member by member.
pub open spec fn fingerprint_spec(v: JsonValue, fp: PassiveMinecraftFingerprint) -> bool {
    let expected = expected_order(declared_protocol(v));
    &&& fp.empty_favicon == (field(v, "favicon"@) matches Some(JsonValue::Str(s)) && s@.len() == 0)
    &&& match members(v) {
        None => !fp.incorrect_order && fp.field_order is None && !fp.empty_sample,
        Some(fields) => {
            let keys = names_among(fields, expected);
            let players = sub_order(field(v, key_players()), expected_players_order());
            let version = sub_order(field(v, key_version()), expected_version_order());
            let wrong = keys != expected || players != expected_players_order()
                || version != expected_version_order();
            &&& fp.incorrect_order == wrong
            &&& (wrong ==> (fp.field_order matches Some(s)
                && s@ == join(keys.map_values(|k: Seq<char>| annotated(k, players, version)))))
            &&& (!wrong ==> fp.field_order is None)
            &&& fp.empty_sample == (field(v, key_players()) matches Some(p)
                && field(p, "sample"@) matches Some(JsonValue::Array(a)) && a@.len() == 0)
        },
    }
}

/// The names of `fields` among `allowed`, in order.
fn collect_names(fields: &Vec<(String, JsonValue)>, allowed: &Vec<String>) -> (r: Vec<String>)
    ensures
        r@.map_values(|s: String| s@) == names_among(fields@, allowed@.map_values(|s: String| s@)),
{
    let ghost al = allowed@.map_values(|s: String| s@);
    let mut out: Vec<String> = Vec::new();
    let mut i: usize = 0;
    while i < fields.len()
        invariant
            i <= fields.len(),
            al == allowed@.map_values(|s: String| s@),
            out@.map_values(|s: String| s@) == names_among(fields@.subrange(0, i as int), al),
        decreases fields.len() - i,
    {
        let ghost pre = fields@.subrange(0, i as int + 1);
        assert(pre.drop_last() =~= fields@.subrange(0, i as int));
        let mut found = false;
        let mut j: usize = 0;
        while j < allowed.len()
            invariant
                i < fields.len(),
                j <= allowed.len(),
                al == allowed@.map_values(|s: String| s@),
                found == exists|t: int| 0 <= t < j && al[t] == fields@[i as int].0@,
            decreases allowed.len() - j,
        {
            assert(al[j as int] == allowed@[j as int]@);
            if fields[i].0 == allowed[j] {
                found = true;
            }
            j += 1;
            assert(found == exists|t: int| 0 <= t < j && al[t] == fields@[i as int].0@) by {
                if found && !(exists|t: int| 0 <= t < j - 1 && al[t] == fields@[i as int].0@) {
                    assert(al[j - 1] == fields@[i as int].0@);
                }
            }
        }
        assert(found == al.contains(fields@[i as int].0@));
        let ghost before = out@;
        if found {
            out.push(fields[i].0.clone());
            assert(out@.map_values(|s: String| s@) =~= before.map_values(|s: String| s@).push(fields@[i as int].0@));
        }
        i += 1;
    }
    assert(fields@.subrange(0, fields.len() as int) =~= fields@);
    out
}

/// The names of the members of `v` among `allowed`; none where `v` is no object.
fn collect_sub_order(v: Option<&JsonValue>, allowed: &Vec<String>) -> (r: Vec<String>)
    ensures
        r@.map_values(|s: String| s@) == sub_order(
            match v { Some(x) => Some(*x), None => None },
            allowed@.map_values(|s: String| s@),
        ),
{
    match v {
        Some(JsonValue::Object(fields)) => collect_names(fields, allowed),
        _ => {
            let r: Vec<String> = Vec::new();
            assert(r@.map_values(|s: String| s@) =~= Seq::<Seq<char>>::empty());
            r
        },
    }
}

/// Whether two lists of names are the same.
fn same_names(a: &Vec<String>, b: &Vec<String>) -> (r: bool)
    ensures
        r == (a@.map_values(|s: String| s@) == b@.map_values(|s: String| s@)),
{
    let ghost av = a@.map_values(|s: String| s@);
    let ghost bv = b@.map_values(|s: String| s@);
    if a.len() != b.len() {
        assert(av.len() != bv.len());
        return false;
    }
    let mut i: usize = 0;
    while i < a.len()
        invariant
            a.len() == b.len(),
            i <= a.len(),
            av == a@.map_values(|s: String| s@),
            bv == b@.map_values(|s: String| s@),
            forall|t: int| 0 <= t < i ==> av[t] == bv[t],
        decreases a.len() - i,
    {
        if a[i] != b[i] {
            assert(av[i as int] != bv[i as int]);
            return false;
        }
        i += 1;
    }
    assert(av =~= bv);
    true
}

/// Appends the characters of `s` to `out`.
fn append_chars(out: &mut Vec<char>, s: &String)
    ensures
        final(out)@ == old(out)@ + s@,
{
    let cs = chars_of(s.as_str());
    let mut i: usize = 0;
    let ghost start = out@;
    while i < cs.len()
        invariant
            i <= cs.len(),
            cs@ == s@,
            out@ == start + cs@.subrange(0, i as int),
        decreases cs.len() - i,
    {
        out.push(cs[i]);
        i += 1;
        assert(out@ =~= start + cs@.subrange(0, i as int));
    }
    assert(cs@.subrange(0, cs.len() as int) =~= cs@);
}

/// `parts` joined with commas, appended to `out`.
fn append_joined(out: &mut Vec<char>, parts: &Vec<String>)
    ensures
        final(out)@ == old(out)@ + join(parts@.map_values(|s: String| s@)),
{
    let ghost start = out@;
    let ghost pv = parts@.map_values(|s: String| s@);
    let mut i: usize = 0;
    while i < parts.len()
        invariant
            i <= parts.len(),
            pv == parts@.map_values(|s: String| s@),
            out@ == start + join(pv.subrange(0, i as int)),
        decreases parts.len() - i,
    {
        let ghost prev = out@;
        if i > 0 {
            out.push(',');
        }
        append_chars(out, &parts[i]);
        let ghost sub = pv.subrange(0, i as int + 1);
        assert(sub.drop_last() =~= pv.subrange(0, i as int));
        if i == 0 {
            assert(out@ =~= start + join(sub));
        } else {
            assert(out@ =~= start + join(sub));
        }
        i += 1;
    }
    assert(pv.subrange(0, parts.len() as int) =~= pv);
}

/// The order string of a response whose order is wrong.
fn order_string(keys: &Vec<String>, players: &Vec<String>, version: &Vec<String>) -> (r: String)
    ensures
        r@ == join(keys@.map_values(|s: String| s@).map_values(
            |k: Seq<char>| annotated(k, players@.map_values(|s: String| s@), version@.map_values(|s: String| s@)))),
{
    let ghost pv = players@.map_values(|s: String| s@);
    let ghost vv = version@.map_values(|s: String| s@);
    let ghost kv = keys@.map_values(|s: String| s@);
    let ghost parts = kv.map_values(|k: Seq<char>| annotated(k, pv, vv));
    let players_key = lit("players");
    let version_key = lit("version");
    let expected_players = vec![lit("max"), lit("online")];
    let expected_version = vec![lit("name"), lit("protocol")];
    assert(expected_players@.map_values(|s: String| s@) =~= expected_players_order());
    assert(expected_version@.map_values(|s: String| s@) =~= expected_version_order());
    let players_ok = same_names(players, &expected_players);
    let version_ok = same_names(version, &expected_version);
    let mut out: Vec<char> = Vec::new();
    let mut i: usize = 0;
    while i < keys.len()
        invariant
            i <= keys.len(),
            pv == players@.map_values(|s: String| s@),
            vv == version@.map_values(|s: String| s@),
            kv == keys@.map_values(|s: String| s@),
            parts == kv.map_values(|k: Seq<char>| annotated(k, pv, vv)),
            players_key@ == key_players(),
            version_key@ == key_version(),
            players_ok == (pv == expected_players_order()),
            version_ok == (vv == expected_version_order()),
            out@ == join(parts.subrange(0, i as int)),
        decreases keys.len() - i,
    {
        let ghost prev = out@;
        if i > 0 {
            out.push(',');
        }
        let ghost mid = out@;
        append_chars(&mut out, &keys[i]);
        if keys[i] == players_key && !players_ok {
            out.push('(');
            append_joined(&mut out, players);
            out.push(')');
        } else if keys[i] == version_key && !version_ok {
            out.push('(');
            append_joined(&mut out, version);
            out.push(')');
        }
        assert(out@ =~= mid + parts[i as int]);
        let ghost sub = parts.subrange(0, i as int + 1);
        assert(sub.drop_last() =~= parts.subrange(0, i as int));
        assert(out@ =~= join(sub));
        i += 1;
    }
    assert(parts.subrange(0, keys.len() as int) =~= parts);
    string_of(&out)
}

/// The protocol number that a response declares, 0 where it declares none.
fn protocol_of(v: &JsonValue) -> (r: u64)
    ensures
        r == declared_protocol(*v),
{
    match get_field(v, &lit("version")) {
        Some(ver) => match get_field(ver, &lit("protocol")) {
            Some(JsonValue::Int(n)) => if *n >= 0 { *n as u64 } else { 0 },
            Some(JsonValue::UInt(n)) => *n,
            _ => 0,
        },
        None => 0,
    }
}

/// The passive fingerprint of a parsed status response.
pub fn passive_fingerprint_of(v: &JsonValue) -> (fp: PassiveMinecraftFingerprint)
    ensures
        fingerprint_spec(*v, fp),
{
    let protocol = protocol_of(v);
    let empty_favicon = match get_field(v, &lit("favicon")) {
        Some(JsonValue::Str(s)) => s.as_str().is_empty(),
        _ => false,
    };
    let fields = match v {
        JsonValue::Object(fields) => fields,
        _ => {
            return PassiveMinecraftFingerprint {
                incorrect_order: false,
                field_order: None,
                empty_sample: false,
                empty_favicon,
            };
        },
    };
    let expected = if protocol >= 1073741943 || (762 <= protocol && protocol <= 0x40000000) {
        vec![lit("version"), lit("description"), lit("players")]
    } else {
        vec![lit("description"), lit("players"), lit("version")]
    };
    assert(expected@.map_values(|s: String| s@) =~= expected_order(protocol));
    let expected_players = vec![lit("max"), lit("online")];
    let expected_version = vec![lit("name"), lit("protocol")];
    assert(expected_players@.map_values(|s: String| s@) =~= expected_players_order());
    assert(expected_version@.map_values(|s: String| s@) =~= expected_version_order());

    let keys = collect_names(fields, &expected);
    let players = get_field(v, &lit("players"));
    let version = get_field(v, &lit("version"));
    let players_keys = collect_sub_order(players, &expected_players);
    let version_keys = collect_sub_order(version, &expected_version);

    let incorrect_order = !same_names(&keys, &expected) || !same_names(&players_keys, &expected_players)
        || !same_names(&version_keys, &expected_version);
    let field_order = if incorrect_order {
        Some(order_string(&keys, &players_keys, &version_keys))
    } else {
        None
    };
    let empty_sample = match players {
        Some(p) => match get_field(p, &lit("sample")) {
            Some(JsonValue::Array(a)) => a.len() == 0,
            _ => false,
        },
        None => false,
    };
    PassiveMinecraftFingerprint { incorrect_order, field_order, empty_sample, empty_favicon }
}

/// Parses a status response and takes its passive fingerprint.
pub fn generate_passive_fingerprint(data: &str) -> (r: Result<PassiveMinecraftFingerprint, InvalidJson>)
    ensures
        match parsed_json(data@) {
            None => r is Err,
            Some(v) => r matches Ok(fp) && fingerprint_spec(v, fp),
        },
{
    match parse_json(data) {
        Some(v) => Ok(passive_fingerprint_of(&v)),
        None => Err(InvalidJson),
    }
}

} // verus!
