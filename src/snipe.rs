//! Notifications about watched players, decided from a server's previous and
//! current player samples.
use vstd::prelude::*;
use crate::json::{field, get_field, str_field, JsonValue};
use crate::text::{chars_of, contains_seq, has_infix, lit};

verus! {

/// The watch list and its switches.
pub struct SnipeConfig {
    pub enabled: bool,
    pub webhook_url: String,
    pub usernames: Vec<String>,
    /// Whether we should log when a lot of anonymous players suddenly join a
    /// server.
    pub anon_players: bool,
}

/// Something to report about a server.
pub enum SnipeEvent {
    /// A watched player is on the server now.
    Online(String),
    /// A watched player was not there last time and is now.
    Joined(String),
    /// A watched player was there last time and is gone.
    Left(String),
}

/// The alert about anonymous players, if any.
#[derive(Clone, Copy, Debug, PartialEq, Eq, Structural)]
pub enum AnonAlert {
    Quiet,
    /// This many anonymous players joined at once.
    Joined(u64),
    /// Anonymous players appear for what may be the first time: to be
    /// reported if the stored history of the server holds none.
    FirstTimeCandidate,
}

/// What to report about a server after a response.
pub struct SnipeOutcome {
    pub events: Vec<SnipeEvent>,
    pub anon: AnonAlert,
}

pub open spec fn anon_name() -> Seq<char> {
    "Anonymous Player"@
}

/// The names in a response's sample (every object entry; empty where it has
/// no name).
pub open spec fn sample_names(v: JsonValue) -> Seq<Seq<char>> {
    match field(v, "players"@) {
        Some(p) => match field(p, "sample"@) {
            Some(JsonValue::Array(a)) => names_of_entries(a@),
            _ => Seq::empty(),
        },
        None => Seq::empty(),
    }
}

pub open spec fn names_of_entries(es: Seq<JsonValue>) -> Seq<Seq<char>>
    decreases es.len(),
{
    if es.len() == 0 {
        Seq::empty()
    } else {
        let r = names_of_entries(es.drop_last());
        if es.last() is Object {
            r.push(match str_field(es.last(), "name"@) { Some(s) => s, None => Seq::empty() })
        } else {
            r
        }
    }
}

/// How many of `names` are the anonymous name.
pub open spec fn anon_count(names: Seq<Seq<char>>) -> nat
    decreases names.len(),
{
    if names.len() == 0 {
        0
    } else {
        anon_count(names.drop_last()) + if names.last() == anon_name() { 1nat } else { 0nat }
    }
}

pub open spec fn views(v: Seq<String>) -> Seq<Seq<char>> {
    v.map_values(|s: String| s@)
}

/// The events for watched players, in the order found: for each current name
/// that is watched, `Online` and, if it is new, `Joined`; then for each
/// previous watched name that is gone, `Left`.
pub open spec fn watch_events(prev: Seq<Seq<char>>, cur: Seq<Seq<char>>, watched: Seq<Seq<char>>) -> Seq<(nat, Seq<char>)> {
    joined_events(prev, cur, watched) + left_events(prev, cur, watched)
}

/// Tags: 0 online, 1 joined, 2 left.
pub open spec fn joined_events(prev: Seq<Seq<char>>, cur: Seq<Seq<char>>, watched: Seq<Seq<char>>) -> Seq<(nat, Seq<char>)>
    decreases cur.len(),
{
    if cur.len() == 0 {
        Seq::empty()
    } else {
        let r = joined_events(prev, cur.drop_last(), watched);
        let c = cur.last();
        if watched.contains(c) {
            if prev.contains(c) { r.push((0nat, c)) } else { r.push((0nat, c)).push((1nat, c)) }
        } else {
            r
        }
    }
}

pub open spec fn left_events(prev: Seq<Seq<char>>, cur: Seq<Seq<char>>, watched: Seq<Seq<char>>) -> Seq<(nat, Seq<char>)>
    decreases prev.len(),
{
    if prev.len() == 0 {
        Seq::empty()
    } else {
        let r = left_events(prev.drop_last(), cur, watched);
        let p = prev.last();
        if watched.contains(p) && !cur.contains(p) { r.push((2nat, p)) } else { r }
    }
}

/// The anonymous-player alert, if any: `Some(n)` for `n` joined at once,
/// `Some(0)` for a first-time candidate.
pub open spec fn anon_alert(prev: Seq<Seq<char>>, cur: Seq<Seq<char>>, version_name: Seq<char>, online: i64) -> Option<nat> {
    let pa = anon_count(prev);
    let ca = anon_count(cur);
    let version_matches = has_infix(version_name, "1.20.4"@);
    let every_anon = forall|i: int| 0 <= i < cur.len() ==> #[trigger] cur[i] == anon_name();
    let too_many = ca >= 8 && every_anon;
    let meets = prev.len() > 0 && ca > pa && ca - pa >= 2;
    if meets && version_matches && online < 25 && !too_many {
        Some((ca - pa) as nat)
    } else if version_matches && pa == 0 && ca > 0 && online < 25 {
        Some(0)
    } else {
        None
    }
}

pub open spec fn event_view(e: SnipeEvent) -> (nat, Seq<char>) {
    match e {
        SnipeEvent::Online(n) => (0nat, n@),
        SnipeEvent::Joined(n) => (1nat, n@),
        SnipeEvent::Left(n) => (2nat, n@),
    }
}

pub open spec fn events_view(es: Seq<SnipeEvent>) -> Seq<(nat, Seq<char>)> {
    es.map_values(|e: SnipeEvent| event_view(e))
}

/// The alert as the spec above gives it.
pub open spec fn alert_of(a: Option<nat>) -> AnonAlert {
    match a {
        None => AnonAlert::Quiet,
        Some(n) => if n == 0 { AnonAlert::FirstTimeCandidate } else { AnonAlert::Joined(n as u64) },
    }
}

/// The names in a response's sample.
pub fn names_in_sample(v: &JsonValue) -> (r: Vec<String>)
    ensures
        views(r@) == sample_names(*v),
{
    let mut out: Vec<String> = Vec::new();
    let es = match get_field(v, &lit("players")) {
        Some(p) => match get_field(p, &lit("sample")) {
            Some(JsonValue::Array(a)) => a,
            _ => {
                assert(views(out@) =~= Seq::<Seq<char>>::empty());
                return out;
            },
        },
        None => {
            assert(views(out@) =~= Seq::<Seq<char>>::empty());
            return out;
        },
    };
    let name_key = lit("name");
    let mut i: usize = 0;
    assert(views(out@) =~= names_of_entries(es@.subrange(0, 0)));
    while i < es.len()
        invariant
            i <= es.len(),
            name_key@ == "name"@,
            views(out@) == names_of_entries(es@.subrange(0, i as int)),
        decreases es.len() - i,
    {
        let ghost pre = es@.subrange(0, i as int + 1);
        assert(pre.drop_last() =~= es@.subrange(0, i as int));
        let ghost before = out@;
        if matches!(&es[i], JsonValue::Object(_)) {
            let name = match get_field(&es[i], &name_key) {
                Some(JsonValue::Str(s)) => s.clone(),
                _ => String::new(),
            };
            out.push(name);
            assert(views(out@) =~= views(before).push(name@));
        }
        i += 1;
    }
    assert(es@.subrange(0, es.len() as int) =~= es@);
    out
}

fn contains_name(names: &Vec<String>, n: &String) -> (r: bool)
    ensures
        r == views(names@).contains(n@),
{
    let mut i: usize = 0;
    while i < names.len()
        invariant
            i <= names.len(),
            forall|t: int| 0 <= t < i ==> views(names@)[t] != n@,
        decreases names.len() - i,
    {
        if names[i] == *n {
            assert(views(names@)[i as int] == n@);
            return true;
        }
        i += 1;
    }
    false
}

fn count_anonymous(names: &Vec<String>) -> (r: u64)
    ensures
        r == anon_count(views(names@)),
{
    let anon = lit("Anonymous Player");
    let mut c: u64 = 0;
    let mut i: usize = 0;
    while i < names.len()
        invariant
            i <= names.len(),
            anon@ == anon_name(),
            c == anon_count(views(names@).subrange(0, i as int)),
            c <= i,
        decreases names.len() - i,
    {
        let ghost pre = views(names@).subrange(0, i as int + 1);
        assert(pre.drop_last() =~= views(names@).subrange(0, i as int));
        if names[i] == anon {
            c = c + 1;
        }
        i += 1;
    }
    assert(views(names@).subrange(0, names.len() as int) =~= views(names@));
    c
}

fn all_anonymous(names: &Vec<String>) -> (r: bool)
    ensures
        r == forall|i: int| 0 <= i < names.len() ==> #[trigger] views(names@)[i] == anon_name(),
{
    let anon = lit("Anonymous Player");
    let mut i: usize = 0;
    while i < names.len()
        invariant
            i <= names.len(),
            anon@ == anon_name(),
            forall|t: int| 0 <= t < i ==> #[trigger] views(names@)[t] == anon_name(),
        decreases names.len() - i,
    {
        if names[i] != anon {
            assert(views(names@)[i as int] != anon_name());
            return false;
        }
        i += 1;
    }
    true
}

/// The report for samples `prev` then `cur`.
pub open spec fn snipe_spec(config: SnipeConfig, prev: Seq<Seq<char>>, cur: Seq<Seq<char>>, version_name: Seq<char>, online: i64, r: SnipeOutcome) -> bool {
    &&& events_view(r.events@) == watch_events(prev, cur, views(config.usernames@))
    &&& r.anon == (if config.anon_players {
        alert_of(anon_alert(prev, cur, version_name, online))
    } else {
        AnonAlert::Quiet
    })
}

/// What to report about a server whose sample held `prev` last time and
/// holds `cur` now; `version_name` and `online` are from the current response.
pub fn snipe_check(config: &SnipeConfig, prev: &Vec<String>, cur: &Vec<String>, version_name: &str, online: i64)
    -> (r: SnipeOutcome)
    ensures
        snipe_spec(*config, views(prev@), views(cur@), version_name@, online, r),
{
    let ghost pv = views(prev@);
    let ghost cv = views(cur@);
    let ghost wv = views(config.usernames@);
    let mut events: Vec<SnipeEvent> = Vec::new();
    let mut i: usize = 0;
    assert(cv.subrange(0, 0) =~= Seq::<Seq<char>>::empty());
    while i < cur.len()
        invariant
            i <= cur.len(),
            pv == views(prev@),
            cv == views(cur@),
            wv == views(config.usernames@),
            events_view(events@) == joined_events(pv, cv.subrange(0, i as int), wv),
        decreases cur.len() - i,
    {
        let ghost pre = cv.subrange(0, i as int + 1);
        assert(pre.drop_last() =~= cv.subrange(0, i as int));
        let ghost before = events@;
        if contains_name(&config.usernames, &cur[i]) {
            events.push(SnipeEvent::Online(cur[i].clone()));
            if !contains_name(prev, &cur[i]) {
                events.push(SnipeEvent::Joined(cur[i].clone()));
            }
        }
        assert(events_view(events@) =~= joined_events(pv, pre, wv));
        i += 1;
    }
    assert(cv.subrange(0, cur.len() as int) =~= cv);
    let ghost joined = events@;
    let mut j: usize = 0;
    assert(pv.subrange(0, 0) =~= Seq::<Seq<char>>::empty());
    assert(events_view(events@) =~= joined_events(pv, cv, wv) + left_events(pv.subrange(0, 0), cv, wv));
    while j < prev.len()
        invariant
            j <= prev.len(),
            pv == views(prev@),
            cv == views(cur@),
            wv == views(config.usernames@),
            events_view(events@) == joined_events(pv, cv, wv) + left_events(pv.subrange(0, j as int), cv, wv),
        decreases prev.len() - j,
    {
        let ghost pre = pv.subrange(0, j as int + 1);
        assert(pre.drop_last() =~= pv.subrange(0, j as int));
        assert(pre.last() == prev@[j as int]@);
        let ghost before = events@;
        if contains_name(&config.usernames, &prev[j]) && !contains_name(cur, &prev[j]) {
            let left = prev[j].clone();
            events.push(SnipeEvent::Left(left));
            assert(events_view(events@) =~= events_view(before).push((2nat, pre.last())));
        }
        assert(events_view(events@) =~= joined_events(pv, cv, wv) + left_events(pre, cv, wv));
        j += 1;
    }
    assert(pv.subrange(0, prev.len() as int) =~= pv);
    if !config.anon_players {
        return SnipeOutcome { events, anon: AnonAlert::Quiet };
    }
    let pa = count_anonymous(prev);
    let ca = count_anonymous(cur);
    let version_matches = contains_seq(&chars_of(version_name), &chars_of("1.20.4"));
    let every_anon = all_anonymous(cur);
    let too_many = ca >= 8 && every_anon;
    let meets = prev.len() > 0 && ca > pa && ca - pa >= 2;
    let anon = if meets && version_matches && online < 25 && !too_many {
        AnonAlert::Joined(ca - pa)
    } else if version_matches && pa == 0 && ca > 0 && online < 25 {
        AnonAlert::FirstTimeCandidate
    } else {
        AnonAlert::Quiet
    };
    SnipeOutcome { events, anon }
}

} // verus!
