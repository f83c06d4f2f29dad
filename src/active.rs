//! Active fingerprinting: which server software answered a deliberately
//! malformed login.
use vstd::prelude::*;
use crate::database::{BulkUpdate, Query, UpdateSet};
use crate::process::{lossy_text, utf8_lossy};
use crate::text::{chars_of, contains_seq, has_infix, has_prefix, starts_with};

verus! {

/// The server software that a reply reveals.
#[derive(Clone, Copy, Debug, PartialEq, Eq, Structural)]
pub enum ServerType {
    Vanilla,
    Fabric,
    Forge,
    Paper,
    NodeMinecraftProtocol,
    Empty,
    Unknown,
}

/// What an active probe records: when, and the software where it is known.
pub struct ActiveFingerprint {
    /// Milliseconds since the epoch.
    pub timestamp: i64,
    pub software: Option<ServerType>,
}

impl ServerType {
    /// The name under which the software is stored.
    pub fn name(&self) -> (r: String)
        ensures
            r@ == software_name(*self),
    {
        match self {
            ServerType::Vanilla => String::from_str("vanilla"),
            ServerType::Fabric => String::from_str("fabric"),
            ServerType::Forge => String::from_str("forge"),
            ServerType::Paper => String::from_str("paper"),
            ServerType::NodeMinecraftProtocol => String::from_str("node_minecraft_protocol"),
            ServerType::Empty => String::from_str("empty"),
            ServerType::Unknown => String::from_str("unknown"),
        }
    }
}

pub open spec fn software_name(t: ServerType) -> Seq<char> {
    match t {
        ServerType::Vanilla => "vanilla"@,
        ServerType::Fabric => "fabric"@,
        ServerType::Forge => "forge"@,
        ServerType::Paper => "paper"@,
        ServerType::NodeMinecraftProtocol => "node_minecraft_protocol"@,
        ServerType::Empty => "empty"@,
        ServerType::Unknown => "unknown"@,
    }
}

/// The error that a vanilla-derived server sends for the malformed login; its
/// group is the name of the packet class.
pub open spec fn vanilla_error_pattern() -> Seq<char> {
    "java\\.io\\.IOException: Packet (?:\\d+|login)\\/\\d+ \\(([^)]+)\\)"@
}

/// A name for the text of the first capture group of the leftmost match of a
/// regular expression (regex crate syntax) in a text, where it matches.
pub uninterp spec fn regex_group1(pattern: Seq<char>, text: Seq<char>) -> Option<Seq<char>>;

/// Relies on regex::Regex::new, Regex::captures and Captures::get(1): the
/// first group of the leftmost match depends on the pattern and text alone.
#[verifier::external_body]
fn first_group(pattern: &str, text: &str) -> (r: Option<String>)
    ensures
        r matches Some(g) ==> regex_group1(pattern@, text@) == Some(g@),
        r is None ==> regex_group1(pattern@, text@) is None,
{
    regex::Regex::new(pattern).ok()?.captures(text)?.get(1).map(|m| m.as_str().to_string())
}

/// The software that a reply reveals, given the packet name that the vanilla
/// error pattern captured in it, if any.
pub open spec fn server_type_spec(packet: Option<Seq<char>>, text: Seq<char>, data: Seq<u8>) -> ServerType {
    match packet {
        Some(p) => if p == "PacketLoginInStart"@ {
            ServerType::Paper
        } else if p == "ServerboundHelloPacket"@ {
            ServerType::Forge
        } else if has_prefix(p, "class_"@) {
            ServerType::Fabric
        } else if 2 <= p.len() <= 3 {
            ServerType::Vanilla
        } else {
            ServerType::Unknown
        },
        None => if has_infix(text, "Forge"@) {
            ServerType::Forge
        } else if data.len() >= 4 && data.subrange(0, 4) == seq![3u8, 3u8, 0x80u8, 2u8] {
            ServerType::NodeMinecraftProtocol
        } else if data.len() == 0 {
            ServerType::Empty
        } else {
            ServerType::Unknown
        },
    }
}

/// The software that a reply reveals: `packet` is what the vanilla error
/// pattern captured in its text `text`, `data` the reply's bytes.
pub fn server_type_of(packet: Option<&str>, text: &str, data: &[u8]) -> (r: ServerType)
    ensures
        r == server_type_spec(match packet { Some(p) => Some(p@), None => None }, text@, data@),
{
    match packet {
        Some(p) => {
            let pc = chars_of(p);
            if String::from_str(p) == String::from_str("PacketLoginInStart") {
                ServerType::Paper
            } else if String::from_str(p) == String::from_str("ServerboundHelloPacket") {
                ServerType::Forge
            } else if starts_with(&pc, &chars_of("class_")) {
                ServerType::Fabric
            } else if 2 <= pc.len() && pc.len() <= 3 {
                ServerType::Vanilla
            } else {
                ServerType::Unknown
            }
        },
        None => {
            if contains_seq(&chars_of(text), &chars_of("Forge")) {
                ServerType::Forge
            } else if data.len() >= 4 && data[0] == 3 && data[1] == 3 && data[2] == 0x80 && data[3] == 2 {
                assert(data@.subrange(0, 4) =~= seq![3u8, 3u8, 0x80u8, 2u8]);
                ServerType::NodeMinecraftProtocol
            } else if data.len() == 0 {
                ServerType::Empty
            } else {
                if data.len() >= 4 {
                    assert(data@.subrange(0, 4)[0] == data@[0]);
                    assert(data@.subrange(0, 4)[1] == data@[1]);
                    assert(data@.subrange(0, 4)[2] == data@[2]);
                    assert(data@.subrange(0, 4)[3] == data@[3]);
                }
                ServerType::Unknown
            }
        },
    }
}

/// The update for an active probe's reply: on the server's record (keyed by
/// address and port, as the status path writes it), no upsert, the time and
/// the software where it is known.
pub open spec fn active_reply_spec(ip: u32, port: u16, data: Seq<u8>, now: i64, r: BulkUpdate) -> bool {
    let text = utf8_lossy(data);
    let t = server_type_spec(regex_group1(vanilla_error_pattern(), text), text, data);
    &&& r.query == (Query::ByIp { ip, port })
    &&& r.upsert is None
    &&& r.update == UpdateSet::ActiveFingerprint(ActiveFingerprint {
        timestamp: now,
        software: if t == ServerType::Unknown { None } else { Some(t) },
    })
}

/// The update that an active probe's reply `data` from `ip`:`port` leads
/// to, at `now` (milliseconds since the epoch).
pub fn process_active_reply(ip: u32, port: u16, data: &[u8], now: i64) -> (r: BulkUpdate)
    ensures
        active_reply_spec(ip, port, data@, now, r),
{
    let text = lossy_text(data);
    let pattern = String::from_str("java\\.io\\.IOException: Packet (?:\\d+|login)\\/\\d+ \\(([^)]+)\\)");
    let packet = first_group(pattern.as_str(), text.as_str());
    let t = match &packet {
        Some(p) => server_type_of(Some(p.as_str()), text.as_str(), data),
        None => server_type_of(None, text.as_str(), data),
    };
    let software = if t == ServerType::Unknown { None } else { Some(t) };
    BulkUpdate {
        query: Query::ByIp { ip, port },
        update: UpdateSet::ActiveFingerprint(ActiveFingerprint { timestamp: now, software }),
        upsert: None,
    }
}

} // verus!
