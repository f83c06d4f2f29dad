use std::collections::HashSet;

use matscan_core::active::{process_active_reply, server_type_of, ServerType};
use matscan_core::database::{DatabaseSharedData, Query, UpdateSet};
use matscan_core::prune::{needs_trim, trim_players, PlayerEntry};
use matscan_core::scan::{
    all_ports_ranges, cached_servers, rescan_order, rescan_targets, rescan_window, selection_for, store_snapshot,
    CollectServersFilter, RescanOrder, ServerSelection, Sort,
};
use matscan_core::snipe::{snipe_check, AnonAlert, SnipeConfig};
use matscan_core::tcp::{SignatureError, TcpFingerprint, TcpOptionKind};

#[test]
fn trims_to_most_recent_five_hundred() {
    let players: Vec<PlayerEntry> = (0..1200i64)
        .map(|i| PlayerEntry { id: format!("p{}", i), last_seen: (i * 7919) % 1200, name: format!("n{}", i) })
        .collect();
    assert!(needs_trim(players.len()));
    let kept = trim_players(players);
    assert_eq!(kept.len(), 500);
    for (k, p) in kept.iter().enumerate() {
        assert_eq!(p.last_seen, 1199 - k as i64);
    }
}

#[test]
fn small_maps_are_kept_whole() {
    assert!(!needs_trim(1000));
    let players = vec![PlayerEntry { id: "a".into(), last_seen: 1, name: "x".into() }];
    assert_eq!(trim_players(players).len(), 1);
}

#[test]
fn default_linux_signature() {
    let f = TcpFingerprint::linux_default().ok().unwrap();
    assert_eq!(f.initial_ttl, 64);
    assert_eq!(f.window_size, 30000);
    assert_eq!(
        f.options,
        vec![
            TcpOptionKind::Mss(1500),
            TcpOptionKind::SackPermitted,
            TcpOptionKind::Timestamp { value: 1, echo_reply: 0 },
            TcpOptionKind::Nop,
            TcpOptionKind::WindowScale(10),
        ]
    );
}

#[test]
fn literal_window_and_explicit_mss() {
    let f = TcpFingerprint::parse_signature("4:128:0:1460:65535,8:mss,nop,ws,zz:df:0", 1500).ok().unwrap();
    assert_eq!(f.initial_ttl, 128);
    assert_eq!(f.window_size, 65535);
    assert_eq!(f.options, vec![TcpOptionKind::Mss(1460), TcpOptionKind::Nop, TcpOptionKind::WindowScale(8)]);
}

#[test]
fn signature_errors() {
    assert_eq!(TcpFingerprint::parse_signature("4:64:0", 1500).err(), Some(SignatureError::FieldCount));
    assert_eq!(TcpFingerprint::parse_signature("6:64:0:*:*:mss:df:0", 1500).err(), Some(SignatureError::NotIpv4));
    assert_eq!(TcpFingerprint::parse_signature("4:300:0:*:*:mss:df:0", 1500).err(), Some(SignatureError::BadTtl));
    assert_eq!(TcpFingerprint::parse_signature("4:64:0:x:*:mss:df:0", 1500).err(), Some(SignatureError::BadMss));
    assert_eq!(TcpFingerprint::parse_signature("4:64:0:*:mtu*4,7:mss:df:0", 1500).err(), Some(SignatureError::MtuWindow));
    assert_eq!(TcpFingerprint::parse_signature("4:64:0:*:mss*50,7:mss:df:0", 1500).err(), Some(SignatureError::BadWindow));
    let f = TcpFingerprint::parse_signature("*:64:0:*:*::df:0", 1500).ok().unwrap();
    assert_eq!(f.window_size, 0);
    assert!(f.options.is_empty());
}

#[test]
fn active_reply_types() {
    assert_eq!(server_type_of(Some("PacketLoginInStart"), "", b"x"), ServerType::Paper);
    assert_eq!(server_type_of(Some("ServerboundHelloPacket"), "", b"x"), ServerType::Forge);
    assert_eq!(server_type_of(Some("class_2915"), "", b"x"), ServerType::Fabric);
    assert_eq!(server_type_of(Some("aba"), "", b"x"), ServerType::Vanilla);
    assert_eq!(server_type_of(Some("SomethingElse"), "", b"x"), ServerType::Unknown);
    assert_eq!(server_type_of(None, "Forge here", b"Forge here"), ServerType::Forge);
    assert_eq!(server_type_of(None, "", &[3, 3, 0x80, 2, 9]), ServerType::NodeMinecraftProtocol);
    assert_eq!(server_type_of(None, "", &[]), ServerType::Empty);
    assert_eq!(server_type_of(None, "?", &[1]), ServerType::Unknown);
    assert_eq!(ServerType::NodeMinecraftProtocol.name(), "node_minecraft_protocol");
}

#[test]
fn active_reply_from_vanilla_error() {
    let reply = b"java.io.IOException: Packet 0/0 (aba) was larger than I expected";
    let b = process_active_reply(7, 25565, reply, 42);
    assert!(matches!(b.query, Query::ByIp { ip: 7, port: 25565 }));
    assert_eq!(b.upsert, None);
    match b.update {
        UpdateSet::ActiveFingerprint(f) => {
            assert_eq!(f.timestamp, 42);
            assert_eq!(f.software, Some(ServerType::Vanilla));
        },
        UpdateSet::Server(_) => panic!("wrong update"),
    }
    match process_active_reply(7, 1, b"?", 1).update {
        UpdateSet::ActiveFingerprint(f) => assert_eq!(f.software, None),
        UpdateSet::Server(_) => panic!("wrong update"),
    }
}

#[test]
fn snapshots_serve_for_a_day() {
    let mut db = DatabaseSharedData::new(HashSet::new());
    assert!(cached_servers(&db, CollectServersFilter::Active30d, 0).is_none());
    store_snapshot(&mut db, CollectServersFilter::Active30d, vec![(1, 2)], 1000);
    assert_eq!(cached_servers(&db, CollectServersFilter::Active30d, 1000 + 86_399_999), Some(vec![(1, 2)]));
    assert!(cached_servers(&db, CollectServersFilter::Active30d, 1000 + 86_400_000).is_none());
    assert!(cached_servers(&db, CollectServersFilter::New, 1000).is_none());
}

#[test]
fn selections() {
    let now: i64 = 1_700_000_000_000;
    assert_eq!(selection_for(CollectServersFilter::Active30d, now), ServerSelection::RespondedAfter(now - 2_592_000_000));
    assert_eq!(selection_for(CollectServersFilter::New, now), ServerSelection::CreatedAfter(1_699_395_200));
}

#[test]
fn rescan_planning() {
    let w = rescan_window(10_000_000, 100, Some(10), 5000);
    assert_eq!(w.responded_after, 5_000_000);
    assert_eq!(w.responded_before, 9_900_000);
    assert_eq!(w.active_after, Some(9_990_000));
    assert_eq!(rescan_order(Some(Sort::Random), None), RescanOrder::Sample(10000000));
    assert_eq!(rescan_order(None, Some(5)), RescanOrder::OldestFirst(Some(5)));
    let mut bad = HashSet::new();
    bad.insert(9u32);
    let (ranges, deletions) = rescan_targets(&bad, &vec![(9, 1), (9, 2), (9, 25565), (4, 7)]);
    assert_eq!(deletions, vec![9]);
    assert_eq!(ranges.len(), 3);
    assert_eq!(ranges[0].port_start, 2);
}

#[test]
fn one_range_per_address() {
    let r = all_ports_ranges(&vec![(1, 80), (2, 80), (1, 443)]);
    assert_eq!(r.len(), 2);
    assert_eq!((r[0].addr_start, r[0].port_start, r[0].port_end), (1, 1024, 65535));
    assert_eq!(r[1].addr_start, 2);
}

#[test]
fn anonymous_alerts() {
    let config = SnipeConfig { enabled: true, webhook_url: String::new(), usernames: vec![], anon_players: true };
    let anon = "Anonymous Player".to_string();
    let out = snipe_check(&config, &vec!["a".to_string()], &vec![anon.clone(), anon.clone(), "a".to_string()], "Paper 1.20.4", 3);
    assert_eq!(out.anon, AnonAlert::Joined(2));
    let out = snipe_check(&config, &vec![], &vec![anon.clone()], "1.20.4", 3);
    assert_eq!(out.anon, AnonAlert::FirstTimeCandidate);
    let out = snipe_check(&config, &vec![], &vec![anon.clone()], "1.19", 3);
    assert_eq!(out.anon, AnonAlert::Quiet);
}
