use zephyr_grid::zode_events::{LogEvent, LogLevel, ZodeStatus};

#[test]
fn renders_peer_events() {
    assert_eq!(LogEvent::PeerConnected("p1".into()).to_string(), "[PEER+] p1");
    assert_eq!(LogEvent::PeerDisconnected("p2".into()).to_string(), "[PEER-] p2");
    assert_eq!(LogEvent::PeerDiscovered("p3".into()).to_string(), "[DHT] discovered p3");
    assert_eq!(
        LogEvent::Started { listen_addr: "/ip4/0.0.0.0/tcp/4001".into() }.to_string(),
        "[STARTED] listening on /ip4/0.0.0.0/tcp/4001"
    );
    assert_eq!(LogEvent::ShuttingDown.to_string(), "[SHUTDOWN] Zode shutting down");
}

#[test]
fn renders_sector_events_with_short_ids() {
    let e = LogEvent::SectorAppendProcessed {
        program_id: "0123456789abcdef".into(),
        sector_id: "abc".into(),
        index: Some(42),
        accepted: true,
    };
    assert_eq!(e.to_string(), "[SECTOR APPEND OK] prog=01234567 sid=abc idx=42");
    let e = LogEvent::SectorAppendProcessed {
        program_id: "ffffffffff".into(),
        sector_id: "eeeeeeeeee".into(),
        index: None,
        accepted: false,
    };
    assert_eq!(e.to_string(), "[SECTOR APPEND REJECT] prog=ffffffff sid=eeeeeeee");
    let e = LogEvent::SectorReadLogProcessed {
        program_id: "aa".into(),
        sector_id: "bbbbbbbbbbbb".into(),
        entries: 1000,
    };
    assert_eq!(e.to_string(), "[SECTOR READ] prog=aa sid=bbbbbbbb entries=1000");
    let e = LogEvent::GossipSectorReceived {
        program_id: "12345678".into(),
        sector_id: "87654321x".into(),
        accepted: true,
    };
    assert_eq!(e.to_string(), "[GOSSIP STORED] prog=12345678 sid=87654321");
    let e = LogEvent::GossipSectorReceived {
        program_id: "1".into(),
        sector_id: "2".into(),
        accepted: false,
    };
    assert_eq!(e.to_string(), "[GOSSIP REJECT] prog=1 sid=2");
}

#[test]
fn renders_zero_index() {
    let e = LogEvent::SectorAppendProcessed {
        program_id: "p".into(),
        sector_id: "s".into(),
        index: Some(0),
        accepted: true,
    };
    assert_eq!(e.to_string(), "[SECTOR APPEND OK] prog=p sid=s idx=0");
}

#[test]
fn classifies_log_lines() {
    assert_eq!(LogLevel::from_log_line("[SECTOR APPEND REJECT] prog=1"), LogLevel::Reject);
    assert_eq!(LogLevel::from_log_line("[REJECT] bad"), LogLevel::Reject);
    assert_eq!(LogLevel::from_log_line("[GOSSIP STORED] x"), LogLevel::Gossip);
    assert_eq!(LogLevel::from_log_line("[DHT] discovered p"), LogLevel::Discovery);
    assert_eq!(LogLevel::from_log_line("[PEER+] p"), LogLevel::PeerConnect);
    assert_eq!(LogLevel::from_log_line("[PEER-] p"), LogLevel::PeerDisconnect);
    assert_eq!(LogLevel::from_log_line("[SHUTDOWN] bye"), LogLevel::Shutdown);
    assert_eq!(LogLevel::from_log_line("[SECTOR APPEND OK] x"), LogLevel::Normal);
    assert_eq!(LogLevel::from_log_line(""), LogLevel::Normal);
    assert_eq!(LogLevel::from_log_line("[GOSSI"), LogLevel::Normal);
}

#[test]
fn rendered_events_classify_by_kind() {
    let cases = vec![
        (LogEvent::Started { listen_addr: "a".into() }, LogLevel::Normal),
        (LogEvent::PeerConnected("p".into()), LogLevel::PeerConnect),
        (LogEvent::PeerDisconnected("p".into()), LogLevel::PeerDisconnect),
        (LogEvent::PeerDiscovered("p".into()), LogLevel::Discovery),
        (
            LogEvent::SectorAppendProcessed {
                program_id: "p".into(),
                sector_id: "s".into(),
                index: None,
                accepted: false,
            },
            LogLevel::Reject,
        ),
        (
            LogEvent::GossipSectorReceived {
                program_id: "p".into(),
                sector_id: "s".into(),
                accepted: false,
            },
            LogLevel::Gossip,
        ),
        (LogEvent::ShuttingDown, LogLevel::Shutdown),
    ];
    for (event, level) in cases {
        assert_eq!(LogLevel::from_log_line(&event.to_string()), level);
    }
}

#[test]
fn status_snapshot_holds_fields() {
    let s = ZodeStatus {
        zode_id: "Zx1".into(),
        peer_count: 2,
        connected_peers: vec!["a".into(), "b".into()],
        topics: vec!["prog/00".into()],
    };
    assert_eq!(s.peer_count as usize, s.connected_peers.len());
}
