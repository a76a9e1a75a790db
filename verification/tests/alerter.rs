use peer_observer::alerter::push_decimal;
use peer_observer::{Alert, SpammerKind};

#[test]
fn ping_spammer_renders_as_documented() {
    let alert = Alert::Spammer {
        kind: SpammerKind::Ping,
        peer_id: 42,
        addr: "1.2.3.4:8333".to_string(),
        count: 4,
        window_secs: 30,
        threshold: 3,
    };
    assert_eq!(
        alert.render(),
        "PingSpammer | peer_id=42 addr=1.2.3.4:8333 | 4 pings in last 30s (threshold: 3)"
    );
}

#[test]
fn addr_spammer_renders_as_documented() {
    let alert = Alert::Spammer {
        kind: SpammerKind::Addr,
        peer_id: 7,
        addr: "5.6.7.8:8333".to_string(),
        count: 3,
        window_secs: 60,
        threshold: 2,
    };
    assert_eq!(
        alert.render(),
        "AddrSpammer | peer_id=7 addr=5.6.7.8:8333 | 3 addr/addrv2 messages in last 60s (threshold: 2)"
    );
}

#[test]
fn peer_disconnected_renders_as_documented() {
    let alert = Alert::PeerDisconnected {
        peer_id: 42,
        addr: "1.2.3.4:8333".to_string(),
        active_secs: 47,
    };
    assert_eq!(alert.render(), "PeerDisconnected | peer_id=42 addr=1.2.3.4:8333 | active=47s");
}

#[test]
fn decimal_edge_values() {
    for (n, expected) in [
        (0u64, "0"),
        (9, "9"),
        (10, "10"),
        (100, "100"),
        (1234567890, "1234567890"),
        (u64::MAX, "18446744073709551615"),
    ] {
        let mut s = String::from("x=");
        push_decimal(&mut s, n);
        assert_eq!(s, format!("x={}", expected));
    }
}

#[test]
fn render_with_empty_address_and_zero_counts() {
    let alert = Alert::Spammer {
        kind: SpammerKind::Ping,
        peer_id: 0,
        addr: String::new(),
        count: 0,
        window_secs: 0,
        threshold: 0,
    };
    assert_eq!(alert.render(), "PingSpammer | peer_id=0 addr= | 0 pings in last 0s (threshold: 0)");
}
