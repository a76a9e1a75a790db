//! The alerts that the alerts tool publishes, and their one-line rendering.

use vstd::prelude::*;
use vstd::string::*;

verus! {

/// The kind of spamming behaviour a peer was flagged for.
#[derive(Copy, Clone, Debug, PartialEq, Eq, Structural)]
pub enum SpammerKind {
    Ping,
    Addr,
}

/// Every observation the alerts tool publishes flows through this enum.
/// `Spammer` is emitted when a peer crosses a configured threshold once;
/// `PeerDisconnected` is emitted when a previously-flagged peer disconnects.
#[derive(Clone, Debug, PartialEq, Eq)]
pub enum Alert {
    Spammer {
        kind: SpammerKind,
        peer_id: u64,
        addr: String,
        count: usize,
        window_secs: u64,
        threshold: usize,
    },
    PeerDisconnected { peer_id: u64, addr: String, active_secs: u64 },
}

/// Output sink for alerts. Implementations decide how alerts are published.
///
/// `emit` is called from the event loop and must not block. Sinks that do
/// I/O must own a background task and hand off the alert through a channel.
pub trait Alerter: Send + Sync {
    fn emit(&self, alert: Alert);
}

/// The decimal digit `d` (for `d < 10`).
pub open spec fn digit_char(d: nat) -> char {
    if d == 0 {
        '0'
    } else if d == 1 {
        '1'
    } else if d == 2 {
        '2'
    } else if d == 3 {
        '3'
    } else if d == 4 {
        '4'
    } else if d == 5 {
        '5'
    } else if d == 6 {
        '6'
    } else if d == 7 {
        '7'
    } else if d == 8 {
        '8'
    } else {
        '9'
    }
}

/// The decimal notation of `n`, without leading zeros.
pub open spec fn decimal(n: nat) -> Seq<char>
    decreases n,
{
    if n < 10 {
        seq![digit_char(n)]
    } else {
        decimal(n / 10).push(digit_char(n % 10))
    }
}

/// The value of a decimal digit character.
pub open spec fn digit_value(c: char) -> nat {
    if c == '0' {
        0
    } else if c == '1' {
        1
    } else if c == '2' {
        2
    } else if c == '3' {
        3
    } else if c == '4' {
        4
    } else if c == '5' {
        5
    } else if c == '6' {
        6
    } else if c == '7' {
        7
    } else if c == '8' {
        8
    } else {
        9
    }
}

/// Whether `c` is one of `0`..`9`.
pub open spec fn is_digit(c: char) -> bool {
    '0' <= c <= '9'
}

/// The number that a string of decimal digits denotes.
pub open spec fn digits_value(s: Seq<char>) -> nat
    decreases s.len(),
{
    if s.len() == 0 {
        0
    } else {
        digits_value(s.drop_last()) * 10 + digit_value(s.last())
    }
}

/// The decimal notation of `n` is a non-empty string of digits, without a
/// leading zero unless `n` is 0, that denotes `n`.
pub proof fn law_decimal_denotes(n: nat)
    ensures
        decimal(n).len() > 0,
        forall|i: int| 0 <= i < decimal(n).len() ==> is_digit(#[trigger] decimal(n)[i]),
        n > 0 ==> decimal(n)[0] != '0',
        digits_value(decimal(n)) == n,
    decreases n,
{
    if n >= 10 {
        law_decimal_denotes(n / 10);
        let d = decimal(n);
        assert(d.drop_last() =~= decimal(n / 10));
        assert(d[0] == decimal(n / 10)[0]);
        assert((n / 10) * 10 + n % 10 == n) by (nonlinear_arith);
        assert forall|i: int| 0 <= i < d.len() implies is_digit(#[trigger] d[i]) by {
            if i < d.len() - 1 {
                assert(d[i] == decimal(n / 10)[i]);
            }
        }
        assert(digit_value(digit_char(n % 10)) == n % 10);
        assert(digits_value(d) == digits_value(decimal(n / 10)) * 10 + digit_value(d.last()));
    } else {
        let d = decimal(n);
        assert(d.drop_last() =~= Seq::<char>::empty());
        assert(digit_value(digit_char(n)) == n);
        assert(digits_value(d) == digits_value(d.drop_last()) * 10 + digit_value(d.last()));
    }
}

/// The one-character string of the decimal digit `d`.
fn digit_str(d: u64) -> (s: &'static str)
    requires
        d < 10,
    ensures
        s@ == seq![digit_char(d as nat)],
{
    proof {
        reveal_strlit("0");
        reveal_strlit("1");
        reveal_strlit("2");
        reveal_strlit("3");
        reveal_strlit("4");
        reveal_strlit("5");
        reveal_strlit("6");
        reveal_strlit("7");
        reveal_strlit("8");
        reveal_strlit("9");
    }
    if d == 0 {
        "0"
    } else if d == 1 {
        "1"
    } else if d == 2 {
        "2"
    } else if d == 3 {
        "3"
    } else if d == 4 {
        "4"
    } else if d == 5 {
        "5"
    } else if d == 6 {
        "6"
    } else if d == 7 {
        "7"
    } else if d == 8 {
        "8"
    } else {
        "9"
    }
}

/// Appends the decimal notation of `n` to `s`.
pub fn push_decimal(s: &mut String, n: u64)
    ensures
        final(s)@ == old(s)@ + decimal(n as nat),
    decreases n,
{
    if n >= 10 {
        push_decimal(s, n / 10);
    }
    s.append(digit_str(n % 10));
    assert(s@ =~= old(s)@ + decimal(n as nat));
}

/// The name under which a spammer kind is reported.
pub open spec fn kind_name(kind: SpammerKind) -> Seq<char> {
    match kind {
        SpammerKind::Ping => "PingSpammer"@,
        SpammerKind::Addr => "AddrSpammer"@,
    }
}

/// What a spammer kind counts.
pub open spec fn kind_unit(kind: SpammerKind) -> Seq<char> {
    match kind {
        SpammerKind::Ping => "pings"@,
        SpammerKind::Addr => "addr/addrv2 messages"@,
    }
}

/// The one-line rendering of an alert:
/// `<Kind>Spammer | peer_id=<id> addr=<addr> | <count> <unit> in last <secs>s (threshold: <threshold>)`
/// or `PeerDisconnected | peer_id=<id> addr=<addr> | active=<secs>s`.
pub open spec fn rendered(alert: Alert) -> Seq<char> {
    match alert {
        Alert::Spammer { kind, peer_id, addr, count, window_secs, threshold } => kind_name(kind)
            + " | peer_id="@ + decimal(peer_id as nat) + " addr="@ + addr@ + " | "@ + decimal(
            count as nat,
        ) + " "@ + kind_unit(kind) + " in last "@ + decimal(window_secs as nat)
            + "s (threshold: "@ + decimal(threshold as nat) + ")"@,
        Alert::PeerDisconnected { peer_id, addr, active_secs } => "PeerDisconnected | peer_id="@
            + decimal(peer_id as nat) + " addr="@ + addr@ + " | active="@ + decimal(
            active_secs as nat,
        ) + "s"@,
    }
}

impl Alert {
    /// The one-line rendering of this alert (see [`rendered`]).
    pub fn render(&self) -> (s: String)
        ensures
            s@ == rendered(*self),
    {
        match self {
            Alert::Spammer { kind, peer_id, addr, count, window_secs, threshold } => {
                let (name, unit) = match kind {
                    SpammerKind::Ping => ("PingSpammer", "pings"),
                    SpammerKind::Addr => ("AddrSpammer", "addr/addrv2 messages"),
                };
                let mut s = String::from_str(name);
                s.append(" | peer_id=");
                push_decimal(&mut s, *peer_id);
                s.append(" addr=");
                s.append(addr.as_str());
                s.append(" | ");
                push_decimal(&mut s, *count as u64);
                s.append(" ");
                s.append(unit);
                s.append(" in last ");
                push_decimal(&mut s, *window_secs);
                s.append("s (threshold: ");
                push_decimal(&mut s, *threshold as u64);
                s.append(")");
                s
            },
            Alert::PeerDisconnected { peer_id, addr, active_secs } => {
                let mut s = String::from_str("PeerDisconnected | peer_id=");
                push_decimal(&mut s, *peer_id);
                s.append(" addr=");
                s.append(addr.as_str());
                s.append(" | active=");
                push_decimal(&mut s, *active_secs);
                s.append("s");
                s
            },
        }
    }
}

} // verus!
