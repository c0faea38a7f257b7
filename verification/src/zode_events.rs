//! Structured log events of a Zode, their one-line rendering, and the
//! classification of rendered lines that UI crates use to pick colours.
use vstd::prelude::*;
use vstd::string::*;
use vstd::utf8::{decode_utf8, encode_utf8, encode_utf8_decode_utf8, is_char_boundary};
use crate::text::{dec_chars, push_decimal, starts_with, starts_with_chars};

verus! {

/// Structured log events emitted by the Zode for UI consumption.
#[derive(Debug, Clone)]
pub enum LogEvent {
    /// Zode started and is serving.
    Started { listen_addr: String },
    /// A new peer connected.
    PeerConnected(String),
    /// A peer disconnected.
    PeerDisconnected(String),
    /// A new peer was discovered via DHT.
    PeerDiscovered(String),
    /// A sector append request was processed.
    SectorAppendProcessed {
        program_id: String,
        sector_id: String,
        index: Option<u64>,
        accepted: bool,
    },
    /// A sector read-log request was processed.
    SectorReadLogProcessed { program_id: String, sector_id: String, entries: usize },
    /// A gossip sector append was received and stored (or rejected).
    GossipSectorReceived { program_id: String, sector_id: String, accepted: bool },
    /// The Zode is shutting down.
    ShuttingDown,
}

/// The length in bytes of the shown prefix of an id: at most 8.
pub open spec fn short_len(id: Seq<char>) -> int {
    if encode_utf8(id).len() < 8 {
        encode_utf8(id).len() as int
    } else {
        8
    }
}

/// An id can be shortened to its first (at most) 8 bytes when that cut
/// falls on a character boundary (always so for ASCII ids).
pub open spec fn short_ok(id: Seq<char>) -> bool {
    is_char_boundary(encode_utf8(id), short_len(id))
}

/// The shown prefix of an id: the characters of its first (at most) 8
/// bytes.
pub open spec fn short_id(id: Seq<char>) -> Seq<char> {
    decode_utf8(encode_utf8(id).subrange(0, short_len(id)))
}

/// The `prog=… sid=…` part of a sector event.
pub open spec fn ids_text(program_id: Seq<char>, sector_id: Seq<char>) -> Seq<char> {
    "] prog="@ + short_id(program_id) + " sid="@ + short_id(sector_id)
}

/// The one-line rendering of an event.
pub open spec fn render(e: LogEvent) -> Seq<char> {
    match e {
        LogEvent::Started { listen_addr } => "[STARTED] listening on "@ + listen_addr@,
        LogEvent::PeerConnected(peer) => "[PEER+] "@ + peer@,
        LogEvent::PeerDisconnected(peer) => "[PEER-] "@ + peer@,
        LogEvent::PeerDiscovered(peer) => "[DHT] discovered "@ + peer@,
        LogEvent::SectorAppendProcessed { program_id, sector_id, index, accepted } => "[SECTOR APPEND "@
            + (if accepted {
            "OK"@
        } else {
            "REJECT"@
        }) + ids_text(program_id@, sector_id@) + match index {
            Some(i) => " idx="@ + dec_chars(i as nat),
            None => Seq::empty(),
        },
        LogEvent::SectorReadLogProcessed { program_id, sector_id, entries } => "[SECTOR READ"@
            + ids_text(program_id@, sector_id@) + " entries="@ + dec_chars(entries as nat),
        LogEvent::GossipSectorReceived { program_id, sector_id, accepted } => "[GOSSIP "@ + (if accepted {
            "STORED"@
        } else {
            "REJECT"@
        }) + ids_text(program_id@, sector_id@),
        LogEvent::ShuttingDown => "[SHUTDOWN] Zode shutting down"@,
    }
}

/// The ids of a sector event can be shortened without splitting a
/// character.
pub open spec fn renderable(e: LogEvent) -> bool {
    match e {
        LogEvent::SectorAppendProcessed { program_id, sector_id, .. } => short_ok(program_id@)
            && short_ok(sector_id@),
        LogEvent::SectorReadLogProcessed { program_id, sector_id, .. } => short_ok(program_id@)
            && short_ok(sector_id@),
        LogEvent::GossipSectorReceived { program_id, sector_id, .. } => short_ok(program_id@)
            && short_ok(sector_id@),
        _ => true,
    }
}

/// The first (at most) 8 bytes of an id.
fn short(id: &str) -> (r: &str)
    requires
        short_ok(id@),
    ensures
        r@ == short_id(id@),
{
    let len = id.as_bytes().len();
    let n = if len < 8 {
        len
    } else {
        8
    };
    let (head, _) = id.split_at(n);
    proof {
        encode_utf8_decode_utf8(head@);
    }
    head
}

/// Appends `] prog=… sid=…`.
fn push_ids(out: &mut String, program_id: &str, sector_id: &str)
    requires
        short_ok(program_id@),
        short_ok(sector_id@),
    ensures
        final(out)@ == old(out)@ + ids_text(program_id@, sector_id@),
{
    out.append("] prog=");
    out.append(short(program_id));
    out.append(" sid=");
    out.append(short(sector_id));
    assert(out@ =~= old(out)@ + ids_text(program_id@, sector_id@));
}

impl LogEvent {
    /// The one-line rendering of this event, e.g. `[PEER+] <peer>`.
    pub fn to_string(&self) -> (r: String)
        requires
            renderable(*self),
        ensures
            r@ == render(*self),
    {
        match self {
            LogEvent::Started { listen_addr } => {
                String::from_str("[STARTED] listening on ").concat(listen_addr.as_str())
            },
            LogEvent::PeerConnected(peer) => String::from_str("[PEER+] ").concat(peer.as_str()),
            LogEvent::PeerDisconnected(peer) => String::from_str("[PEER-] ").concat(peer.as_str()),
            LogEvent::PeerDiscovered(peer) => {
                String::from_str("[DHT] discovered ").concat(peer.as_str())
            },
            LogEvent::SectorAppendProcessed { program_id, sector_id, index, accepted } => {
                let mut s = String::from_str("[SECTOR APPEND ");
                if *accepted {
                    s.append("OK");
                } else {
                    s.append("REJECT");
                }
                push_ids(&mut s, program_id.as_str(), sector_id.as_str());
                match index {
                    Some(i) => {
                        s.append(" idx=");
                        push_decimal(&mut s, *i);
                    },
                    None => {},
                }
                assert(s@ =~= render(*self));
                s
            },
            LogEvent::SectorReadLogProcessed { program_id, sector_id, entries } => {
                let mut s = String::from_str("[SECTOR READ");
                push_ids(&mut s, program_id.as_str(), sector_id.as_str());
                s.append(" entries=");
                push_decimal(&mut s, *entries as u64);
                assert(s@ =~= render(*self));
                s
            },
            LogEvent::GossipSectorReceived { program_id, sector_id, accepted } => {
                let mut s = String::from_str("[GOSSIP ");
                if *accepted {
                    s.append("STORED");
                } else {
                    s.append("REJECT");
                }
                push_ids(&mut s, program_id.as_str(), sector_id.as_str());
                assert(s@ =~= render(*self));
                s
            },
            LogEvent::ShuttingDown => String::from_str("[SHUTDOWN] Zode shutting down"),
        }
    }
}

/// Severity / category of a formatted log line, used by UI crates to pick
/// colours without duplicating prefix-matching logic.
#[derive(Debug, Clone, Copy, PartialEq, Eq)]
pub enum LogLevel {
    Reject,
    Gossip,
    Discovery,
    PeerConnect,
    PeerDisconnect,
    Shutdown,
    Normal,
}

/// The category of a log line, by its first matching prefix.
pub open spec fn level_of(line: Seq<char>) -> LogLevel {
    if starts_with_chars(line, "[SECTOR APPEND REJECT"@) || starts_with_chars(line, "[REJECT"@) {
        LogLevel::Reject
    } else if starts_with_chars(line, "[GOSSIP"@) {
        LogLevel::Gossip
    } else if starts_with_chars(line, "[DHT"@) {
        LogLevel::Discovery
    } else if starts_with_chars(line, "[PEER+"@) {
        LogLevel::PeerConnect
    } else if starts_with_chars(line, "[PEER-"@) {
        LogLevel::PeerDisconnect
    } else if starts_with_chars(line, "[SHUTDOWN"@) {
        LogLevel::Shutdown
    } else {
        LogLevel::Normal
    }
}

impl LogLevel {
    /// Classify a formatted log line by its prefix.
    pub fn from_log_line(line: &str) -> (r: Self)
        ensures
            r == level_of(line@),
    {
        if starts_with(line, "[SECTOR APPEND REJECT") || starts_with(line, "[REJECT") {
            LogLevel::Reject
        } else if starts_with(line, "[GOSSIP") {
            LogLevel::Gossip
        } else if starts_with(line, "[DHT") {
            LogLevel::Discovery
        } else if starts_with(line, "[PEER+") {
            LogLevel::PeerConnect
        } else if starts_with(line, "[PEER-") {
            LogLevel::PeerDisconnect
        } else if starts_with(line, "[SHUTDOWN") {
            LogLevel::Shutdown
        } else {
            LogLevel::Normal
        }
    }
}

/// The category that the rendering of an event falls in.
pub open spec fn event_level(e: LogEvent) -> LogLevel {
    match e {
        LogEvent::Started { .. } => LogLevel::Normal,
        LogEvent::PeerConnected(_) => LogLevel::PeerConnect,
        LogEvent::PeerDisconnected(_) => LogLevel::PeerDisconnect,
        LogEvent::PeerDiscovered(_) => LogLevel::Discovery,
        LogEvent::SectorAppendProcessed { accepted, .. } => if accepted {
            LogLevel::Normal
        } else {
            LogLevel::Reject
        },
        LogEvent::SectorReadLogProcessed { .. } => LogLevel::Normal,
        LogEvent::GossipSectorReceived { .. } => LogLevel::Gossip,
        LogEvent::ShuttingDown => LogLevel::Shutdown,
    }
}

/// Two lines that differ at position `i` within the prefix: no match.
proof fn lemma_not_starts(s: Seq<char>, p: Seq<char>, i: int)
    requires
        0 <= i < p.len(),
        i < s.len(),
        s[i] != p[i],
    ensures
        !starts_with_chars(s, p),
{
    if starts_with_chars(s, p) {
        assert(s.subrange(0, p.len() as int)[i] == p[i]);
    }
}

/// A line whose first characters are those of `p` starts with `p`.
proof fn lemma_starts(s: Seq<char>, p: Seq<char>)
    requires
        p.len() <= s.len(),
        forall|i: int| 0 <= i < p.len() ==> s[i] == p[i],
    ensures
        starts_with_chars(s, p),
{
    assert(s.subrange(0, p.len() as int) =~= p);
}

/// The line of every event is classified as the kind of event it renders:
/// rejected appends as rejections, gossip as gossip, discoveries as
/// discovery, connects and disconnects as such, shutdown as shutdown, and
/// everything else as normal.
pub proof fn law_rendered_line_level(e: LogEvent)
    ensures
        level_of(render(e)) == event_level(e),
{
    reveal_strlit("[SECTOR APPEND REJECT");
    reveal_strlit("[REJECT");
    reveal_strlit("[GOSSIP");
    reveal_strlit("[DHT");
    reveal_strlit("[PEER+");
    reveal_strlit("[PEER-");
    reveal_strlit("[SHUTDOWN");
    reveal_strlit("[STARTED] listening on ");
    reveal_strlit("[PEER+] ");
    reveal_strlit("[PEER-] ");
    reveal_strlit("[DHT] discovered ");
    reveal_strlit("[SECTOR APPEND ");
    reveal_strlit("OK");
    reveal_strlit("REJECT");
    reveal_strlit("[SECTOR READ");
    reveal_strlit("[GOSSIP ");
    reveal_strlit("STORED");
    reveal_strlit("[SHUTDOWN] Zode shutting down");
    let r = render(e);
    let p1 = "[SECTOR APPEND REJECT"@;
    let p2 = "[REJECT"@;
    let p3 = "[GOSSIP"@;
    let p4 = "[DHT"@;
    let p5 = "[PEER+"@;
    let p6 = "[PEER-"@;
    let p7 = "[SHUTDOWN"@;
    match e {
        LogEvent::Started { listen_addr } => {
            lemma_not_starts(r, p1, 2);
            lemma_not_starts(r, p2, 1);
            lemma_not_starts(r, p3, 1);
            lemma_not_starts(r, p4, 1);
            lemma_not_starts(r, p5, 1);
            lemma_not_starts(r, p6, 1);
            lemma_not_starts(r, p7, 2);
        },
        LogEvent::PeerConnected(peer) => {
            lemma_not_starts(r, p1, 1);
            lemma_not_starts(r, p2, 1);
            lemma_not_starts(r, p3, 1);
            lemma_not_starts(r, p4, 1);
            lemma_starts(r, p5);
        },
        LogEvent::PeerDisconnected(peer) => {
            lemma_not_starts(r, p1, 1);
            lemma_not_starts(r, p2, 1);
            lemma_not_starts(r, p3, 1);
            lemma_not_starts(r, p4, 1);
            lemma_not_starts(r, p5, 5);
            lemma_starts(r, p6);
        },
        LogEvent::PeerDiscovered(peer) => {
            lemma_not_starts(r, p1, 1);
            lemma_not_starts(r, p2, 1);
            lemma_not_starts(r, p3, 1);
            lemma_starts(r, p4);
        },
        LogEvent::SectorAppendProcessed { program_id, sector_id, index, accepted } => {
            if accepted {
                lemma_not_starts(r, p1, 15);
                lemma_not_starts(r, p2, 1);
                lemma_not_starts(r, p3, 1);
                lemma_not_starts(r, p4, 1);
                lemma_not_starts(r, p5, 1);
                lemma_not_starts(r, p6, 1);
                lemma_not_starts(r, p7, 2);
            } else {
                lemma_starts(r, p1);
            }
        },
        LogEvent::SectorReadLogProcessed { program_id, sector_id, entries } => {
            lemma_not_starts(r, p1, 8);
            lemma_not_starts(r, p2, 1);
            lemma_not_starts(r, p3, 1);
            lemma_not_starts(r, p4, 1);
            lemma_not_starts(r, p5, 1);
            lemma_not_starts(r, p6, 1);
            lemma_not_starts(r, p7, 2);
        },
        LogEvent::GossipSectorReceived { program_id, sector_id, accepted } => {
            lemma_not_starts(r, p1, 1);
            lemma_not_starts(r, p2, 1);
            lemma_starts(r, p3);
        },
        LogEvent::ShuttingDown => {
            lemma_not_starts(r, p1, 2);
            lemma_not_starts(r, p2, 1);
            lemma_not_starts(r, p3, 1);
            lemma_not_starts(r, p4, 1);
            lemma_not_starts(r, p5, 1);
            lemma_not_starts(r, p6, 1);
            lemma_starts(r, p7);
        },
    }
}

/// Status snapshot of the running Zode.
#[derive(Debug, Clone)]
pub struct ZodeStatus {
    /// The local Zode ID.
    pub zode_id: String,
    /// Number of connected Zodes.
    pub peer_count: u64,
    /// Connected Zode IDs.
    pub connected_peers: Vec<String>,
    /// Subscribed program topics.
    pub topics: Vec<String>,
}

} // verus!
