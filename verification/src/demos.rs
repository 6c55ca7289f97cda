//! Text of the bonding demo: the address lists handed to the RIST elements
//! and the one-line summaries of RIST statistics and bus errors.

use vstd::prelude::*;
use vstd::string::*;

use crate::network_sim::qdisc::lit;
use crate::text::{
    chars_contain, chars_eq, decimal, i64_to_decimal, push_str, seq_contains, signed_decimal,
    str_chars, u64_to_decimal,
};

verus! {

/// `host:port` for each port, separated by commas.
pub open spec fn bonding_list(host: Seq<char>, ports: Seq<u16>) -> Seq<char>
    decreases ports.len(),
{
    if ports.len() == 0 {
        Seq::empty()
    } else if ports.len() == 1 {
        host + ":"@ + decimal(ports[0] as nat)
    } else {
        bonding_list(host, ports.drop_last()) + ","@ + host + ":"@ + decimal(ports.last() as nat)
    }
}

/// The bonding addresses of `ports` on `host`.
pub fn bonding_addresses(host: &str, ports: &[u16]) -> (r: String)
    ensures
        r@ == bonding_list(host@, ports@),
{
    let mut out = String::new();
    let mut i: usize = 0;
    while i < ports.len()
        invariant
            i <= ports@.len(),
            out@ == bonding_list(host@, ports@.take(i as int)),
        decreases ports.len() - i,
    {
        if i > 0 {
            push_str(&mut out, ",");
        }
        push_str(&mut out, host);
        push_str(&mut out, ":");
        let d = u64_to_decimal(ports[i] as u64);
        push_str(&mut out, d.as_str());
        proof {
            assert(ports@.take(i as int + 1).drop_last() =~= ports@.take(i as int));
            if i == 0 {
                assert(ports@.take(1).len() == 1);
                assert(out@ =~= bonding_list(host@, ports@.take(1)));
            }
        }
        i = i + 1;
    }
    assert(ports@.take(ports@.len() as int) =~= ports@);
    out
}

/// ASCII lower case of a character.
pub open spec fn ascii_lower(c: char) -> char {
    if 65 <= (c as u32) <= 90 {
        ((c as u32) + 32) as char
    } else {
        c
    }
}

/// ASCII lower case of a text (`str::to_ascii_lowercase`).
pub open spec fn ascii_lowercase(s: Seq<char>) -> Seq<char> {
    s.map_values(|c: char| ascii_lower(c))
}

fn lower_char(c: char) -> (r: char)
    ensures
        r == ascii_lower(c),
{
    if 'A' <= c && c <= 'Z' {
        let b: u8 = (c as u32 + 32) as u8;
        b as char
    } else {
        c
    }
}

fn to_ascii_lowercase(s: &str) -> (r: Vec<char>)
    ensures
        r@ == ascii_lowercase(s@),
{
    let cs = str_chars(s);
    let mut out: Vec<char> = Vec::new();
    let mut i: usize = 0;
    while i < cs.len()
        invariant
            i <= cs.len(),
            cs@ == s@,
            out@ == ascii_lowercase(cs@.take(i as int)),
        decreases cs.len() - i,
    {
        out.push(lower_char(cs[i]));
        assert(ascii_lowercase(cs@.take(i as int + 1)) =~= ascii_lowercase(cs@.take(i as int)).push(
            ascii_lower(cs@[i as int]),
        ));
        i = i + 1;
    }
    assert(cs@.take(cs.len() as int) =~= cs@);
    out
}

/// Whether an element message with this structure name carries RIST
/// statistics: its lower-case name mentions both `rist` and `stat`.
pub fn is_rist_stats_name(name: &str) -> (r: bool)
    ensures
        r == (seq_contains(ascii_lowercase(name@), "rist"@) && seq_contains(
            ascii_lowercase(name@),
            "stat"@,
        )),
{
    let l = to_ascii_lowercase(name);
    let rist = str_chars("rist");
    let stat = str_chars("stat");
    chars_contain(&l, &rist) && chars_contain(&l, &stat)
}

/// Which statistics a structure holds, by its lower-case name.
#[derive(Clone, Copy, Debug, PartialEq, Eq, Structural)]
pub enum StatsKind {
    Sender,
    Receiver,
    Other,
}

/// The kind of statistics of a structure name.
pub fn stats_kind(name: &str) -> (k: StatsKind)
    ensures
        ascii_lowercase(name@) == "rist/x-sender-stats"@ ==> k == StatsKind::Sender,
        ascii_lowercase(name@) == "rist/x-receiver-stats"@ ==> k == StatsKind::Receiver,
        ascii_lowercase(name@) != "rist/x-sender-stats"@ && ascii_lowercase(name@)
            != "rist/x-receiver-stats"@ ==> k == StatsKind::Other,
{
    let l = to_ascii_lowercase(name);
    let s = str_chars("rist/x-sender-stats");
    let r = str_chars("rist/x-receiver-stats");
    proof {
        reveal_strlit("rist/x-sender-stats");
        reveal_strlit("rist/x-receiver-stats");
        assert("rist/x-sender-stats"@[7] != "rist/x-receiver-stats"@[7]);
    }
    if chars_eq(&l, &s) {
        StatsKind::Sender
    } else if chars_eq(&l, &r) {
        StatsKind::Receiver
    } else {
        StatsKind::Other
    }
}

/// `label=value` when the value is present.
pub open spec fn count_part(label: Seq<char>, v: Option<u64>) -> Seq<Seq<char>> {
    match v {
        Some(n) => seq![label + "="@ + decimal(n as nat)],
        None => seq![],
    }
}

fn push_count(parts: &mut Vec<String>, label: &str, v: Option<u64>)
    ensures
        crate::network_sim::qdisc::string_views(final(parts)@) == crate::network_sim::qdisc::string_views(
            old(parts)@,
        ) + count_part(label@, v),
{
    let ghost before = crate::network_sim::qdisc::string_views(parts@);
    if let Some(n) = v {
        let mut s = lit(label);
        push_str(&mut s, "=");
        let d = u64_to_decimal(n);
        push_str(&mut s, d.as_str());
        let ghost b = parts@;
        parts.push(s);
        assert(crate::network_sim::qdisc::string_views(parts@) =~= crate::network_sim::qdisc::string_views(
            b,
        ).push(label@ + "="@ + decimal(n as nat)));
    }
    assert(crate::network_sim::qdisc::string_views(parts@) =~= before + count_part(label@, v));
}

/// The parts of a sender summary: original and retransmitted packets.
pub fn sender_parts(sent: Option<u64>, rtx: Option<u64>) -> (r: Vec<String>)
    ensures
        crate::network_sim::qdisc::string_views(r@) == count_part("sent"@, sent) + count_part(
            "rtx"@,
            rtx,
        ),
{
    let mut parts: Vec<String> = Vec::new();
    assert(crate::network_sim::qdisc::string_views(parts@) =~= Seq::<Seq<char>>::empty());
    push_count(&mut parts, "sent", sent);
    push_count(&mut parts, "rtx", rtx);
    parts
}

/// The parts of a receiver summary: received, dropped and duplicate
/// packets, retransmission requests, and the round trip as rendered text
/// (`rtt=<ms>ms`).
pub fn receiver_parts(
    received: Option<u64>,
    dropped: Option<u64>,
    duplicates: Option<u64>,
    rtx_requests: Option<u64>,
    rtt_ms: Option<&str>,
) -> (r: Vec<String>)
    ensures
        crate::network_sim::qdisc::string_views(r@) == count_part("rx"@, received) + count_part(
            "drop"@,
            dropped,
        ) + count_part("dup"@, duplicates) + count_part("rtx_req"@, rtx_requests) + match rtt_ms {
            Some(t) => seq!["rtt="@ + t@ + "ms"@],
            None => Seq::<Seq<char>>::empty(),
        },
{
    let mut parts: Vec<String> = Vec::new();
    assert(crate::network_sim::qdisc::string_views(parts@) =~= Seq::<Seq<char>>::empty());
    push_count(&mut parts, "rx", received);
    push_count(&mut parts, "drop", dropped);
    push_count(&mut parts, "dup", duplicates);
    push_count(&mut parts, "rtx_req", rtx_requests);
    let ghost before = crate::network_sim::qdisc::string_views(parts@);
    if let Some(t) = rtt_ms {
        let mut s = lit("rtt=");
        push_str(&mut s, t);
        push_str(&mut s, "ms");
        parts.push(s);
    }
    assert(crate::network_sim::qdisc::string_views(parts@) =~= before + match rtt_ms {
        Some(t) => seq!["rtt="@ + t@ + "ms"@],
        None => Seq::<Seq<char>>::empty(),
    });
    parts
}

/// The parts joined with `, `.
pub open spec fn joined(parts: Seq<Seq<char>>) -> Seq<char>
    decreases parts.len(),
{
    if parts.len() == 0 {
        Seq::empty()
    } else if parts.len() == 1 {
        parts[0]
    } else {
        joined(parts.drop_last()) + ", "@ + parts.last()
    }
}

/// Appends the parts joined with `, `.
fn push_joined(l: &mut String, parts: &Vec<String>)
    ensures
        final(l)@ == old(l)@ + joined(crate::network_sim::qdisc::string_views(parts@)),
{
    let ghost pv = crate::network_sim::qdisc::string_views(parts@);
    let ghost head = l@;
    let mut i: usize = 0;
    while i < parts.len()
        invariant
            i <= parts@.len(),
            pv == crate::network_sim::qdisc::string_views(parts@),
            l@ == head + joined(pv.take(i as int)),
        decreases parts.len() - i,
    {
        if i > 0 {
            push_str(l, ", ");
        }
        push_str(l, parts[i].as_str());
        proof {
            assert(pv.take(i as int + 1).drop_last() =~= pv.take(i as int));
            assert(pv.take(i as int + 1).last() == parts@[i as int]@);
            if i == 0 {
                assert(pv.take(1).len() == 1);
                assert(pv.take(0).len() == 0);
                assert(joined(pv.take(0)) =~= Seq::<char>::empty());
            }
        }
        i = i + 1;
    }
    assert(pv.take(parts@.len() as int) =~= pv);
    if parts.len() == 0 {
        assert(head + joined(pv) =~= head);
    }
}

/// The summary line of a statistics structure: `[<element>] <name>: <parts>`,
/// nothing when there are no parts.
pub fn stats_line(element: &str, name: &str, parts: &Vec<String>) -> (r: Option<String>)
    ensures
        parts@.len() == 0 ==> r is None,
        parts@.len() > 0 ==> (r matches Some(l) && l@ == "["@ + element@ + "] "@ + name@ + ": "@
            + joined(crate::network_sim::qdisc::string_views(parts@))),
{
    if parts.len() == 0 {
        return None;
    }
    let mut l = lit("[");
    push_str(&mut l, element);
    push_str(&mut l, "] ");
    push_str(&mut l, name);
    push_str(&mut l, ": ");
    push_joined(&mut l, parts);
    Some(l)
}

/// The line printed for a statistics message from a pipeline bus: the
/// element's name in brackets when the message has a source, then the
/// structure name, then `: ` and the parts when there are any.
pub fn bus_stats_line(element: Option<&str>, name: &str, parts: &Vec<String>) -> (r: String)
    ensures
        r@ == match element {
            Some(e) => "["@ + e@ + "] "@,
            None => Seq::<char>::empty(),
        } + name@ + if parts@.len() == 0 {
            Seq::<char>::empty()
        } else {
            ": "@ + joined(crate::network_sim::qdisc::string_views(parts@))
        },
{
    let mut l = String::new();
    let ghost prefix = match element {
        Some(e) => "["@ + e@ + "] "@,
        None => Seq::<char>::empty(),
    };
    match element {
        Some(e) => {
            push_str(&mut l, "[");
            push_str(&mut l, e);
            push_str(&mut l, "] ");
        },
        None => {},
    }
    assert(l@ =~= prefix);
    push_str(&mut l, name);
    if parts.len() > 0 {
        push_str(&mut l, ": ");
        push_joined(&mut l, parts);
        assert(l@ =~= prefix + name@ + (": "@ + joined(
            crate::network_sim::qdisc::string_views(parts@),
        )));
    } else {
        assert(l@ =~= prefix + name@ + Seq::<char>::empty());
    }
    l
}

/// `<label><number><unit>` when the number is present.
pub open spec fn signed_part(label: Seq<char>, v: Option<int>, unit: Seq<char>) -> Seq<Seq<char>> {
    match v {
        Some(n) => seq![label + signed_decimal(n) + unit],
        None => seq![],
    }
}

/// `<label><text><unit>` when the rendered value is present.
pub open spec fn text_part(label: Seq<char>, t: Option<Seq<char>>, unit: Seq<char>) -> Seq<
    Seq<char>,
> {
    match t {
        Some(x) => seq![label + x + unit],
        None => seq![],
    }
}

fn push_signed(parts: &mut Vec<String>, label: &str, v: Option<i64>, unit: &str)
    ensures
        crate::network_sim::qdisc::string_views(final(parts)@) == crate::network_sim::qdisc::string_views(
            old(parts)@,
        ) + signed_part(
            label@,
            match v {
                Some(n) => Some(n as int),
                None => None,
            },
            unit@,
        ),
{
    let ghost before = crate::network_sim::qdisc::string_views(parts@);
    if let Some(n) = v {
        let mut s = lit(label);
        let d = i64_to_decimal(n);
        push_str(&mut s, d.as_str());
        push_str(&mut s, unit);
        let ghost b = parts@;
        parts.push(s);
        assert(crate::network_sim::qdisc::string_views(parts@) =~= crate::network_sim::qdisc::string_views(
            b,
        ).push(label@ + signed_decimal(n as int) + unit@));
    }
    assert(crate::network_sim::qdisc::string_views(parts@) =~= before + signed_part(
        label@,
        match v {
            Some(n) => Some(n as int),
            None => None,
        },
        unit@,
    ));
}

fn push_text(parts: &mut Vec<String>, label: &str, t: Option<&str>, unit: &str)
    ensures
        crate::network_sim::qdisc::string_views(final(parts)@) == crate::network_sim::qdisc::string_views(
            old(parts)@,
        ) + text_part(
            label@,
            match t {
                Some(x) => Some(x@),
                None => None,
            },
            unit@,
        ),
{
    let ghost before = crate::network_sim::qdisc::string_views(parts@);
    if let Some(x) = t {
        let mut s = lit(label);
        push_str(&mut s, x);
        push_str(&mut s, unit);
        let ghost b = parts@;
        parts.push(s);
        assert(crate::network_sim::qdisc::string_views(parts@) =~= crate::network_sim::qdisc::string_views(
            b,
        ).push(label@ + x@ + unit@));
    }
    assert(crate::network_sim::qdisc::string_views(parts@) =~= before + text_part(
        label@,
        match t {
            Some(x) => Some(x@),
            None => None,
        },
        unit@,
    ));
}

/// The parts of a statistics structure of another kind, from the common
/// fields it may carry: the round trip and the loss as rendered numbers
/// (`rtt=<ms>ms`, `loss=<pct>%`), the incoming and outgoing rates
/// (`in=<n> kbps`, `out=<n> kbps`) and the number of sessions
/// (`sessions=<n>`), each when present.
pub fn other_parts(
    rtt_ms: Option<&str>,
    loss_pct: Option<&str>,
    in_rate_kbps: Option<i64>,
    out_rate_kbps: Option<i64>,
    session_count: Option<i32>,
) -> (r: Vec<String>)
    ensures
        crate::network_sim::qdisc::string_views(r@) == text_part(
            "rtt="@,
            match rtt_ms {
                Some(x) => Some(x@),
                None => None,
            },
            "ms"@,
        ) + text_part(
            "loss="@,
            match loss_pct {
                Some(x) => Some(x@),
                None => None,
            },
            "%"@,
        ) + signed_part(
            "in="@,
            match in_rate_kbps {
                Some(n) => Some(n as int),
                None => None,
            },
            " kbps"@,
        ) + signed_part(
            "out="@,
            match out_rate_kbps {
                Some(n) => Some(n as int),
                None => None,
            },
            " kbps"@,
        ) + signed_part(
            "sessions="@,
            match session_count {
                Some(n) => Some(n as int),
                None => None,
            },
            ""@,
        ),
{
    let mut parts: Vec<String> = Vec::new();
    assert(crate::network_sim::qdisc::string_views(parts@) =~= Seq::<Seq<char>>::empty());
    push_text(&mut parts, "rtt=", rtt_ms, "ms");
    push_text(&mut parts, "loss=", loss_pct, "%");
    push_signed(&mut parts, "in=", in_rate_kbps, " kbps");
    push_signed(&mut parts, "out=", out_rate_kbps, " kbps");
    let sessions: Option<i64> = match session_count {
        Some(n) => Some(n as i64),
        None => None,
    };
    push_signed(&mut parts, "sessions=", sessions, "");
    parts
}

/// The message when a pipeline reports an error: which side, the error and
/// its debug details.
pub fn pipeline_error_message(side: &str, error: &str, debug: &str) -> (r: String)
    ensures
        r@ == side@ + " error: "@ + error@ + " - "@ + debug@,
{
    let mut m = lit(side);
    push_str(&mut m, " error: ");
    push_str(&mut m, error);
    push_str(&mut m, " - ");
    push_str(&mut m, debug);
    m
}

/// The encoder bitrate line of a `dynbitrate/current-bitrate` structure
/// (name compared in lower case), with the element name when known;
/// nothing for other structures.
pub fn dynbitrate_line(element: Option<&str>, name: &str, bitrate_kbps: u32) -> (r: Option<String>)
    ensures
        ascii_lowercase(name@) != "dynbitrate/current-bitrate"@ ==> r is None,
        ascii_lowercase(name@) == "dynbitrate/current-bitrate"@ ==> (r matches Some(l) && l@
            == match element {
            Some(e) => "["@ + e@ + "] "@,
            None => Seq::<char>::empty(),
        } + "Current encoder bitrate: "@ + decimal(bitrate_kbps as nat) + " kbps"@),
{
    let l = to_ascii_lowercase(name);
    let target = str_chars("dynbitrate/current-bitrate");
    if !chars_eq(&l, &target) {
        return None;
    }
    let mut out = String::new();
    if let Some(e) = element {
        push_str(&mut out, "[");
        push_str(&mut out, e);
        push_str(&mut out, "] ");
    }
    let ghost head = out@;
    assert(head == match element {
        Some(e) => "["@ + e@ + "] "@,
        None => Seq::<char>::empty(),
    });
    push_str(&mut out, "Current encoder bitrate: ");
    let d = u64_to_decimal(bitrate_kbps as u64);
    push_str(&mut out, d.as_str());
    push_str(&mut out, " kbps");
    Some(out)
}

} // verus!
