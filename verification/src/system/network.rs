//! Network statistics: traffic counters and the kernel's TCP connection
//! tables (`/proc/net/tcp`, `/proc/net/tcp6`).

use vstd::prelude::*;
use vstd::utf8::encode_utf8;

use crate::number::{decimal, hex2, hex_digit_to_char, parse_unsigned, parse_unsigned_radix, push_decimal};
use crate::text::{
    chars_of, lines, push_str, split_lines, split_on, split_sep, split_whitespace, starts_with,
    string_of, tokens, views,
};

verus! {

// ── Traffic counters ────────────────────────────────────────────────────────

/// The sums of the received and transmitted counters of all interfaces.
pub open spec fn traffic_sum(pairs: Seq<(u64, u64)>) -> (nat, nat)
    decreases pairs.len(),
{
    if pairs.len() == 0 {
        (0, 0)
    } else {
        let (r, t) = traffic_sum(pairs.drop_last());
        (r + pairs.last().0 as nat, t + pairs.last().1 as nat)
    }
}

proof fn lemma_traffic_sum_prefix(pairs: Seq<(u64, u64)>, i: int)
    requires
        0 <= i <= pairs.len(),
    ensures
        traffic_sum(pairs.take(i)).0 <= traffic_sum(pairs).0,
        traffic_sum(pairs.take(i)).1 <= traffic_sum(pairs).1,
    decreases pairs.len() - i,
{
    if i < pairs.len() {
        lemma_traffic_sum_prefix(pairs.drop_last(), i);
        assert(pairs.drop_last().take(i) =~= pairs.take(i));
    } else {
        assert(pairs.take(i) =~= pairs);
    }
}

/// Adds up the (received, transmitted) byte counters of all interfaces and
/// advances the previous totals: returns the totals and how much each grew
/// since the previous call (zero when a counter went back). The totals must
/// fit in 64 bits.
pub fn aggregate_traffic(pairs: &[(u64, u64)], prev_rx: &mut u64, prev_tx: &mut u64) -> (r: (
    u64,
    u64,
    u64,
    u64,
))
    requires
        traffic_sum(pairs@).0 <= u64::MAX,
        traffic_sum(pairs@).1 <= u64::MAX,
    ensures
        r.0 == traffic_sum(pairs@).0,
        r.1 == traffic_sum(pairs@).1,
        r.2 == if r.0 >= *old(prev_rx) {
            r.0 - *old(prev_rx)
        } else {
            0
        },
        r.3 == if r.1 >= *old(prev_tx) {
            r.1 - *old(prev_tx)
        } else {
            0
        },
        *final(prev_rx) == r.0,
        *final(prev_tx) == r.1,
{
    let mut rx: u64 = 0;
    let mut tx: u64 = 0;
    let mut i: usize = 0;
    while i < pairs.len()
        invariant
            i <= pairs@.len(),
            traffic_sum(pairs@).0 <= u64::MAX,
            traffic_sum(pairs@).1 <= u64::MAX,
            (rx as nat, tx as nat) == traffic_sum(pairs@.take(i as int)),
        decreases pairs@.len() - i,
    {
        assert(pairs@.take(i as int + 1).drop_last() =~= pairs@.take(i as int));
        proof {
            lemma_traffic_sum_prefix(pairs@, i as int + 1);
        }
        rx = rx + pairs[i].0;
        tx = tx + pairs[i].1;
        i += 1;
    }
    assert(pairs@.take(pairs@.len() as int) =~= pairs@);
    let rx_delta = rx.saturating_sub(*prev_rx);
    let tx_delta = tx.saturating_sub(*prev_tx);
    *prev_rx = rx;
    *prev_tx = tx;
    (rx, tx, rx_delta, tx_delta)
}


// ── Per-interface counters ──────────────────────────────────────────────────

/// The previous (received, transmitted) counters of each network interface,
/// by interface name.
pub struct InterfaceCounters {
    entries: Vec<(String, u64, u64)>,
}

/// The counters that a list of entries records: later entries for a name
/// replace earlier ones.
pub open spec fn counters_map(es: Seq<(String, u64, u64)>) -> Map<Seq<char>, (u64, u64)>
    decreases es.len(),
{
    if es.len() == 0 {
        Map::empty()
    } else {
        counters_map(es.drop_last()).insert(es.last().0@, (es.last().1, es.last().2))
    }
}

/// The growth of a counter since its previous value (0 when there is none),
/// or 0 when it went back.
pub open spec fn counter_growth(now: u64, prev: u64) -> u64 {
    if now >= prev {
        (now - prev) as u64
    } else {
        0
    }
}

/// The previous counters of `name` in `m`, (0, 0) when it has none.
pub open spec fn previous_counters(m: Map<Seq<char>, (u64, u64)>, name: Seq<char>) -> (u64, u64) {
    if m.dom().contains(name) {
        m[name]
    } else {
        (0, 0)
    }
}

proof fn lemma_counters_last(es: Seq<(String, u64, u64)>, k: Seq<char>, i: int)
    requires
        0 <= i < es.len(),
        es[i].0@ == k,
        forall|j: int| i < j < es.len() ==> (#[trigger] es[j]).0@ != k,
    ensures
        counters_map(es).dom().contains(k),
        counters_map(es)[k] == (es[i].1, es[i].2),
    decreases es.len(),
{
    if i < es.len() - 1 {
        lemma_counters_last(es.drop_last(), k, i);
    }
}

proof fn lemma_counters_absent(es: Seq<(String, u64, u64)>, k: Seq<char>)
    requires
        forall|j: int| 0 <= j < es.len() ==> (#[trigger] es[j]).0@ != k,
    ensures
        !counters_map(es).dom().contains(k),
    decreases es.len(),
{
    if es.len() > 0 {
        lemma_counters_absent(es.drop_last(), k);
    }
}

proof fn lemma_counters_update(es: Seq<(String, u64, u64)>, i: int, e: (String, u64, u64))
    requires
        0 <= i < es.len(),
        es[i].0@ == e.0@,
        forall|j: int| i < j < es.len() ==> (#[trigger] es[j]).0@ != e.0@,
    ensures
        counters_map(es.update(i, e)) == counters_map(es).insert(e.0@, (e.1, e.2)),
    decreases es.len(),
{
    let u = es.update(i, e);
    if i == es.len() - 1 {
        assert(u.drop_last() =~= es.drop_last());
        assert(counters_map(u) =~= counters_map(es).insert(e.0@, (e.1, e.2)));
    } else {
        assert(u.drop_last() =~= es.drop_last().update(i, e));
        lemma_counters_update(es.drop_last(), i, e);
        assert(counters_map(u) =~= counters_map(es).insert(e.0@, (e.1, e.2)));
    }
}

impl InterfaceCounters {
    /// The counters of each interface, by name.
    pub closed spec fn counters(&self) -> Map<Seq<char>, (u64, u64)> {
        counters_map(self.entries@)
    }

    /// No counters yet.
    pub fn new() -> (r: Self)
        ensures
            r.counters() == Map::<Seq<char>, (u64, u64)>::empty(),
    {
        InterfaceCounters { entries: Vec::new() }
    }

    fn find(&self, name: &[char]) -> (r: Option<usize>)
        ensures
            match r {
                Some(i) => i < self.entries@.len() && self.entries@[i as int].0@ == name@
                    && forall|j: int|
                    i < j < self.entries@.len() ==> (#[trigger] self.entries@[j]).0@ != name@,
                None => forall|j: int|
                    0 <= j < self.entries@.len() ==> (#[trigger] self.entries@[j]).0@ != name@,
            },
    {
        let mut i: usize = self.entries.len();
        while i > 0
            invariant
                i <= self.entries@.len(),
                forall|j: int| i <= j < self.entries@.len() ==> (#[trigger] self.entries@[j]).0@
                    != name@,
            decreases i,
        {
            let ec = chars_of(self.entries[i - 1].0.as_str());
            if crate::text::chars_eq(ec.as_slice(), name) {
                return Some(i - 1);
            }
            i -= 1;
        }
        None
    }

    /// The previous counters of interface `name`, if it has any.
    pub fn get(&self, name: &str) -> (r: Option<(u64, u64)>)
        ensures
            match r {
                Some(c) => self.counters().dom().contains(name@) && self.counters()[name@] == c,
                None => !self.counters().dom().contains(name@),
            },
    {
        let nc = chars_of(name);
        match self.find(nc.as_slice()) {
            Some(i) => {
                proof {
                    lemma_counters_last(self.entries@, name@, i as int);
                }
                Some((self.entries[i].1, self.entries[i].2))
            },
            None => {
                proof {
                    lemma_counters_absent(self.entries@, name@);
                }
                None
            },
        }
    }

    /// Records the current counters of interface `name` and returns how
    /// much each grew since the previous record (from 0 when there was
    /// none; 0 when a counter went back).
    pub fn record(&mut self, name: &str, rx: u64, tx: u64) -> (r: (u64, u64))
        ensures
            final(self).counters() == old(self).counters().insert(name@, (rx, tx)),
            r.0 == counter_growth(rx, previous_counters(old(self).counters(), name@).0),
            r.1 == counter_growth(tx, previous_counters(old(self).counters(), name@).1),
    {
        let nc = chars_of(name);
        match self.find(nc.as_slice()) {
            Some(i) => {
                proof {
                    lemma_counters_last(self.entries@, name@, i as int);
                }
                let prev_rx = self.entries[i].1;
                let prev_tx = self.entries[i].2;
                let e = (name.to_owned(), rx, tx);
                proof {
                    lemma_counters_update(self.entries@, i as int, e);
                }
                self.entries.set(i, e);
                (rx.saturating_sub(prev_rx), tx.saturating_sub(prev_tx))
            },
            None => {
                proof {
                    lemma_counters_absent(self.entries@, name@);
                }
                let ghost before = self.entries@;
                self.entries.push((name.to_owned(), rx, tx));
                assert(self.entries@.drop_last() =~= before);
                (rx, tx)
            },
        }
    }
}

/// Recording an interface's counters twice: the second record reports the
/// growth between the two, and the counters read back are the last ones
/// recorded.
pub proof fn record_twice(
    m: Map<Seq<char>, (u64, u64)>,
    name: Seq<char>,
    first: (u64, u64),
    second: (u64, u64),
)
    ensures
        previous_counters(m.insert(name, first), name) == first,
        counter_growth(second.0, previous_counters(m.insert(name, first), name).0) == counter_growth(
            second.0,
            first.0,
        ),
        m.insert(name, first).insert(name, second)[name] == second,
{
}

// ── TCP connection tables ───────────────────────────────────────────────────

/// A single active TCP connection (from /proc/net/tcp).
#[derive(Clone, Debug)]
pub struct TcpConnection {
    pub local_addr: String,
    pub local_port: u16,
    pub remote_addr: String,
    pub remote_port: u16,
    pub state: String,
    pub uid: u32,
}

/// A TCP connection as plain values.
pub struct TcpRecord {
    pub local_addr: Seq<char>,
    pub local_port: nat,
    pub remote_addr: Seq<char>,
    pub remote_port: nat,
    pub state: Seq<char>,
    pub uid: nat,
}

impl View for TcpConnection {
    type V = TcpRecord;

    open spec fn view(&self) -> TcpRecord {
        TcpRecord {
            local_addr: self.local_addr@,
            local_port: self.local_port as nat,
            remote_addr: self.remote_addr@,
            remote_port: self.remote_port as nat,
            state: self.state@,
            uid: self.uid as nat,
        }
    }
}

/// A hexadecimal number of at most `max`, or zero when `s` is not one.
pub open spec fn hex_or_zero(s: Seq<char>, max: nat) -> nat {
    match parse_unsigned(s, 16, max) {
        Some(v) => v,
        None => 0,
    }
}

/// A decimal number of at most `max`, or zero when `s` is not one.
pub open spec fn dec_or_zero(s: Seq<char>, max: nat) -> nat {
    match parse_unsigned(s, 10, max) {
        Some(v) => v,
        None => 0,
    }
}

/// The dotted IPv4 address of a 32-bit value stored lowest byte first, as
/// the kernel tables hold it.
pub open spec fn dotted_quad(a: nat) -> Seq<char> {
    decimal(a % 256) + seq!['.'] + decimal((a / 256) % 256) + seq!['.'] + decimal(
        (a / 65536) % 256,
    ) + seq!['.'] + decimal((a / 16777216) % 256)
}

/// An IPv4 `ADDR:PORT` field of the table, both in hexadecimal: the dotted
/// address and the port. Unreadable numbers count as zero; a field that
/// does not have exactly two parts is rejected.
pub open spec fn addr_port(s: Seq<char>) -> Option<(Seq<char>, nat)> {
    let parts = split_sep(s, ':');
    if parts.len() != 2 {
        None
    } else {
        Some((dotted_quad(hex_or_zero(parts[0], 0xffff_ffff)), hex_or_zero(parts[1], 0xffff)))
    }
}

/// The prefix of an IPv4 address mapped into IPv6, as the table spells it.
pub open spec fn v4_mapped_prefix() -> Seq<char> {
    "0000000000000000FFFF0000"@
}

/// An IPv6 `ADDR:PORT` field: an IPv4-mapped address is shown dotted, any
/// other address as `[::]`.
pub open spec fn addr6_port(s: Seq<char>) -> Option<(Seq<char>, nat)> {
    let parts = split_sep(s, ':');
    if parts.len() != 2 {
        None
    } else {
        let port = hex_or_zero(parts[1], 0xffff);
        let hex = parts[0];
        if encode_utf8(hex).len() == 32 && hex.len() >= 24 && hex.take(24) == v4_mapped_prefix()
            && parse_unsigned(hex.skip(24), 16, 0xffff_ffff) is Some {
            Some((dotted_quad(parse_unsigned(hex.skip(24), 16, 0xffff_ffff).unwrap()), port))
        } else {
            Some(("[::]"@, port))
        }
    }
}

/// The name of a TCP state code, or the code in hexadecimal.
pub open spec fn tcp_state_text(code: nat) -> Seq<char> {
    if code == 1 {
        "ESTABLISHED"@
    } else if code == 2 {
        "SYN_SENT"@
    } else if code == 3 {
        "SYN_RECV"@
    } else if code == 4 {
        "FIN_WAIT1"@
    } else if code == 5 {
        "FIN_WAIT2"@
    } else if code == 6 {
        "TIME_WAIT"@
    } else if code == 7 {
        "CLOSE"@
    } else if code == 8 {
        "CLOSE_WAIT"@
    } else if code == 9 {
        "LAST_ACK"@
    } else if code == 10 {
        "LISTEN"@
    } else if code == 11 {
        "CLOSING"@
    } else {
        "0x"@ + hex2(code)
    }
}

/// The kernel's TCP state numbering (`include/net/tcp_states.h`): each
/// state code from 1 to 11 is named by its fixed state name, and any
/// other code by "0x" and its two hexadecimal digits.
pub proof fn tcp_states_follow_kernel(code: nat)
    ensures
        tcp_state_text(1) == "ESTABLISHED"@,
        tcp_state_text(2) == "SYN_SENT"@,
        tcp_state_text(3) == "SYN_RECV"@,
        tcp_state_text(4) == "FIN_WAIT1"@,
        tcp_state_text(5) == "FIN_WAIT2"@,
        tcp_state_text(6) == "TIME_WAIT"@,
        tcp_state_text(7) == "CLOSE"@,
        tcp_state_text(8) == "CLOSE_WAIT"@,
        tcp_state_text(9) == "LAST_ACK"@,
        tcp_state_text(10) == "LISTEN"@,
        tcp_state_text(11) == "CLOSING"@,
        code == 0 || code > 11 ==> tcp_state_text(code) == "0x"@ + hex2(code),
{
}

/// The connection a table line describes: at least ten fields, the local
/// and remote addresses in fields 1 and 2, the state in field 3 and the
/// owner's uid in field 7.
pub open spec fn tcp_line(line: Seq<char>, v6: bool) -> Option<TcpRecord> {
    let fields = tokens(line);
    if fields.len() < 10 {
        None
    } else {
        let local = if v6 {
            addr6_port(fields[1])
        } else {
            addr_port(fields[1])
        };
        let remote = if v6 {
            addr6_port(fields[2])
        } else {
            addr_port(fields[2])
        };
        match (local, remote) {
            (Some(l), Some(r)) => Some(
                TcpRecord {
                    local_addr: l.0,
                    local_port: l.1,
                    remote_addr: r.0,
                    remote_port: r.1,
                    state: tcp_state_text(hex_or_zero(fields[3], 0xff)),
                    uid: dec_or_zero(fields[7], 0xffff_ffff),
                },
            ),
            _ => None,
        }
    }
}

/// The connections of table lines, lines that describe none left out.
pub open spec fn tcp_records(ls: Seq<Seq<char>>, v6: bool) -> Seq<TcpRecord>
    decreases ls.len(),
{
    if ls.len() == 0 {
        seq![]
    } else {
        let rest = tcp_records(ls.drop_last(), v6);
        match tcp_line(ls.last(), v6) {
            Some(c) => rest.push(c),
            None => rest,
        }
    }
}

/// The connections of a whole table: every line after the header.
pub open spec fn tcp_table(contents: Seq<char>, v6: bool) -> Seq<TcpRecord> {
    let ls = lines(contents);
    if ls.len() == 0 {
        seq![]
    } else {
        tcp_records(ls.drop_first(), v6)
    }
}

/// The views of a vector of connections.
pub open spec fn records(v: Seq<TcpConnection>) -> Seq<TcpRecord> {
    v.map_values(|c: TcpConnection| c@)
}

/// Parses a hexadecimal number of at most `max`, or gives zero.
fn hex_value(s: &[char], max: u64) -> (r: u64)
    ensures
        r == hex_or_zero(s@, max as nat),
{
    match parse_unsigned_radix(s, 16, max) {
        Some(v) => v,
        None => 0,
    }
}

/// Appends the dotted form of `a`.
fn push_dotted_quad(out: &mut String, a: u32)
    ensures
        final(out)@ == old(out)@ + dotted_quad(a as nat),
{
    push_decimal(out, (a % 256) as u64);
    out.push('.');
    push_decimal(out, ((a / 256) % 256) as u64);
    out.push('.');
    push_decimal(out, ((a / 65536) % 256) as u64);
    out.push('.');
    push_decimal(out, ((a / 16777216) % 256) as u64);
    assert(final(out)@ =~= old(out)@ + dotted_quad(a as nat));
}

/// Parse an IPv4 `ADDR:PORT` field such as "0100007F:1F90" into
/// ("127.0.0.1", 8080).
pub fn parse_addr_port(s: &str) -> (r: Option<(String, u16)>)
    ensures
        match r {
            Some((a, p)) => addr_port(s@) == Some((a@, p as nat)),
            None => addr_port(s@) is None,
        },
{
    let cs = chars_of(s);
    parse_addr_port_chars(cs.as_slice())
}

fn parse_addr_port_chars(s: &[char]) -> (r: Option<(String, u16)>)
    ensures
        match r {
            Some((a, p)) => addr_port(s@) == Some((a@, p as nat)),
            None => addr_port(s@) is None,
        },
{
    let parts = split_on(s, ':');
    if parts.len() != 2 {
        return None;
    }
    proof {
        assert(views(parts@)[0] == parts@[0]@);
        assert(views(parts@)[1] == parts@[1]@);
    }
    let addr = hex_value(parts[0].as_slice(), 0xffff_ffff);
    let port = hex_value(parts[1].as_slice(), 0xffff);
    let mut text = String::new();
    push_dotted_quad(&mut text, addr as u32);
    assert(text@ =~= dotted_quad(addr as nat));
    Some((text, port as u16))
}

/// Parse an IPv6 `ADDR:PORT` field: IPv4-mapped addresses come out dotted,
/// others as "[::]".
pub fn parse_addr6_port(s: &str) -> (r: Option<(String, u16)>)
    ensures
        match r {
            Some((a, p)) => addr6_port(s@) == Some((a@, p as nat)),
            None => addr6_port(s@) is None,
        },
{
    let cs = chars_of(s);
    parse_addr6_port_chars(cs.as_slice())
}

fn parse_addr6_port_chars(s: &[char]) -> (r: Option<(String, u16)>)
    ensures
        match r {
            Some((a, p)) => addr6_port(s@) == Some((a@, p as nat)),
            None => addr6_port(s@) is None,
        },
{
    let parts = split_on(s, ':');
    if parts.len() != 2 {
        return None;
    }
    proof {
        assert(views(parts@)[0] == parts@[0]@);
        assert(views(parts@)[1] == parts@[1]@);
    }
    let port = hex_value(parts[1].as_slice(), 0xffff) as u16;
    let hex = parts[0].as_slice();
    let hex_text = string_of(hex);
    let prefix = chars_of("0000000000000000FFFF0000");
    proof {
        reveal_strlit("0000000000000000FFFF0000");
    }
    assert(prefix@.len() == 24);
    if hex_text.as_str().as_bytes().len() == 32 && starts_with(hex, prefix.as_slice()) {
        let tail = hex.split_at(24).1;
        assert(tail@ =~= hex@.skip(24));
        match parse_unsigned_radix(tail, 16, 0xffff_ffff) {
            Some(a) => {
                let mut text = String::new();
                push_dotted_quad(&mut text, a as u32);
                assert(text@ =~= dotted_quad(a as nat));
                return Some((text, port));
            },
            None => {},
        }
    }
    Some(("[::]".to_owned(), port))
}

/// The name of a TCP state code, or "0x" and the code in two hexadecimal
/// digits.
pub fn tcp_state_name(code: u8) -> (r: String)
    ensures
        r@ == tcp_state_text(code as nat),
{
    if code == 0x01 {
        "ESTABLISHED".to_owned()
    } else if code == 0x02 {
        "SYN_SENT".to_owned()
    } else if code == 0x03 {
        "SYN_RECV".to_owned()
    } else if code == 0x04 {
        "FIN_WAIT1".to_owned()
    } else if code == 0x05 {
        "FIN_WAIT2".to_owned()
    } else if code == 0x06 {
        "TIME_WAIT".to_owned()
    } else if code == 0x07 {
        "CLOSE".to_owned()
    } else if code == 0x08 {
        "CLOSE_WAIT".to_owned()
    } else if code == 0x09 {
        "LAST_ACK".to_owned()
    } else if code == 0x0A {
        "LISTEN".to_owned()
    } else if code == 0x0B {
        "CLOSING".to_owned()
    } else {
        let mut out = String::new();
        push_str(&mut out, "0x");
        out.push(hex_digit_to_char(code / 16));
        out.push(hex_digit_to_char(code % 16));
        assert(out@ =~= "0x"@ + hex2(code as nat));
        out
    }
}

fn parse_line_chars(line: &[char], v6: bool) -> (r: Option<TcpConnection>)
    ensures
        match r {
            Some(c) => tcp_line(line@, v6) == Some(c@),
            None => tcp_line(line@, v6) is None,
        },
{
    let fields = split_whitespace(line);
    if fields.len() < 10 {
        return None;
    }
    proof {
        assert(views(fields@)[1] == fields@[1]@);
        assert(views(fields@)[2] == fields@[2]@);
        assert(views(fields@)[3] == fields@[3]@);
        assert(views(fields@)[7] == fields@[7]@);
    }
    let local = if v6 {
        parse_addr6_port_chars(fields[1].as_slice())
    } else {
        parse_addr_port_chars(fields[1].as_slice())
    };
    let local = match local {
        Some(l) => l,
        None => {
            return None;
        },
    };
    let remote = if v6 {
        parse_addr6_port_chars(fields[2].as_slice())
    } else {
        parse_addr_port_chars(fields[2].as_slice())
    };
    let remote = match remote {
        Some(r) => r,
        None => {
            return None;
        },
    };
    let state_code = hex_value(fields[3].as_slice(), 0xff) as u8;
    let uid: u32 = match crate::number::parse_u32(fields[7].as_slice()) {
        Some(v) => v,
        None => 0,
    };
    let c = TcpConnection {
        local_addr: local.0,
        local_port: local.1,
        remote_addr: remote.0,
        remote_port: remote.1,
        state: tcp_state_name(state_code),
        uid,
    };
    Some(c)
}

/// Parses one line of `/proc/net/tcp`.
pub fn parse_tcp_line(line: &str) -> (r: Option<TcpConnection>)
    ensures
        match r {
            Some(c) => tcp_line(line@, false) == Some(c@),
            None => tcp_line(line@, false) is None,
        },
{
    let cs = chars_of(line);
    parse_line_chars(cs.as_slice(), false)
}

/// Parses one line of `/proc/net/tcp6`.
pub fn parse_tcp6_line(line: &str) -> (r: Option<TcpConnection>)
    ensures
        match r {
            Some(c) => tcp_line(line@, true) == Some(c@),
            None => tcp_line(line@, true) is None,
        },
{
    let cs = chars_of(line);
    parse_line_chars(cs.as_slice(), true)
}

/// The connections listed in the contents of a TCP table (`v6` for the
/// IPv6 table): every line after the header that describes one.
pub fn parse_tcp_table(contents: &str, v6: bool) -> (r: Vec<TcpConnection>)
    ensures
        records(r@) == tcp_table(contents@, v6),
{
    let cs = chars_of(contents);
    let ls = split_lines(cs.as_slice());
    let mut out: Vec<TcpConnection> = Vec::new();
    if ls.len() == 0 {
        assert(records(out@) =~= Seq::<TcpRecord>::empty());
        return out;
    }
    let ghost body = views(ls@).drop_first();
    let mut i: usize = 1;
    while i < ls.len()
        invariant
            1 <= i <= ls@.len(),
            body == views(ls@).drop_first(),
            records(out@) == tcp_records(body.take(i - 1), v6),
        decreases ls@.len() - i,
    {
        assert(body.take(i as int).drop_last() =~= body.take(i - 1));
        assert(body.take(i as int).last() == ls@[i as int]@);
        let ghost before = out@;
        match parse_line_chars(ls[i].as_slice(), v6) {
            Some(c) => {
                out.push(c);
                assert(records(out@) =~= records(before).push(c@));
            },
            None => {},
        }
        i += 1;
    }
    assert(body.take(ls@.len() - 1) =~= body);
    out
}

} // verus!
