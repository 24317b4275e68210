//! Network metrics: per-interface throughput from cumulative byte and
//! packet counters, TCP connection counts, and the retransmit delta.

use vstd::prelude::*;
use crate::bytes::{ascii_bytes, has_prefix, lines_of, split_by, split_byte, split_lines, split_ws, starts_with, str_bytes, ws_tokens, lemma_split_by_len};
use crate::cpu::tok_u64;
use crate::numfmt::parse_u64_spec;
use crate::rates::{add_sat_spec, rate_centi, rate_centi_spec};
use crate::statemap::{lookup_seq, name_entries, upsert_name, upsert_seq, lemma_upsert_projects, lemma_lookup_projects};
use crate::{counter_delta, delta_u64};

verus! {

/// Raw cumulative counters for one interface.
#[derive(Clone, Copy, Debug, PartialEq, Eq, Structural)]
pub struct RawInterfaceStats {
    pub rx_bytes: u64,
    pub rx_packets: u64,
    pub rx_errors: u64,
    pub rx_drops: u64,
    pub tx_bytes: u64,
    pub tx_packets: u64,
    pub tx_errors: u64,
    pub tx_drops: u64,
}

/// Per-interface metrics for one sampling interval.
#[derive(Clone, Debug)]
pub struct InterfaceStats {
    /// Interface name.
    pub interface: Vec<u8>,
    /// Receive throughput, hundredths of a byte per second.
    pub rx_bytes_per_sec: u64,
    /// Transmit throughput, hundredths of a byte per second.
    pub tx_bytes_per_sec: u64,
    /// Receive packet rate, hundredths per second.
    pub rx_packets_per_sec: u64,
    /// Transmit packet rate, hundredths per second.
    pub tx_packets_per_sec: u64,
    /// Cumulative receive errors.
    pub rx_errors: u64,
    /// Cumulative transmit errors.
    pub tx_errors: u64,
    /// Cumulative receive drops.
    pub rx_drops: u64,
    /// Cumulative transmit drops.
    pub tx_drops: u64,
    /// Cumulative bytes received.
    pub rx_bytes_total: u64,
    /// Cumulative bytes transmitted.
    pub tx_bytes_total: u64,
}

/// TCP-level statistics for one sampling interval.
#[derive(Clone, Copy, Debug, PartialEq, Eq, Structural)]
pub struct TcpStats {
    /// Established connections right now.
    pub connections_established: u64,
    /// Cumulative segments retransmitted.
    pub retransmits: u64,
    /// Retransmits in this interval; absent before a second sample.
    pub retransmits_delta: Option<u64>,
    /// Established connections whose remote port is 443.
    pub https_connections: u64,
}

/// Aggregated network metrics for one sampling interval.
#[derive(Clone, Debug)]
pub struct NetworkMetrics {
    /// Per-interface metrics, in the order the kernel listed them.
    pub interfaces: Vec<InterfaceStats>,
    /// Total receive throughput, hundredths of a byte per second.
    pub total_rx_bytes_per_sec: u64,
    /// Total transmit throughput, hundredths of a byte per second.
    pub total_tx_bytes_per_sec: u64,
    /// TCP statistics.
    pub tcp: TcpStats,
}

/// The interface name of a device-table token: trailing colons stripped.
pub open spec fn strip_colons(s: Seq<u8>) -> Seq<u8>
    decreases s.len(),
{
    if s.len() > 0 && s.last() == 58 {
        strip_colons(s.drop_last())
    } else {
        s
    }
}

/// Strips trailing colons from an interface token.
pub fn strip_colons_exec(s: &Vec<u8>) -> (r: Vec<u8>)
    ensures
        r@ == strip_colons(s@),
{
    let mut r = s.clone();
    while r.len() > 0 && r[r.len() - 1] == 58
        invariant
            strip_colons(r@) == strip_colons(s@),
        decreases r@.len(),
    {
        r.pop();
    }
    r
}

/// What one device-table line contributes: the interface name and its
/// counters, or nothing for a short line or the loopback interface.
pub open spec fn net_line_spec(l: Seq<u8>) -> Option<(Seq<u8>, RawInterfaceStats)> {
    if ws_tokens(l).len() >= 17 && strip_colons(ws_tokens(l)[0]) != ascii_bytes("lo"@) {
        Some(
            (
                strip_colons(ws_tokens(l)[0]),
                RawInterfaceStats {
                    rx_bytes: tok_u64(l, 1),
                    rx_packets: tok_u64(l, 2),
                    rx_errors: tok_u64(l, 3),
                    rx_drops: tok_u64(l, 4),
                    tx_bytes: tok_u64(l, 9),
                    tx_packets: tok_u64(l, 10),
                    tx_errors: tok_u64(l, 11),
                    tx_drops: tok_u64(l, 12),
                },
            ),
        )
    } else {
        None
    }
}

/// The kept interface entries of a device-table read: every line after the
/// two header lines, in file order.
pub open spec fn net_rows_rec(ls: Seq<Seq<u8>>) -> Seq<(Seq<u8>, RawInterfaceStats)>
    decreases ls.len(),
{
    if ls.len() == 0 {
        Seq::empty()
    } else {
        match net_line_spec(ls.last()) {
            Some(e) => net_rows_rec(ls.drop_last()).push(e),
            None => net_rows_rec(ls.drop_last()),
        }
    }
}

pub open spec fn net_rows_of(ls: Seq<Seq<u8>>) -> Seq<(Seq<u8>, RawInterfaceStats)> {
    if ls.len() <= 2 {
        Seq::empty()
    } else {
        net_rows_rec(ls.skip(2))
    }
}

/// The prior-state image after a read.
pub open spec fn net_state_of(rows: Seq<(Seq<u8>, RawInterfaceStats)>) -> Seq<
    (Seq<u8>, RawInterfaceStats),
>
    decreases rows.len(),
{
    if rows.len() == 0 {
        Seq::empty()
    } else {
        upsert_seq(net_state_of(rows.drop_last()), rows.last().0, rows.last().1)
    }
}

/// The metrics entry for one interface is correct against the prior state.
pub open spec fn net_entry_ok(
    prev: Seq<(Seq<u8>, RawInterfaceStats)>,
    elapsed_ms: u64,
    name: Seq<u8>,
    cur: RawInterfaceStats,
    e: InterfaceStats,
) -> bool {
    &&& e.interface@ == name
    &&& (match lookup_seq(prev, name) {
        Some(p) => {
            &&& e.rx_bytes_per_sec == rate_centi_spec(counter_delta(cur.rx_bytes, p.rx_bytes), elapsed_ms)
            &&& e.tx_bytes_per_sec == rate_centi_spec(counter_delta(cur.tx_bytes, p.tx_bytes), elapsed_ms)
            &&& e.rx_packets_per_sec == rate_centi_spec(
                counter_delta(cur.rx_packets, p.rx_packets),
                elapsed_ms,
            )
            &&& e.tx_packets_per_sec == rate_centi_spec(
                counter_delta(cur.tx_packets, p.tx_packets),
                elapsed_ms,
            )
        },
        None => {
            &&& e.rx_bytes_per_sec == 0
            &&& e.tx_bytes_per_sec == 0
            &&& e.rx_packets_per_sec == 0
            &&& e.tx_packets_per_sec == 0
        },
    })
    &&& e.rx_errors == cur.rx_errors
    &&& e.tx_errors == cur.tx_errors
    &&& e.rx_drops == cur.rx_drops
    &&& e.tx_drops == cur.tx_drops
    &&& e.rx_bytes_total == cur.rx_bytes
    &&& e.tx_bytes_total == cur.tx_bytes
}

/// The saturating totals of the per-interface entries.
pub open spec fn ifaces_total_rx(es: Seq<InterfaceStats>) -> u64
    decreases es.len(),
{
    if es.len() == 0 {
        0u64
    } else {
        add_sat_spec(ifaces_total_rx(es.drop_last()), es.last().rx_bytes_per_sec)
    }
}

pub open spec fn ifaces_total_tx(es: Seq<InterfaceStats>) -> u64
    decreases es.len(),
{
    if es.len() == 0 {
        0u64
    } else {
        add_sat_spec(ifaces_total_tx(es.drop_last()), es.last().tx_bytes_per_sec)
    }
}

/// Hexadecimal digits, upper or lower case.
pub open spec fn is_hex_digit(b: u8) -> bool {
    (48 <= b <= 57) || (97 <= b <= 102) || (65 <= b <= 70)
}

pub open spec fn hex_digit_val(b: u8) -> int {
    if 48 <= b <= 57 {
        b - 48
    } else if 97 <= b <= 102 {
        b - 87
    } else {
        b - 55
    }
}

pub open spec fn all_hex(s: Seq<u8>) -> bool {
    forall|i: int| 0 <= i < s.len() ==> is_hex_digit(s[i])
}

pub open spec fn hex_val(s: Seq<u8>) -> int
    decreases s.len(),
{
    if s.len() == 0 {
        0
    } else {
        hex_val(s.drop_last()) * 16 + hex_digit_val(s.last())
    }
}

proof fn lemma_hex_val_nonneg(s: Seq<u8>)
    requires
        all_hex(s),
    ensures
        hex_val(s) >= 0,
    decreases s.len(),
{
    if s.len() > 0 {
        assert(all_hex(s.drop_last())) by {
            assert(forall|i: int| 0 <= i < s.len() - 1 ==> s.drop_last()[i] == s[i]);
        }
        lemma_hex_val_nonneg(s.drop_last());
    }
}

proof fn lemma_hex_val_grows(s: Seq<u8>, i: int)
    requires
        all_hex(s),
        0 <= i <= s.len(),
    ensures
        hex_val(s) >= hex_val(s.take(i)),
    decreases s.len() - i,
{
    if i == s.len() {
        assert(s.take(i) =~= s);
    } else {
        lemma_hex_val_grows(s, i + 1);
        assert(s.take(i + 1).drop_last() =~= s.take(i));
        assert(all_hex(s.take(i)));
        lemma_hex_val_nonneg(s.take(i));
    }
}

/// What a strict hexadecimal port field parses to.
pub open spec fn hex_u16_val(s: Seq<u8>) -> Option<u16> {
    if s.len() > 0 && all_hex(s) && hex_val(s) <= u16::MAX {
        Some(hex_val(s) as u16)
    } else {
        None
    }
}

/// Parses a hexadecimal port field, rejecting empty, non-hex or
/// out-of-range input.
pub fn parse_hex_u16(s: &[u8]) -> (r: Option<u16>)
    ensures
        r == hex_u16_val(s@),
{
    if s.len() == 0 {
        return None;
    }
    let mut acc: u32 = 0;
    let mut i: usize = 0;
    while i < s.len()
        invariant
            0 < s@.len() <= usize::MAX,
            i <= s@.len(),
            all_hex(s@.take(i as int)),
            acc <= u16::MAX,
            acc == hex_val(s@.take(i as int)),
        decreases s@.len() - i,
    {
        let b = s[i];
        let d: u32 = if 48 <= b && b <= 57 {
            (b - 48) as u32
        } else if 97 <= b && b <= 102 {
            (b - 87) as u32
        } else if 65 <= b && b <= 70 {
            (b - 55) as u32
        } else {
            proof {
                assert(!is_hex_digit(s@[i as int]));
            }
            return None;
        };
        proof {
            assert(s@.take(i + 1 as int).drop_last() =~= s@.take(i as int));
            assert(all_hex(s@.take(i + 1 as int)));
        }
        let a = acc * 16 + d;
        if a > u16::MAX as u32 {
            proof {
                assert(hex_val(s@.take(i + 1 as int)) > u16::MAX);
                if all_hex(s@) {
                    lemma_hex_val_grows(s@, i + 1);
                }
            }
            return None;
        }
        acc = a;
        i += 1;
    }
    proof {
        assert(s@.take(s@.len() as int) =~= s@);
    }
    Some(acc as u16)
}

/// The remote port of a connection-table line: the hexadecimal field after
/// the last colon of the third token.
pub open spec fn remote_port_of(l: Seq<u8>) -> Option<u16> {
    hex_u16_val(split_by(ws_tokens(l)[2], 58).last())
}

/// A connection-table line in the established state.
pub open spec fn is_established_line(l: Seq<u8>) -> bool {
    ws_tokens(l).len() >= 4 && ws_tokens(l)[3] == ascii_bytes("01"@)
}

/// Established and port-443 connection counts over connection-table lines.
pub open spec fn conn_counts_of(ls: Seq<Seq<u8>>) -> (int, int)
    decreases ls.len(),
{
    if ls.len() == 0 {
        (0, 0)
    } else {
        let rest = conn_counts_of(ls.drop_last());
        if is_established_line(ls.last()) {
            (
                rest.0 + 1,
                rest.1 + (if remote_port_of(ls.last()) == Some(443u16) {
                    1int
                } else {
                    0int
                }),
            )
        } else {
            rest
        }
    }
}

/// The lines the connection scan visits: both tables chained, minus the
/// first line.
pub open spec fn conn_lines(tcp: Seq<u8>, tcp6: Seq<u8>) -> Seq<Seq<u8>> {
    let all = lines_of(tcp) + lines_of(tcp6);
    if all.len() == 0 {
        all
    } else {
        all.drop_first()
    }
}

/// The cumulative retransmit counter of an snmp read: token thirteen of the
/// line after the first `Tcp:` header line that is followed by another
/// `Tcp:` line.
pub open spec fn retrans_from(ls: Seq<Seq<u8>>, i: int) -> u64
    decreases ls.len() - i when 0 <= i
{
    if i < 0 || i >= ls.len() {
        0u64
    } else if has_prefix(ls[i], ascii_bytes("Tcp:"@)) && i + 1 < ls.len() && has_prefix(
        ls[i + 1],
        ascii_bytes("Tcp:"@),
    ) {
        if ws_tokens(ls[i + 1]).len() > 12 {
            parse_u64_spec(ws_tokens(ls[i + 1])[12])
        } else {
            0u64
        }
    } else {
        retrans_from(ls, i + 1)
    }
}

/// A first collection reports zero rates: with no prior state to diff
/// against, every interface of the tick is fresh.
pub proof fn lemma_first_collect_zero_net(
    elapsed_ms: u64,
    name: Seq<u8>,
    cur: RawInterfaceStats,
    e: InterfaceStats,
)
    requires
        net_entry_ok(Seq::empty(), elapsed_ms, name, cur, e),
    ensures
        e.rx_bytes_per_sec == 0,
        e.tx_bytes_per_sec == 0,
        e.rx_packets_per_sec == 0,
        e.tx_packets_per_sec == 0,
{
}

/// Network metrics collector: owns the previous sample's per-interface
/// counters, its timestamp, and the retransmit counter.
pub struct NetworkCollector {
    /// Per-interface counters of the previous sample, keyed by name.
    pub prev_stats: Vec<(Vec<u8>, RawInterfaceStats)>,
    /// Wall-clock milliseconds of the previous sample.
    pub prev_time_ms: u64,
    /// Cumulative retransmits at the previous sample.
    pub prev_retransmits: Option<u64>,
}

impl NetworkCollector {
    /// A fresh collector holds no prior state.
    pub fn new() -> (r: NetworkCollector)
        ensures
            r.prev_stats@.len() == 0,
            r.prev_time_ms == 0,
            r.prev_retransmits is None,
    {
        NetworkCollector { prev_stats: Vec::new(), prev_time_ms: 0, prev_retransmits: None }
    }

    /// Turns one read of the device table, the two connection tables and
    /// the snmp text into network metrics, advancing the prior-sample
    /// state.
    ///
    /// Every non-loopback interface of this read yields one entry, in file
    /// order; an interface seen for the first time, or a zero interval,
    /// yields zero rates.  An interface absent from this read yields no
    /// entry and its prior state is dropped.
    pub fn collect(
        &mut self,
        netdev: &[u8],
        now_ms: u64,
        tcp: &[u8],
        tcp6: &[u8],
        snmp: &[u8],
    ) -> (r: NetworkMetrics)
        ensures
            ({
                let rows = net_rows_of(lines_of(netdev@));
                let elapsed = counter_delta(now_ms, old(self).prev_time_ms);
                let counts = conn_counts_of(conn_lines(tcp@, tcp6@));
                let retrans = retrans_from(lines_of(snmp@), 0);
                &&& r.interfaces@.len() == rows.len()
                &&& forall|i: int| 0 <= i < rows.len() ==> net_entry_ok(
                    name_entries(old(self).prev_stats@),
                    elapsed,
                    rows[i].0,
                    rows[i].1,
                    #[trigger] r.interfaces@[i],
                )
                &&& r.total_rx_bytes_per_sec == ifaces_total_rx(r.interfaces@)
                &&& r.total_tx_bytes_per_sec == ifaces_total_tx(r.interfaces@)
                &&& r.tcp.connections_established == counts.0
                &&& r.tcp.https_connections == counts.1
                &&& r.tcp.retransmits == retrans
                &&& r.tcp.retransmits_delta == (match old(self).prev_retransmits {
                    Some(p) => Some(counter_delta(retrans, p)),
                    None => None::<u64>,
                })
                &&& name_entries(final(self).prev_stats@) == net_state_of(rows)
                &&& final(self).prev_time_ms == now_ms
                &&& final(self).prev_retransmits == Some(retrans)
            }),
    {
        let ghost ls = lines_of(netdev@);
        let lines = split_lines(netdev);
        let elapsed = delta_u64(now_ms, self.prev_time_ms);
        proof {
            reveal_strlit("lo");
        }
        let lo_name = str_bytes("lo");

        let mut cur: Vec<(Vec<u8>, RawInterfaceStats)> = Vec::new();
        let mut interfaces: Vec<InterfaceStats> = Vec::new();
        let ghost prev0 = name_entries(self.prev_stats@);
        let ghost tail = if ls.len() <= 2 { Seq::<Seq<u8>>::empty() } else { ls.skip(2) };
        let mut i: usize = 2;
        proof {
            assert(tail.take(0) =~= Seq::<Seq<u8>>::empty());
            assert(name_entries(cur@) =~= Seq::<(Seq<u8>, RawInterfaceStats)>::empty());
        }
        while i < lines.len()
            invariant
                2 <= i,
                i <= lines@.len() || i == 2,
                lines@.map_values(|f: Vec<u8>| f@) == ls,
                lo_name@ == ascii_bytes("lo"@),
                elapsed == counter_delta(now_ms, self.prev_time_ms),
                prev0 == name_entries(self.prev_stats@),
                tail == (if ls.len() <= 2 {
                    Seq::<Seq<u8>>::empty()
                } else {
                    ls.skip(2)
                }),
                ls.len() > 2 ==> name_entries(cur@) == net_state_of(net_rows_rec(tail.take(i - 2))),
                ls.len() > 2 ==> interfaces@.len() == net_rows_rec(tail.take(i - 2)).len(),
                ls.len() <= 2 ==> cur@.len() == 0 && interfaces@.len() == 0,
                forall|j: int| 0 <= j < interfaces@.len() ==> net_entry_ok(
                    prev0,
                    elapsed,
                    net_rows_rec(tail.take(i - 2))[j].0,
                    net_rows_rec(tail.take(i - 2))[j].1,
                    #[trigger] interfaces@[j],
                ),
            decreases lines@.len() - i,
        {
            let line = &lines[i];
            proof {
                assert(line@ == ls[i as int]);
                assert(tail[i - 2] == ls[i as int]);
                assert(tail.take(i - 1).drop_last() =~= tail.take(i - 2));
                assert(tail.take(i - 1).last() == tail[i - 2]);
            }
            let toks = split_ws(line.as_slice());
            let ghost gt = ws_tokens(line@);
            let ghost rows_now = net_rows_rec(tail.take(i - 2));
            let ghost rows_next = net_rows_rec(tail.take(i - 1));
            if toks.len() >= 17 {
                proof {
                    assert forall|q: int| 0 <= q < 17 implies toks@[q]@ == gt[q] by {
                        assert(toks@.map_values(|f: Vec<u8>| f@)[q] == toks@[q]@);
                    }
                }
                let interface = strip_colons_exec(&toks[0]);
                if !crate::bytes::bytes_eq(interface.as_slice(), lo_name.as_slice()) {
                    let raw = RawInterfaceStats {
                        rx_bytes: crate::numfmt::parse_u64(toks[1].as_slice()),
                        rx_packets: crate::numfmt::parse_u64(toks[2].as_slice()),
                        rx_errors: crate::numfmt::parse_u64(toks[3].as_slice()),
                        rx_drops: crate::numfmt::parse_u64(toks[4].as_slice()),
                        tx_bytes: crate::numfmt::parse_u64(toks[9].as_slice()),
                        tx_packets: crate::numfmt::parse_u64(toks[10].as_slice()),
                        tx_errors: crate::numfmt::parse_u64(toks[11].as_slice()),
                        tx_drops: crate::numfmt::parse_u64(toks[12].as_slice()),
                    };
                    proof {
                        assert(net_line_spec(line@) == Some((strip_colons(gt[0]), raw)));
                        assert(rows_next =~= rows_now.push((strip_colons(gt[0]), raw)));
                        assert(rows_next.drop_last() =~= rows_now);
                    }
                    let entry = match crate::statemap::name_get(&self.prev_stats, interface.as_slice()) {
                        Some(p) => {
                            proof {
                                lemma_lookup_projects(self.prev_stats@, interface@);
                            }
                            InterfaceStats {
                                interface: interface.clone(),
                                rx_bytes_per_sec: rate_centi(delta_u64(raw.rx_bytes, p.rx_bytes), elapsed),
                                tx_bytes_per_sec: rate_centi(delta_u64(raw.tx_bytes, p.tx_bytes), elapsed),
                                rx_packets_per_sec: rate_centi(
                                    delta_u64(raw.rx_packets, p.rx_packets),
                                    elapsed,
                                ),
                                tx_packets_per_sec: rate_centi(
                                    delta_u64(raw.tx_packets, p.tx_packets),
                                    elapsed,
                                ),
                                rx_errors: raw.rx_errors,
                                tx_errors: raw.tx_errors,
                                rx_drops: raw.rx_drops,
                                tx_drops: raw.tx_drops,
                                rx_bytes_total: raw.rx_bytes,
                                tx_bytes_total: raw.tx_bytes,
                            }
                        },
                        None => {
                            proof {
                                lemma_lookup_projects(self.prev_stats@, interface@);
                            }
                            InterfaceStats {
                                interface: interface.clone(),
                                rx_bytes_per_sec: 0,
                                tx_bytes_per_sec: 0,
                                rx_packets_per_sec: 0,
                                tx_packets_per_sec: 0,
                                rx_errors: raw.rx_errors,
                                tx_errors: raw.tx_errors,
                                rx_drops: raw.rx_drops,
                                tx_drops: raw.tx_drops,
                                rx_bytes_total: raw.rx_bytes,
                                tx_bytes_total: raw.tx_bytes,
                            }
                        },
                    };
                    interfaces.push(entry);
                    let ghost cur_before = cur@;
                    proof {
                        lemma_upsert_projects(cur_before, interface, raw);
                    }
                    upsert_name(&mut cur, interface, raw);
                } else {
                    proof {
                        assert(net_line_spec(line@) is None);
                        assert(rows_next =~= rows_now);
                    }
                }
            } else {
                proof {
                    assert(net_line_spec(line@) is None);
                    assert(rows_next =~= rows_now);
                }
            }
            i += 1;
        }
        proof {
            if ls.len() > 2 {
                assert(tail.take(tail.len() as int) =~= tail);
            }
        }

        let mut total_rx: u64 = 0;
        let mut total_tx: u64 = 0;
        let mut j: usize = 0;
        proof {
            assert(interfaces@.take(0) =~= Seq::<InterfaceStats>::empty());
        }
        while j < interfaces.len()
            invariant
                j <= interfaces@.len(),
                total_rx == ifaces_total_rx(interfaces@.take(j as int)),
                total_tx == ifaces_total_tx(interfaces@.take(j as int)),
            decreases interfaces@.len() - j,
        {
            proof {
                assert(interfaces@.take(j + 1 as int).drop_last() =~= interfaces@.take(j as int));
                assert(interfaces@.take(j + 1 as int).last() == interfaces@[j as int]);
            }
            total_rx = total_rx.saturating_add(interfaces[j].rx_bytes_per_sec);
            total_tx = total_tx.saturating_add(interfaces[j].tx_bytes_per_sec);
            j += 1;
        }
        proof {
            assert(interfaces@.take(interfaces@.len() as int) =~= interfaces@);
        }

        let tcp_stats = self.collect_tcp_stats(tcp, tcp6, snmp);

        self.prev_stats = cur;
        self.prev_time_ms = now_ms;

        NetworkMetrics {
            interfaces,
            total_rx_bytes_per_sec: total_rx,
            total_tx_bytes_per_sec: total_tx,
            tcp: tcp_stats,
        }
    }

    /// Counts established and port-443 connections and reads the
    /// retransmit counter, advancing the prior retransmit state.
    fn collect_tcp_stats(&mut self, tcp: &[u8], tcp6: &[u8], snmp: &[u8]) -> (r: TcpStats)
        ensures
            ({
                let counts = conn_counts_of(conn_lines(tcp@, tcp6@));
                let retrans = retrans_from(lines_of(snmp@), 0);
                &&& r.connections_established == counts.0
                &&& r.https_connections == counts.1
                &&& r.retransmits == retrans
                &&& r.retransmits_delta == (match old(self).prev_retransmits {
                    Some(p) => Some(counter_delta(retrans, p)),
                    None => None::<u64>,
                })
                &&& final(self).prev_retransmits == Some(retrans)
                &&& final(self).prev_stats == old(self).prev_stats
                &&& final(self).prev_time_ms == old(self).prev_time_ms
            }),
    {
        let ghost all = lines_of(tcp@) + lines_of(tcp6@);
        let mut lines = split_lines(tcp);
        let mut lines6 = split_lines(tcp6);
        lines.append(&mut lines6);
        proof {
            assert(lines@.map_values(|f: Vec<u8>| f@) =~= all);
        }
        let ghost visited = conn_lines(tcp@, tcp6@);
        let mut established: u64 = 0;
        let mut https: u64 = 0;
        let start: usize = if lines.len() > 0 {
            1
        } else {
            0
        };
        proof {
            if all.len() > 0 {
                assert(visited =~= all.drop_first());
            }
            assert(visited.take(0) =~= Seq::<Seq<u8>>::empty());
        }
        let mut i: usize = start;
        proof {
            reveal_strlit("01");
        }
        let est_tok = str_bytes("01");
        while i < lines.len()
            invariant
                start <= i,
                i <= lines@.len() || i == start,
                start == (if lines@.len() > 0 {
                    1int
                } else {
                    0int
                }),
                lines@.map_values(|f: Vec<u8>| f@) == all,
                est_tok@ == ascii_bytes("01"@),
                visited == conn_lines(tcp@, tcp6@),
                all.len() > 0 ==> visited == all.drop_first(),
                all.len() == 0 ==> visited.len() == 0,
                established <= i,
                https <= i,
                (established as int, https as int) == conn_counts_of(visited.take(i - start)),
            decreases lines@.len() - i,
        {
            let line = &lines[i];
            proof {
                assert(line@ == all[i as int]);
                assert(visited[i - start] == all[i as int]);
                assert(visited.take(i - start + 1).drop_last() =~= visited.take(i - start));
                assert(visited.take(i - start + 1).last() == visited[i - start]);
            }
            let toks = split_ws(line.as_slice());
            let ghost gt = ws_tokens(line@);
            if toks.len() >= 4 {
                proof {
                    assert forall|q: int| 0 <= q < 4 implies toks@[q]@ == gt[q] by {
                        assert(toks@.map_values(|f: Vec<u8>| f@)[q] == toks@[q]@);
                    }
                }
                if crate::bytes::bytes_eq(toks[3].as_slice(), est_tok.as_slice()) {
                    established = established + 1;
                    let segs = split_byte(toks[2].as_slice(), 58);
                    proof {
                        lemma_split_by_len(gt[2], 58);
                        assert(segs@.map_values(|f: Vec<u8>| f@).last() == split_by(gt[2], 58).last());
                    }
                    let port_seg = &segs[segs.len() - 1];
                    match parse_hex_u16(port_seg.as_slice()) {
                        Some(port) => {
                            if port == 443 {
                                https = https + 1;
                            }
                        },
                        None => {},
                    }
                }
            }
            i += 1;
        }
        proof {
            if all.len() > 0 {
                assert(visited.take(all.len() - 1) =~= visited);
            } else {
                assert(visited.take(0) =~= visited);
            }
        }

        let retrans = self.read_retransmits(snmp);
        let delta = match self.prev_retransmits {
            Some(p) => Some(delta_u64(retrans, p)),
            None => None,
        };
        self.prev_retransmits = Some(retrans);
        TcpStats {
            connections_established: established,
            retransmits: retrans,
            retransmits_delta: delta,
            https_connections: https,
        }
    }

    /// Finds the retransmit counter in the snmp text.
    fn read_retransmits(&self, snmp: &[u8]) -> (r: u64)
        ensures
            r == retrans_from(lines_of(snmp@), 0),
    {
        let ghost ls = lines_of(snmp@);
        let lines = split_lines(snmp);
        proof {
            reveal_strlit("Tcp:");
        }
        let tcp_pre = str_bytes("Tcp:");
        let mut i: usize = 0;
        while i < lines.len()
            invariant
                i <= lines@.len(),
                ls == lines_of(snmp@),
                lines@.map_values(|f: Vec<u8>| f@) == ls,
                tcp_pre@ == ascii_bytes("Tcp:"@),
                retrans_from(ls, 0) == retrans_from(ls, i as int),
            decreases lines@.len() - i,
        {
            proof {
                assert(lines@[i as int]@ == ls[i as int]);
            }
            if starts_with(lines[i].as_slice(), tcp_pre.as_slice()) && i + 1 < lines.len() {
                proof {
                    assert(lines@[i + 1 as int]@ == ls[i + 1 as int]);
                }
                if starts_with(lines[i + 1].as_slice(), tcp_pre.as_slice()) {
                    let toks = split_ws(lines[i + 1].as_slice());
                    proof {
                        assert(has_prefix(ls[i as int], ascii_bytes("Tcp:"@)));
                        assert(has_prefix(ls[i + 1 as int], ascii_bytes("Tcp:"@)));
                        assert(retrans_from(ls, i as int) == (if ws_tokens(ls[i + 1 as int]).len()
                            > 12 {
                            parse_u64_spec(ws_tokens(ls[i + 1 as int])[12])
                        } else {
                            0u64
                        }));
                    }
                    if toks.len() > 12 {
                        proof {
                            assert(toks@.map_values(|f: Vec<u8>| f@)[12] == toks@[12]@);
                        }
                        return crate::numfmt::parse_u64(toks[12].as_slice());
                    } else {
                        return 0;
                    }
                }
            }
            i += 1;
        }
        0
    }
}

} // verus!
