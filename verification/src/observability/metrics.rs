//! Traffic counters of a link and the totals of a snapshot over all links.

use vstd::prelude::*;

verus! {

/// Addition of counters, wrapping around at 2^64 as atomic counters do.
pub open spec fn counter_add(a: u64, b: u64) -> u64 {
    vstd::wrapping::u64_specs::wrapping_add(a, b)
}

/// Recording traffic in two steps counts the same as recording the sums in
/// one step: counter addition, wrapping at 2^64, is associative.
pub proof fn lemma_counter_add_merges(x: u64, a: u64, b: u64)
    ensures
        counter_add(counter_add(x, a), b) == counter_add(x, counter_add(a, b)),
{
}

/// Traffic counters of one link, accumulated since the link was added.
#[derive(Clone, Copy, Debug, PartialEq, Eq, Structural)]
pub struct TrafficCounters {
    pub bytes_sent: u64,
    pub bytes_received: u64,
    pub packets_sent: u64,
    pub packets_received: u64,
    pub packets_dropped: u64,
}

impl TrafficCounters {
    /// All counters at zero.
    pub fn new() -> (c: Self)
        ensures
            c == (TrafficCounters {
                bytes_sent: 0,
                bytes_received: 0,
                packets_sent: 0,
                packets_received: 0,
                packets_dropped: 0,
            }),
    {
        TrafficCounters {
            bytes_sent: 0,
            bytes_received: 0,
            packets_sent: 0,
            packets_received: 0,
            packets_dropped: 0,
        }
    }

    /// Adds observed traffic to the counters.
    pub fn record_traffic(
        &mut self,
        bytes_sent: u64,
        bytes_received: u64,
        packets_sent: u64,
        packets_received: u64,
        packets_dropped: u64,
    )
        ensures
            final(self).bytes_sent == counter_add(old(self).bytes_sent, bytes_sent),
            final(self).bytes_received == counter_add(old(self).bytes_received, bytes_received),
            final(self).packets_sent == counter_add(old(self).packets_sent, packets_sent),
            final(self).packets_received == counter_add(
                old(self).packets_received,
                packets_received,
            ),
            final(self).packets_dropped == counter_add(old(self).packets_dropped, packets_dropped),
    {
        self.bytes_sent = self.bytes_sent.wrapping_add(bytes_sent);
        self.bytes_received = self.bytes_received.wrapping_add(bytes_received);
        self.packets_sent = self.packets_sent.wrapping_add(packets_sent);
        self.packets_received = self.packets_received.wrapping_add(packets_received);
        self.packets_dropped = self.packets_dropped.wrapping_add(packets_dropped);
    }
}

/// The integer figures of one link that a snapshot adds up.
#[derive(Clone, Copy, Debug, PartialEq, Eq, Structural)]
pub struct LinkFigures {
    pub counters: TrafficCounters,
    pub throughput_bps: u64,
}

/// The totals of a snapshot over its links.
#[derive(Clone, Copy, Debug, PartialEq, Eq, Structural)]
pub struct SnapshotTotals {
    pub total_bytes_sent: u64,
    pub total_bytes_received: u64,
    pub total_packets_sent: u64,
    pub total_packets_received: u64,
    pub total_drops: u64,
    pub total_throughput_bps: u64,
    pub active_links: usize,
}

/// The sum of one figure over all links.
pub open spec fn figure_sum(links: Seq<LinkFigures>, f: spec_fn(LinkFigures) -> u64) -> nat
    decreases links.len(),
{
    if links.len() == 0 {
        0
    } else {
        figure_sum(links.drop_last(), f) + f(links.last()) as nat
    }
}

/// Bytes sent by a link.
pub open spec fn fig_bytes_sent(l: LinkFigures) -> u64 {
    l.counters.bytes_sent
}

/// Bytes received by a link.
pub open spec fn fig_bytes_received(l: LinkFigures) -> u64 {
    l.counters.bytes_received
}

/// Packets sent by a link.
pub open spec fn fig_packets_sent(l: LinkFigures) -> u64 {
    l.counters.packets_sent
}

/// Packets received by a link.
pub open spec fn fig_packets_received(l: LinkFigures) -> u64 {
    l.counters.packets_received
}

/// Packets dropped on a link.
pub open spec fn fig_packets_dropped(l: LinkFigures) -> u64 {
    l.counters.packets_dropped
}

/// Throughput of a link.
pub open spec fn fig_throughput(l: LinkFigures) -> u64 {
    l.throughput_bps
}

/// Every total fits in 64 bits.
pub open spec fn totals_fit(links: Seq<LinkFigures>) -> bool {
    &&& figure_sum(links, |l: LinkFigures| fig_bytes_sent(l)) <= u64::MAX
    &&& figure_sum(links, |l: LinkFigures| fig_bytes_received(l)) <= u64::MAX
    &&& figure_sum(links, |l: LinkFigures| fig_packets_sent(l)) <= u64::MAX
    &&& figure_sum(links, |l: LinkFigures| fig_packets_received(l)) <= u64::MAX
    &&& figure_sum(links, |l: LinkFigures| fig_packets_dropped(l)) <= u64::MAX
    &&& figure_sum(links, |l: LinkFigures| fig_throughput(l)) <= u64::MAX
}

/// A sum over a prefix is at most the sum over the whole sequence.
pub proof fn lemma_figure_sum_prefix(links: Seq<LinkFigures>, f: spec_fn(LinkFigures) -> u64, i: int)
    requires
        0 <= i <= links.len(),
    ensures
        figure_sum(links.take(i), f) <= figure_sum(links, f),
    decreases links.len() - i,
{
    if i < links.len() {
        lemma_figure_sum_prefix(links, f, i + 1);
        assert(links.take(i + 1).drop_last() =~= links.take(i));
    } else {
        assert(links.take(i) =~= links);
    }
}

/// Totals are additive: the totals over two groups of links together are
/// the totals of each group added.
pub proof fn lemma_totals_of_two_groups(
    a: Seq<LinkFigures>,
    b: Seq<LinkFigures>,
    f: spec_fn(LinkFigures) -> u64,
)
    ensures
        figure_sum(a + b, f) == figure_sum(a, f) + figure_sum(b, f),
    decreases b.len(),
{
    if b.len() == 0 {
        assert(a + b =~= a);
    } else {
        lemma_totals_of_two_groups(a, b.drop_last(), f);
        assert((a + b).drop_last() =~= a + b.drop_last());
        assert((a + b).last() == b.last());
    }
}

proof fn lemma_figure_sum_remove(s: Seq<LinkFigures>, i: int, f: spec_fn(LinkFigures) -> u64)
    requires
        0 <= i < s.len(),
    ensures
        figure_sum(s, f) == figure_sum(s.remove(i), f) + f(s[i]),
{
    let front = s.take(i);
    let one = seq![s[i]];
    let back = s.skip(i + 1);
    assert(s =~= front + one + back);
    assert(s.remove(i) =~= front + back);
    lemma_totals_of_two_groups(front + one, back, f);
    lemma_totals_of_two_groups(front, one, f);
    lemma_totals_of_two_groups(front, back, f);
    assert(one.drop_last() =~= Seq::<LinkFigures>::empty());
    assert(figure_sum(one.drop_last(), f) == 0);
    assert(one.last() == s[i]);
    assert(figure_sum(one, f) == f(s[i]) as nat);
}

/// Totals do not depend on the order in which the links are gathered: any
/// reordering of the same links gives the same totals.
pub proof fn lemma_totals_ignore_link_order(
    s: Seq<LinkFigures>,
    t: Seq<LinkFigures>,
    f: spec_fn(LinkFigures) -> u64,
)
    requires
        s.to_multiset() == t.to_multiset(),
    ensures
        figure_sum(s, f) == figure_sum(t, f),
    decreases s.len(),
{
    broadcast use vstd::seq_lib::to_multiset_len, vstd::seq_lib::to_multiset_contains,
        vstd::seq_lib::to_multiset_remove;

    assert(s.len() == s.to_multiset().len());
    assert(t.len() == t.to_multiset().len());
    if s.len() > 0 {
        let n = s.len() - 1;
        let x = s[n];
        assert(s.contains(x));
        assert(s.to_multiset().count(x) > 0);
        assert(t.to_multiset().count(x) > 0);
        assert(t.contains(x));
        let j = choose|j: int| 0 <= j < t.len() && t[j] == x;
        assert(s.remove(n).to_multiset() == s.to_multiset().remove(s[n]));
        assert(t.remove(j).to_multiset() == t.to_multiset().remove(t[j]));
        lemma_totals_ignore_link_order(s.remove(n), t.remove(j), f);
        lemma_figure_sum_remove(s, n, f);
        lemma_figure_sum_remove(t, j, f);
    } else {
        assert(t.len() == 0);
    }
}

/// The totals of a snapshot: each counter and the throughput summed over
/// the links, and the number of links.
pub fn snapshot_totals(links: &Vec<LinkFigures>) -> (t: SnapshotTotals)
    requires
        totals_fit(links@),
    ensures
        t.total_bytes_sent == figure_sum(links@, |l: LinkFigures| fig_bytes_sent(l)),
        t.total_bytes_received == figure_sum(links@, |l: LinkFigures| fig_bytes_received(l)),
        t.total_packets_sent == figure_sum(links@, |l: LinkFigures| fig_packets_sent(l)),
        t.total_packets_received == figure_sum(links@, |l: LinkFigures| fig_packets_received(l)),
        t.total_drops == figure_sum(links@, |l: LinkFigures| fig_packets_dropped(l)),
        t.total_throughput_bps == figure_sum(links@, |l: LinkFigures| fig_throughput(l)),
        t.active_links == links@.len(),
{
    let ghost s = links@;
    let ghost f1 = |l: LinkFigures| fig_bytes_sent(l);
    let ghost f2 = |l: LinkFigures| fig_bytes_received(l);
    let ghost f3 = |l: LinkFigures| fig_packets_sent(l);
    let ghost f4 = |l: LinkFigures| fig_packets_received(l);
    let ghost f5 = |l: LinkFigures| fig_packets_dropped(l);
    let ghost f6 = |l: LinkFigures| fig_throughput(l);
    let mut t = SnapshotTotals {
        total_bytes_sent: 0,
        total_bytes_received: 0,
        total_packets_sent: 0,
        total_packets_received: 0,
        total_drops: 0,
        total_throughput_bps: 0,
        active_links: 0,
    };
    let mut i: usize = 0;
    while i < links.len()
        invariant
            i <= s.len(),
            s == links@,
            totals_fit(s),
            f1 == (|l: LinkFigures| fig_bytes_sent(l)),
            f2 == (|l: LinkFigures| fig_bytes_received(l)),
            f3 == (|l: LinkFigures| fig_packets_sent(l)),
            f4 == (|l: LinkFigures| fig_packets_received(l)),
            f5 == (|l: LinkFigures| fig_packets_dropped(l)),
            f6 == (|l: LinkFigures| fig_throughput(l)),
            t.total_bytes_sent == figure_sum(s.take(i as int), f1),
            t.total_bytes_received == figure_sum(s.take(i as int), f2),
            t.total_packets_sent == figure_sum(s.take(i as int), f3),
            t.total_packets_received == figure_sum(s.take(i as int), f4),
            t.total_drops == figure_sum(s.take(i as int), f5),
            t.total_throughput_bps == figure_sum(s.take(i as int), f6),
            t.active_links == i,
        decreases links.len() - i,
    {
        let l = links[i];
        proof {
            assert(s.take(i as int + 1).drop_last() =~= s.take(i as int));
            assert(s.take(i as int + 1).last() == l);
            lemma_figure_sum_prefix(s, f1, i as int + 1);
            lemma_figure_sum_prefix(s, f2, i as int + 1);
            lemma_figure_sum_prefix(s, f3, i as int + 1);
            lemma_figure_sum_prefix(s, f4, i as int + 1);
            lemma_figure_sum_prefix(s, f5, i as int + 1);
            lemma_figure_sum_prefix(s, f6, i as int + 1);
        }
        t.total_bytes_sent = t.total_bytes_sent + l.counters.bytes_sent;
        t.total_bytes_received = t.total_bytes_received + l.counters.bytes_received;
        t.total_packets_sent = t.total_packets_sent + l.counters.packets_sent;
        t.total_packets_received = t.total_packets_received + l.counters.packets_received;
        t.total_drops = t.total_drops + l.counters.packets_dropped;
        t.total_throughput_bps = t.total_throughput_bps + l.throughput_bps;
        t.active_links = t.active_links + 1;
        i = i + 1;
    }
    assert(s.take(s.len() as int) =~= s);
    t
}

} // verus!
