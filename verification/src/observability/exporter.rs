//! Text exporters of metrics snapshots: the Prometheus exposition format and
//! CSV, one row per link. Numbers that are floating point in a snapshot
//! arrive here already rendered as text.

use vstd::prelude::*;
use vstd::string::*;

use crate::network_sim::command::word_views;
use crate::network_sim::qdisc::lit;
use crate::observability::server::ObservabilityError;
use crate::text::{
    occurs_at, seq_contains,
    count_char, decimal, is_digit, lacks, lemma_count_char_concat, lemma_count_char_lacking,
    lemma_decimal_digits, push_str, u64_to_decimal,
};

verus! {

/// Exports snapshots in the Prometheus exposition format; every metric name
/// starts with the namespace.
pub struct PrometheusExporter {
    namespace: String,
}

impl View for PrometheusExporter {
    type V = Seq<char>;

    closed spec fn view(&self) -> Seq<char> {
        self.namespace@
    }
}

/// The characters of each label name and value.
pub open spec fn label_views(labels: Seq<(&str, &str)>) -> Seq<(Seq<char>, Seq<char>)> {
    labels.map_values(|l: (&str, &str)| (l.0@, l.1@))
}

/// `name="value"`.
pub open spec fn label_text(l: (Seq<char>, Seq<char>)) -> Seq<char> {
    l.0 + "=\""@ + l.1 + "\""@
}

/// The labels, each as `name="value"`, separated by commas.
pub open spec fn joined_labels(labels: Seq<(Seq<char>, Seq<char>)>) -> Seq<char>
    decreases labels.len(),
{
    if labels.len() == 0 {
        Seq::empty()
    } else if labels.len() == 1 {
        label_text(labels[0])
    } else {
        joined_labels(labels.drop_last()) + ","@ + label_text(labels.last())
    }
}

/// The label set in braces, or nothing when there are no labels.
pub open spec fn label_block(labels: Seq<(Seq<char>, Seq<char>)>) -> Seq<char> {
    if labels.len() == 0 {
        Seq::empty()
    } else {
        "{"@ + joined_labels(labels) + "}"@
    }
}

/// One gauge: its `HELP` and `TYPE` comments and its sample line.
pub open spec fn prom_line(
    namespace: Seq<char>,
    name: Seq<char>,
    value: Seq<char>,
    labels: Seq<(Seq<char>, Seq<char>)>,
    help: Seq<char>,
) -> Seq<char> {
    "# HELP "@ + namespace + name + " "@ + help + "\n"@ + "# TYPE "@ + namespace + name
        + " gauge\n"@ + namespace + name + label_block(labels) + " "@ + value + "\n"@
}

/// Simulation-wide values of a snapshot, each rendered as the exposition
/// format shows it.
#[derive(Debug)]
pub struct RenderedSimulation {
    pub simulation_id: String,
    pub duration_ms: String,
    pub total_bytes_sent: String,
    pub total_throughput_bps: String,
    pub avg_rtt_ms: String,
    pub avg_loss_rate: String,
}

/// Values of one link of a snapshot, each rendered as the exposition format
/// shows it; the configured qdisc values are present only when set.
#[derive(Debug)]
pub struct RenderedLink {
    pub link_id: String,
    pub bytes_sent: String,
    pub bytes_received: String,
    pub rtt_ms: String,
    pub jitter_ms: String,
    pub loss_rate: String,
    pub throughput_bps: String,
    pub queue_depth: String,
    pub queue_drops: String,
    pub qdisc_type: String,
    pub qdisc_delay_ms: Option<String>,
    pub qdisc_rate_kbps: Option<String>,
    pub qdisc_loss_pct: Option<String>,
}

/// A snapshot as the Prometheus exporter reads it.
#[derive(Debug)]
pub struct RenderedSnapshot {
    pub simulation: RenderedSimulation,
    pub links: Vec<RenderedLink>,
}

/// The simulation-wide gauges, labelled with the simulation id.
pub open spec fn simulation_text(ns: Seq<char>, s: RenderedSimulation) -> Seq<char> {
    let l = seq![("simulation_id"@, s.simulation_id@)];
    prom_line(
        ns,
        "_simulation_duration_ms"@,
        s.duration_ms@,
        l,
        "Total simulation duration in milliseconds"@,
    ) + prom_line(ns, "_total_bytes_sent"@, s.total_bytes_sent@, l, "Total bytes sent across all links"@)
        + prom_line(
        ns,
        "_total_throughput_bps"@,
        s.total_throughput_bps@,
        l,
        "Total throughput in bits per second"@,
    ) + prom_line(
        ns,
        "_avg_rtt_ms"@,
        s.avg_rtt_ms@,
        l,
        "Average round-trip time across all links"@,
    ) + prom_line(
        ns,
        "_avg_loss_rate"@,
        s.avg_loss_rate@,
        l,
        "Average packet loss rate across all links"@,
    )
}

/// A configured qdisc gauge, present only when the value is set.
pub open spec fn qdisc_gauge(
    ns: Seq<char>,
    name: Seq<char>,
    value: Option<String>,
    k: RenderedLink,
    help: Seq<char>,
) -> Seq<char> {
    match value {
        Some(v) => prom_line(
            ns,
            name,
            v@,
            seq![("link_id"@, k.link_id@), ("qdisc"@, k.qdisc_type@)],
            help,
        ),
        None => Seq::empty(),
    }
}

/// The gauges of one link, labelled with its id (and its qdisc type for
/// the configured qdisc values).
#[verifier::opaque]
pub open spec fn link_text(ns: Seq<char>, k: RenderedLink) -> Seq<char> {
    let l = seq![("link_id"@, k.link_id@)];
    prom_line(ns, "_link_bytes_sent"@, k.bytes_sent@, l, "Bytes sent on this link"@) + prom_line(
        ns,
        "_link_bytes_received"@,
        k.bytes_received@,
        l,
        "Bytes received on this link"@,
    ) + prom_line(ns, "_link_rtt_ms"@, k.rtt_ms@, l, "Round-trip time for this link"@)
        + prom_line(ns, "_link_jitter_ms"@, k.jitter_ms@, l, "Jitter for this link"@)
        + prom_line(ns, "_link_loss_rate"@, k.loss_rate@, l, "Packet loss rate for this link"@)
        + prom_line(ns, "_link_throughput_bps"@, k.throughput_bps@, l, "Throughput for this link"@)
        + prom_line(
        ns,
        "_link_queue_depth"@,
        k.queue_depth@,
        l,
        "Current queue depth for this link"@,
    ) + prom_line(ns, "_link_queue_drops"@, k.queue_drops@, l, "Queue drops for this link"@)
        + qdisc_gauge(
        ns,
        "_link_qdisc_delay_ms"@,
        k.qdisc_delay_ms,
        k,
        "Configured delay for this link's qdisc"@,
    ) + qdisc_gauge(
        ns,
        "_link_qdisc_rate_kbps"@,
        k.qdisc_rate_kbps,
        k,
        "Configured rate for this link's qdisc"@,
    ) + qdisc_gauge(
        ns,
        "_link_qdisc_loss_pct"@,
        k.qdisc_loss_pct,
        k,
        "Configured loss percentage for this link's qdisc"@,
    )
}

/// The gauges of all links, in order.
pub open spec fn links_text(ns: Seq<char>, links: Seq<RenderedLink>) -> Seq<char>
    decreases links.len(),
{
    if links.len() == 0 {
        Seq::empty()
    } else {
        links_text(ns, links.drop_last()) + link_text(ns, links.last())
    }
}

/// The exposition of links is per link: exporting two runs of links one
/// after the other gives the two expositions one after the other.
pub proof fn lemma_links_text_concat(ns: Seq<char>, a: Seq<RenderedLink>, b: Seq<RenderedLink>)
    ensures
        links_text(ns, a + b) == links_text(ns, a) + links_text(ns, b),
    decreases b.len(),
{
    if b.len() == 0 {
        assert(a + b =~= a);
        assert(links_text(ns, a) + links_text(ns, b) =~= links_text(ns, a));
    } else {
        lemma_links_text_concat(ns, a, b.drop_last());
        assert((a + b).drop_last() =~= a + b.drop_last());
        assert((a + b).last() == b.last());
        assert(links_text(ns, a + b) =~= links_text(ns, a) + links_text(ns, b));
    }
}

/// The whole exposition of a snapshot.
pub open spec fn prometheus_text(ns: Seq<char>, snap: RenderedSnapshot) -> Seq<char> {
    simulation_text(ns, snap.simulation) + links_text(ns, snap.links@)
}

// ---------------------------------------------------------------------------
// Lines of the exposition
// ---------------------------------------------------------------------------

/// Whether a text fits on one line: it holds no line break.
pub open spec fn one_line(s: Seq<char>) -> bool {
    lacks(s, '\n')
}

/// Whether an optional text fits on one line.
pub open spec fn opt_one_line(v: Option<String>) -> bool {
    match v {
        Some(t) => one_line(t@),
        None => true,
    }
}

/// Every simulation-wide value fits on one line.
pub open spec fn simulation_one_line(s: RenderedSimulation) -> bool {
    &&& one_line(s.simulation_id@)
    &&& one_line(s.duration_ms@)
    &&& one_line(s.total_bytes_sent@)
    &&& one_line(s.total_throughput_bps@)
    &&& one_line(s.avg_rtt_ms@)
    &&& one_line(s.avg_loss_rate@)
}

/// Every value of a link fits on one line.
pub open spec fn link_one_line(k: RenderedLink) -> bool {
    &&& one_line(k.link_id@)
    &&& one_line(k.bytes_sent@)
    &&& one_line(k.bytes_received@)
    &&& one_line(k.rtt_ms@)
    &&& one_line(k.jitter_ms@)
    &&& one_line(k.loss_rate@)
    &&& one_line(k.throughput_bps@)
    &&& one_line(k.queue_depth@)
    &&& one_line(k.queue_drops@)
    &&& one_line(k.qdisc_type@)
    &&& opt_one_line(k.qdisc_delay_ms)
    &&& opt_one_line(k.qdisc_rate_kbps)
    &&& opt_one_line(k.qdisc_loss_pct)
}

/// 1 when the value is present, else 0.
pub open spec fn present(v: Option<String>) -> nat {
    if v is Some {
        1
    } else {
        0
    }
}

/// How many configured qdisc values (delay, rate, loss) a link has.
pub open spec fn link_qdisc_values(k: RenderedLink) -> nat {
    present(k.qdisc_delay_ms) + present(k.qdisc_rate_kbps) + present(k.qdisc_loss_pct)
}

/// How many configured qdisc values the links have in all.
pub open spec fn qdisc_value_count(links: Seq<RenderedLink>) -> nat
    decreases links.len(),
{
    if links.len() == 0 {
        0
    } else {
        qdisc_value_count(links.drop_last()) + link_qdisc_values(links.last())
    }
}

proof fn lemma_gauge_literals_one_line()
    ensures
        one_line("# HELP "@),
        one_line(" "@),
        one_line("# TYPE "@),
        one_line("{"@),
        one_line("}"@),
        one_line("=\""@),
        one_line("\""@),
        one_line(","@),
        one_line("simulation_id"@),
        one_line("_simulation_duration_ms"@),
        one_line("Total simulation duration in milliseconds"@),
        one_line("_total_bytes_sent"@),
        one_line("Total bytes sent across all links"@),
        one_line("_total_throughput_bps"@),
        one_line("Total throughput in bits per second"@),
        one_line("_avg_rtt_ms"@),
        one_line("Average round-trip time across all links"@),
        one_line("_avg_loss_rate"@),
        one_line("Average packet loss rate across all links"@),
        one_line("link_id"@),
        one_line("qdisc"@),
        one_line("_link_bytes_sent"@),
        one_line("Bytes sent on this link"@),
        one_line("_link_bytes_received"@),
        one_line("Bytes received on this link"@),
        one_line("_link_rtt_ms"@),
        one_line("Round-trip time for this link"@),
        one_line("_link_jitter_ms"@),
        one_line("Jitter for this link"@),
        one_line("_link_loss_rate"@),
        one_line("Packet loss rate for this link"@),
        one_line("_link_throughput_bps"@),
        one_line("Throughput for this link"@),
        one_line("_link_queue_depth"@),
        one_line("Current queue depth for this link"@),
        one_line("_link_queue_drops"@),
        one_line("Queue drops for this link"@),
        one_line("_link_qdisc_delay_ms"@),
        one_line("Configured delay for this link's qdisc"@),
        one_line("_link_qdisc_rate_kbps"@),
        one_line("Configured rate for this link's qdisc"@),
        one_line("_link_qdisc_loss_pct"@),
        one_line("Configured loss percentage for this link's qdisc"@),
        count_char("\n"@, '\n') == 1,
        count_char(" gauge\n"@, '\n') == 1,
{
    reveal_strlit("# HELP ");
    reveal_strlit(" ");
    reveal_strlit("# TYPE ");
    reveal_strlit("{");
    reveal_strlit("}");
    reveal_strlit("=\"");
    reveal_strlit("\"");
    reveal_strlit(",");
    reveal_strlit("simulation_id");
    reveal_strlit("_simulation_duration_ms");
    reveal_strlit("Total simulation duration in milliseconds");
    reveal_strlit("_total_bytes_sent");
    reveal_strlit("Total bytes sent across all links");
    reveal_strlit("_total_throughput_bps");
    reveal_strlit("Total throughput in bits per second");
    reveal_strlit("_avg_rtt_ms");
    reveal_strlit("Average round-trip time across all links");
    reveal_strlit("_avg_loss_rate");
    reveal_strlit("Average packet loss rate across all links");
    reveal_strlit("link_id");
    reveal_strlit("qdisc");
    reveal_strlit("_link_bytes_sent");
    reveal_strlit("Bytes sent on this link");
    reveal_strlit("_link_bytes_received");
    reveal_strlit("Bytes received on this link");
    reveal_strlit("_link_rtt_ms");
    reveal_strlit("Round-trip time for this link");
    reveal_strlit("_link_jitter_ms");
    reveal_strlit("Jitter for this link");
    reveal_strlit("_link_loss_rate");
    reveal_strlit("Packet loss rate for this link");
    reveal_strlit("_link_throughput_bps");
    reveal_strlit("Throughput for this link");
    reveal_strlit("_link_queue_depth");
    reveal_strlit("Current queue depth for this link");
    reveal_strlit("_link_queue_drops");
    reveal_strlit("Queue drops for this link");
    reveal_strlit("_link_qdisc_delay_ms");
    reveal_strlit("Configured delay for this link's qdisc");
    reveal_strlit("_link_qdisc_rate_kbps");
    reveal_strlit("Configured rate for this link's qdisc");
    reveal_strlit("_link_qdisc_loss_pct");
    reveal_strlit("Configured loss percentage for this link's qdisc");
    reveal_strlit("\n");
    reveal_strlit(" gauge\n");
    let nl = "\n"@;
    assert(nl.last() == '\n');
    assert(lacks(nl.drop_last(), '\n'));
    lemma_count_char_lacking(nl.drop_last(), '\n');
    let g = " gauge\n"@;
    assert(g.last() == '\n');
    assert(lacks(g.drop_last(), '\n'));
    lemma_count_char_lacking(g.drop_last(), '\n');
}

/// A label whose name and value fit on one line.
pub open spec fn label_one_line(l: (Seq<char>, Seq<char>)) -> bool {
    one_line(l.0) && one_line(l.1)
}

/// Labels whose names and values fit on one line.
pub open spec fn labels_one_line(labels: Seq<(Seq<char>, Seq<char>)>) -> bool {
    forall|i: int| 0 <= i < labels.len() ==> label_one_line(#[trigger] labels[i])
}

proof fn lemma_joined_labels_one_line(labels: Seq<(Seq<char>, Seq<char>)>)
    requires
        labels_one_line(labels),
    ensures
        count_char(joined_labels(labels), '\n') == 0,
    decreases labels.len(),
{
    broadcast use lemma_count_char_concat, lemma_count_char_lacking;

    lemma_gauge_literals_one_line();
    if labels.len() == 0 {
        assert(joined_labels(labels) =~= Seq::<char>::empty());
    } else if labels.len() == 1 {
        assert(label_one_line(labels[0]));
    } else {
        let init = labels.drop_last();
        assert(labels_one_line(init)) by {
            assert forall|i: int| 0 <= i < init.len() implies label_one_line(#[trigger] init[i]) by {
                assert(init[i] == labels[i]);
            }
        }
        lemma_joined_labels_one_line(init);
        let l = labels.last();
        assert(l == labels[labels.len() - 1]);
        assert(label_one_line(labels[labels.len() - 1]));
    }
}

/// A gauge takes three lines (its `HELP` and `TYPE` comments and its
/// sample) when the namespace, the name, the value, the labels and the help
/// text each fit on one line.
pub proof fn lemma_prom_line_three_lines(
    ns: Seq<char>,
    name: Seq<char>,
    value: Seq<char>,
    labels: Seq<(Seq<char>, Seq<char>)>,
    help: Seq<char>,
)
    requires
        one_line(ns),
        one_line(name),
        one_line(value),
        labels_one_line(labels),
        one_line(help),
    ensures
        count_char(prom_line(ns, name, value, labels, help), '\n') == 3,
{
    broadcast use lemma_count_char_concat, lemma_count_char_lacking;

    lemma_gauge_literals_one_line();
    if labels.len() > 0 {
        lemma_joined_labels_one_line(labels);
    } else {
        assert(label_block(labels) =~= Seq::<char>::empty());
    }
}

proof fn lemma_simulation_lines(ns: Seq<char>, sim: RenderedSimulation)
    requires
        one_line(ns),
        simulation_one_line(sim),
    ensures
        count_char(simulation_text(ns, sim), '\n') == 15,
{
    broadcast use lemma_count_char_concat;

    lemma_gauge_literals_one_line();
    let l = seq![("simulation_id"@, sim.simulation_id@)];
    assert(label_one_line(l[0]));
    assert(labels_one_line(l));
    lemma_prom_line_three_lines(
        ns,
        "_simulation_duration_ms"@,
        sim.duration_ms@,
        l,
        "Total simulation duration in milliseconds"@,
    );
    lemma_prom_line_three_lines(
        ns,
        "_total_bytes_sent"@,
        sim.total_bytes_sent@,
        l,
        "Total bytes sent across all links"@,
    );
    lemma_prom_line_three_lines(
        ns,
        "_total_throughput_bps"@,
        sim.total_throughput_bps@,
        l,
        "Total throughput in bits per second"@,
    );
    lemma_prom_line_three_lines(
        ns,
        "_avg_rtt_ms"@,
        sim.avg_rtt_ms@,
        l,
        "Average round-trip time across all links"@,
    );
    lemma_prom_line_three_lines(
        ns,
        "_avg_loss_rate"@,
        sim.avg_loss_rate@,
        l,
        "Average packet loss rate across all links"@,
    );
}

proof fn lemma_qdisc_gauge_lines(
    ns: Seq<char>,
    name: Seq<char>,
    value: Option<String>,
    k: RenderedLink,
    help: Seq<char>,
)
    requires
        one_line(ns),
        one_line(name),
        opt_one_line(value),
        link_one_line(k),
        one_line(help),
    ensures
        count_char(qdisc_gauge(ns, name, value, k, help), '\n') == 3 * present(value),
{
    lemma_gauge_literals_one_line();
    match value {
        Some(v) => {
            let l = seq![("link_id"@, k.link_id@), ("qdisc"@, k.qdisc_type@)];
            assert(label_one_line(l[0]) && label_one_line(l[1]));
            assert(labels_one_line(l));
            lemma_prom_line_three_lines(ns, name, v@, l, help);
        },
        None => {
            lemma_count_char_lacking(Seq::<char>::empty(), '\n');
        },
    }
}

proof fn lemma_link_lines(ns: Seq<char>, k: RenderedLink)
    requires
        one_line(ns),
        link_one_line(k),
    ensures
        count_char(link_text(ns, k), '\n') == 3 * (8 + link_qdisc_values(k)),
{
    broadcast use lemma_count_char_concat;

    reveal(link_text);
    lemma_gauge_literals_one_line();
    let l = seq![("link_id"@, k.link_id@)];
    assert(label_one_line(l[0]));
    assert(labels_one_line(l));
    lemma_prom_line_three_lines(ns, "_link_bytes_sent"@, k.bytes_sent@, l, "Bytes sent on this link"@);
    lemma_prom_line_three_lines(
        ns,
        "_link_bytes_received"@,
        k.bytes_received@,
        l,
        "Bytes received on this link"@,
    );
    lemma_prom_line_three_lines(ns, "_link_rtt_ms"@, k.rtt_ms@, l, "Round-trip time for this link"@);
    lemma_prom_line_three_lines(ns, "_link_jitter_ms"@, k.jitter_ms@, l, "Jitter for this link"@);
    lemma_prom_line_three_lines(
        ns,
        "_link_loss_rate"@,
        k.loss_rate@,
        l,
        "Packet loss rate for this link"@,
    );
    lemma_prom_line_three_lines(
        ns,
        "_link_throughput_bps"@,
        k.throughput_bps@,
        l,
        "Throughput for this link"@,
    );
    lemma_prom_line_three_lines(
        ns,
        "_link_queue_depth"@,
        k.queue_depth@,
        l,
        "Current queue depth for this link"@,
    );
    lemma_prom_line_three_lines(
        ns,
        "_link_queue_drops"@,
        k.queue_drops@,
        l,
        "Queue drops for this link"@,
    );
    lemma_qdisc_gauge_lines(
        ns,
        "_link_qdisc_delay_ms"@,
        k.qdisc_delay_ms,
        k,
        "Configured delay for this link's qdisc"@,
    );
    lemma_qdisc_gauge_lines(
        ns,
        "_link_qdisc_rate_kbps"@,
        k.qdisc_rate_kbps,
        k,
        "Configured rate for this link's qdisc"@,
    );
    lemma_qdisc_gauge_lines(
        ns,
        "_link_qdisc_loss_pct"@,
        k.qdisc_loss_pct,
        k,
        "Configured loss percentage for this link's qdisc"@,
    );
}

proof fn lemma_links_lines(ns: Seq<char>, links: Seq<RenderedLink>)
    requires
        one_line(ns),
        forall|i: int| 0 <= i < links.len() ==> link_one_line(#[trigger] links[i]),
    ensures
        count_char(links_text(ns, links), '\n') == 3 * (8 * links.len() + qdisc_value_count(links)),
    decreases links.len(),
{
    broadcast use lemma_count_char_concat;

    if links.len() == 0 {
        lemma_count_char_lacking(Seq::<char>::empty(), '\n');
    } else {
        let init = links.drop_last();
        assert forall|i: int| 0 <= i < init.len() implies link_one_line(#[trigger] init[i]) by {
            assert(init[i] == links[i]);
        }
        lemma_links_lines(ns, init);
        assert(link_one_line(links[links.len() - 1]));
        lemma_link_lines(ns, links.last());
        assert(3 * (8 * init.len() + qdisc_value_count(init)) + 3 * (8 + link_qdisc_values(
            links.last(),
        )) == 3 * (8 * links.len() + qdisc_value_count(links))) by (nonlinear_arith)
            requires
                links.len() == init.len() + 1,
                qdisc_value_count(links) == qdisc_value_count(init) + link_qdisc_values(
                    links.last(),
                ),
        ;
    }
}

/// The Prometheus exposition is three lines per gauge (`HELP`, `TYPE`,
/// sample): the five simulation gauges, eight gauges per link and one per
/// configured qdisc value, whenever the namespace and every rendered value
/// fit on one line.
pub proof fn lemma_prometheus_three_lines_per_gauge(ns: Seq<char>, snap: RenderedSnapshot)
    requires
        one_line(ns),
        simulation_one_line(snap.simulation),
        forall|i: int| 0 <= i < snap.links@.len() ==> link_one_line(#[trigger] snap.links@[i]),
    ensures
        count_char(prometheus_text(ns, snap), '\n') == 3 * (5 + 8 * snap.links@.len()
            + qdisc_value_count(snap.links@)),
{
    broadcast use lemma_count_char_concat;

    lemma_simulation_lines(ns, snap.simulation);
    lemma_links_lines(ns, snap.links@);
}

/// A gauge under namespace `ns` reads as the gauge named `ns + name` under no
/// namespace.
pub broadcast proof fn lemma_prom_line_joins_namespace(
    ns: Seq<char>,
    name: Seq<char>,
    value: Seq<char>,
    labels: Seq<(Seq<char>, Seq<char>)>,
    help: Seq<char>,
)
    ensures
        #[trigger] prom_line(ns, name, value, labels, help) == prom_line(
            Seq::empty(),
            ns + name,
            value,
            labels,
            help,
        ),
{
    lemma_namespace_joined_without_separator(ns, name, value, labels, help);
}

/// The namespace is joined to the metric name with nothing between: a gauge
/// of name `name` under namespace `ns` reads exactly as the gauge named
/// `ns + name` under the empty namespace.
pub proof fn lemma_namespace_joined_without_separator(
    ns: Seq<char>,
    name: Seq<char>,
    value: Seq<char>,
    labels: Seq<(Seq<char>, Seq<char>)>,
    help: Seq<char>,
)
    ensures
        prom_line(ns, name, value, labels, help) == prom_line(
            Seq::empty(),
            ns + name,
            value,
            labels,
            help,
        ),
{
    assert(prom_line(ns, name, value, labels, help) =~= prom_line(
        Seq::empty(),
        ns + name,
        value,
        labels,
        help,
    ));
}

// ---------------------------------------------------------------------------
// Metric names under a namespace
// ---------------------------------------------------------------------------

/// The simulation gauges, each metric named by `names` applied to its
/// suffix, under no namespace.
pub open spec fn simulation_text_named(names: spec_fn(Seq<char>) -> Seq<char>, s: RenderedSimulation) -> Seq<char> {
    let l = seq![("simulation_id"@, s.simulation_id@)];
    prom_line(
        Seq::empty(),
        names("_simulation_duration_ms"@),
        s.duration_ms@,
        l,
        "Total simulation duration in milliseconds"@,
    ) + prom_line(Seq::empty(), names("_total_bytes_sent"@), s.total_bytes_sent@, l, "Total bytes sent across all links"@)
        + prom_line(
        Seq::empty(),
        names("_total_throughput_bps"@),
        s.total_throughput_bps@,
        l,
        "Total throughput in bits per second"@,
    ) + prom_line(
        Seq::empty(),
        names("_avg_rtt_ms"@),
        s.avg_rtt_ms@,
        l,
        "Average round-trip time across all links"@,
    ) + prom_line(
        Seq::empty(),
        names("_avg_loss_rate"@),
        s.avg_loss_rate@,
        l,
        "Average packet loss rate across all links"@,
    )
}

/// A configured qdisc gauge named by `names`, under no namespace.
pub open spec fn qdisc_gauge_named(
    names: spec_fn(Seq<char>) -> Seq<char>,
    name: Seq<char>,
    value: Option<String>,
    k: RenderedLink,
    help: Seq<char>,
) -> Seq<char> {
    match value {
        Some(v) => prom_line(
            Seq::empty(),
            names(name),
            v@,
            seq![("link_id"@, k.link_id@), ("qdisc"@, k.qdisc_type@)],
            help,
        ),
        None => Seq::empty(),
    }
}

/// The gauges of one link named by `names`, under no namespace.
pub open spec fn link_text_named(names: spec_fn(Seq<char>) -> Seq<char>, k: RenderedLink) -> Seq<char> {
    let l = seq![("link_id"@, k.link_id@)];
    prom_line(Seq::empty(), names("_link_bytes_sent"@), k.bytes_sent@, l, "Bytes sent on this link"@) + prom_line(
        Seq::empty(),
        names("_link_bytes_received"@),
        k.bytes_received@,
        l,
        "Bytes received on this link"@,
    ) + prom_line(Seq::empty(), names("_link_rtt_ms"@), k.rtt_ms@, l, "Round-trip time for this link"@)
        + prom_line(Seq::empty(), names("_link_jitter_ms"@), k.jitter_ms@, l, "Jitter for this link"@)
        + prom_line(Seq::empty(), names("_link_loss_rate"@), k.loss_rate@, l, "Packet loss rate for this link"@)
        + prom_line(Seq::empty(), names("_link_throughput_bps"@), k.throughput_bps@, l, "Throughput for this link"@)
        + prom_line(
        Seq::empty(),
        names("_link_queue_depth"@),
        k.queue_depth@,
        l,
        "Current queue depth for this link"@,
    ) + prom_line(Seq::empty(), names("_link_queue_drops"@), k.queue_drops@, l, "Queue drops for this link"@)
        + qdisc_gauge_named(
        names,
        "_link_qdisc_delay_ms"@,
        k.qdisc_delay_ms,
        k,
        "Configured delay for this link's qdisc"@,
    ) + qdisc_gauge_named(
        names,
        "_link_qdisc_rate_kbps"@,
        k.qdisc_rate_kbps,
        k,
        "Configured rate for this link's qdisc"@,
    ) + qdisc_gauge_named(
        names,
        "_link_qdisc_loss_pct"@,
        k.qdisc_loss_pct,
        k,
        "Configured loss percentage for this link's qdisc"@,
    )
}

/// The gauges of all links named by `names`, under no namespace.
pub open spec fn links_text_named(names: spec_fn(Seq<char>) -> Seq<char>, links: Seq<RenderedLink>) -> Seq<char>
    decreases links.len(),
{
    if links.len() == 0 {
        Seq::empty()
    } else {
        links_text_named(names, links.drop_last()) + link_text_named(names, links.last())
    }
}

/// The whole exposition, every metric named by `names` applied to its
/// suffix.
pub open spec fn prometheus_text_named(
    names: spec_fn(Seq<char>) -> Seq<char>,
    snap: RenderedSnapshot,
) -> Seq<char> {
    simulation_text_named(names, snap.simulation) + links_text_named(names, snap.links@)
}

proof fn lemma_qdisc_gauge_named(
    ns: Seq<char>,
    name: Seq<char>,
    value: Option<String>,
    k: RenderedLink,
    help: Seq<char>,
)
    ensures
        qdisc_gauge(ns, name, value, k, help) == qdisc_gauge_named(
            |m: Seq<char>| ns + m,
            name,
            value,
            k,
            help,
        ),
{
    match value {
        Some(v) => {
            lemma_namespace_joined_without_separator(
                ns,
                name,
                v@,
                seq![("link_id"@, k.link_id@), ("qdisc"@, k.qdisc_type@)],
                help,
            );
        },
        None => {},
    }
}

#[verifier::spinoff_prover]
#[verifier::rlimit(40)]
proof fn lemma_link_named(ns: Seq<char>, k: RenderedLink)
    ensures
        link_text(ns, k) == link_text_named(|m: Seq<char>| ns + m, k),
{
    reveal(link_text);
    let l = seq![("link_id"@, k.link_id@)];
    lemma_namespace_joined_without_separator(ns, "_link_bytes_sent"@, k.bytes_sent@, l, "Bytes sent on this link"@);
    lemma_namespace_joined_without_separator(
        ns,
        "_link_bytes_received"@,
        k.bytes_received@,
        l,
        "Bytes received on this link"@,
    );
    lemma_namespace_joined_without_separator(ns, "_link_rtt_ms"@, k.rtt_ms@, l, "Round-trip time for this link"@);
    lemma_namespace_joined_without_separator(ns, "_link_jitter_ms"@, k.jitter_ms@, l, "Jitter for this link"@);
    lemma_namespace_joined_without_separator(
        ns,
        "_link_loss_rate"@,
        k.loss_rate@,
        l,
        "Packet loss rate for this link"@,
    );
    lemma_namespace_joined_without_separator(
        ns,
        "_link_throughput_bps"@,
        k.throughput_bps@,
        l,
        "Throughput for this link"@,
    );
    lemma_namespace_joined_without_separator(
        ns,
        "_link_queue_depth"@,
        k.queue_depth@,
        l,
        "Current queue depth for this link"@,
    );
    lemma_namespace_joined_without_separator(
        ns,
        "_link_queue_drops"@,
        k.queue_drops@,
        l,
        "Queue drops for this link"@,
    );
    lemma_qdisc_gauge_named(
        ns,
        "_link_qdisc_delay_ms"@,
        k.qdisc_delay_ms,
        k,
        "Configured delay for this link's qdisc"@,
    );
    lemma_qdisc_gauge_named(
        ns,
        "_link_qdisc_rate_kbps"@,
        k.qdisc_rate_kbps,
        k,
        "Configured rate for this link's qdisc"@,
    );
    lemma_qdisc_gauge_named(
        ns,
        "_link_qdisc_loss_pct"@,
        k.qdisc_loss_pct,
        k,
        "Configured loss percentage for this link's qdisc"@,
    );
}

proof fn lemma_links_named(ns: Seq<char>, links: Seq<RenderedLink>)
    ensures
        links_text(ns, links) == links_text_named(|m: Seq<char>| ns + m, links),
    decreases links.len(),
{
    if links.len() > 0 {
        lemma_links_named(ns, links.drop_last());
        lemma_link_named(ns, links.last());
    }
}

/// The namespace is joined to every metric name with nothing between and
/// nothing changed: the exposition under namespace `ns` is the exposition
/// whose every metric is named `ns` followed directly by its suffix (such
/// as `_simulation_duration_ms`).
pub proof fn lemma_export_names_namespace_then_suffix(ns: Seq<char>, snap: RenderedSnapshot)
    ensures
        prometheus_text(ns, snap) == prometheus_text_named(|m: Seq<char>| ns + m, snap),
{
    broadcast use lemma_prom_line_joins_namespace;

    lemma_links_named(ns, snap.links@);
    assert(simulation_text(ns, snap.simulation) =~= simulation_text_named(
        |m: Seq<char>| ns + m,
        snap.simulation,
    ));
}

// ---------------------------------------------------------------------------
// Which value each gauge carries
// ---------------------------------------------------------------------------

/// The sample line of metric `ns + suffix` with the one label
/// `label="id"` and value `v`.
pub open spec fn sample_line(
    ns: Seq<char>,
    suffix: Seq<char>,
    label: Seq<char>,
    id: Seq<char>,
    v: Seq<char>,
) -> Seq<char> {
    ns + suffix + "{"@ + label + "=\""@ + id + "\""@ + "}"@ + " "@ + v + "\n"@
}

/// The sample line of a configured qdisc value: metric `ns + suffix`,
/// labels `link_id="id",qdisc="qtype"`, value `v`.
pub open spec fn qdisc_sample_line(
    ns: Seq<char>,
    suffix: Seq<char>,
    id: Seq<char>,
    qtype: Seq<char>,
    v: Seq<char>,
) -> Seq<char> {
    ns + suffix + "{"@ + "link_id"@ + "=\""@ + id + "\""@ + ","@ + "qdisc"@ + "=\""@ + qtype
        + "\""@ + "}"@ + " "@ + v + "\n"@
}

/// Text found inside either part of a concatenation is found in the whole.
pub broadcast proof fn lemma_contains_in_concat(x: Seq<char>, y: Seq<char>, needle: Seq<char>)
    ensures
        (seq_contains(x, needle) || seq_contains(y, needle)) ==> #[trigger] seq_contains(
            x + y,
            needle,
        ),
{
    if seq_contains(x, needle) {
        let j = choose|j: int| occurs_at(x, needle, j);
        assert((x + y).subrange(j, j + needle.len()) =~= x.subrange(j, j + needle.len()));
        assert(occurs_at(x + y, needle, j));
    } else if seq_contains(y, needle) {
        let j = choose|j: int| occurs_at(y, needle, j);
        assert((x + y).subrange(x.len() + j, x.len() + j + needle.len()) =~= y.subrange(
            j,
            j + needle.len(),
        ));
        assert(occurs_at(x + y, needle, x.len() + j));
    }
}

proof fn lemma_ends_with(head: Seq<char>, tail: Seq<char>)
    ensures
        seq_contains(head + tail, tail),
{
    assert((head + tail).subrange(head.len() as int, (head.len() + tail.len()) as int) =~= tail);
    assert(occurs_at(head + tail, tail, head.len() as int));
}

proof fn lemma_one_label_sample(
    ns: Seq<char>,
    suffix: Seq<char>,
    label: Seq<char>,
    id: Seq<char>,
    v: Seq<char>,
    help: Seq<char>,
)
    ensures
        seq_contains(prom_line(ns, suffix, v, seq![(label, id)], help), sample_line(ns, suffix, label, id, v)),
{
    let l = seq![(label, id)];
    assert(joined_labels(l) == label_text(l[0]));
    let head = "# HELP "@ + ns + suffix + " "@ + help + "\n"@ + "# TYPE "@ + ns + suffix + " gauge\n"@;
    assert(prom_line(ns, suffix, v, l, help) =~= head + sample_line(ns, suffix, label, id, v));
    lemma_ends_with(head, sample_line(ns, suffix, label, id, v));
}

#[verifier::spinoff_prover]
#[verifier::rlimit(40)]
proof fn lemma_qdisc_sample(
    ns: Seq<char>,
    suffix: Seq<char>,
    value: Option<String>,
    k: RenderedLink,
    help: Seq<char>,
)
    ensures
        value matches Some(v) ==> seq_contains(
            qdisc_gauge(ns, suffix, value, k, help),
            qdisc_sample_line(ns, suffix, k.link_id@, k.qdisc_type@, v@),
        ),
{
    if let Some(v) = value {
        let l = seq![("link_id"@, k.link_id@), ("qdisc"@, k.qdisc_type@)];
        assert(l.drop_last() =~= seq![("link_id"@, k.link_id@)]);
        assert(joined_labels(l.drop_last()) == label_text(l[0]));
        assert(joined_labels(l) == label_text(l[0]) + ","@ + label_text(l[1]));
        let head = "# HELP "@ + ns + suffix + " "@ + help + "\n"@ + "# TYPE "@ + ns + suffix
            + " gauge\n"@;
        let sample = qdisc_sample_line(ns, suffix, k.link_id@, k.qdisc_type@, v@);
        assert(prom_line(ns, suffix, v@, l, help) =~= head + sample);
        lemma_ends_with(head, sample);
    }
}

/// Every gauge of a link carries that link's own value of its field: the
/// exposition of link `k` holds the sample line of each link metric with
/// `k`'s id and `k`'s value of that metric, and of each configured qdisc
/// value that `k` has.
pub proof fn lemma_link_gauges_carry_their_fields(ns: Seq<char>, k: RenderedLink)
    ensures
        ({
            let t = link_text(ns, k);
            let id = k.link_id@;
            &&& seq_contains(t, sample_line(ns, "_link_bytes_sent"@, "link_id"@, id, k.bytes_sent@))
            &&& seq_contains(
                t,
                sample_line(ns, "_link_bytes_received"@, "link_id"@, id, k.bytes_received@),
            )
            &&& seq_contains(t, sample_line(ns, "_link_rtt_ms"@, "link_id"@, id, k.rtt_ms@))
            &&& seq_contains(t, sample_line(ns, "_link_jitter_ms"@, "link_id"@, id, k.jitter_ms@))
            &&& seq_contains(t, sample_line(ns, "_link_loss_rate"@, "link_id"@, id, k.loss_rate@))
            &&& seq_contains(
                t,
                sample_line(ns, "_link_throughput_bps"@, "link_id"@, id, k.throughput_bps@),
            )
            &&& seq_contains(
                t,
                sample_line(ns, "_link_queue_depth"@, "link_id"@, id, k.queue_depth@),
            )
            &&& seq_contains(
                t,
                sample_line(ns, "_link_queue_drops"@, "link_id"@, id, k.queue_drops@),
            )
            &&& (k.qdisc_delay_ms matches Some(v) ==> seq_contains(
                t,
                qdisc_sample_line(ns, "_link_qdisc_delay_ms"@, id, k.qdisc_type@, v@),
            ))
            &&& (k.qdisc_rate_kbps matches Some(v) ==> seq_contains(
                t,
                qdisc_sample_line(ns, "_link_qdisc_rate_kbps"@, id, k.qdisc_type@, v@),
            ))
            &&& (k.qdisc_loss_pct matches Some(v) ==> seq_contains(
                t,
                qdisc_sample_line(ns, "_link_qdisc_loss_pct"@, id, k.qdisc_type@, v@),
            ))
        }),
{
    broadcast use lemma_contains_in_concat;

    reveal(link_text);
    let id = k.link_id@;
    let lid = "link_id"@;
    lemma_one_label_sample(ns, "_link_bytes_sent"@, lid, id, k.bytes_sent@, "Bytes sent on this link"@);
    lemma_one_label_sample(
        ns,
        "_link_bytes_received"@,
        lid,
        id,
        k.bytes_received@,
        "Bytes received on this link"@,
    );
    lemma_one_label_sample(ns, "_link_rtt_ms"@, lid, id, k.rtt_ms@, "Round-trip time for this link"@);
    lemma_one_label_sample(ns, "_link_jitter_ms"@, lid, id, k.jitter_ms@, "Jitter for this link"@);
    lemma_one_label_sample(
        ns,
        "_link_loss_rate"@,
        lid,
        id,
        k.loss_rate@,
        "Packet loss rate for this link"@,
    );
    lemma_one_label_sample(
        ns,
        "_link_throughput_bps"@,
        lid,
        id,
        k.throughput_bps@,
        "Throughput for this link"@,
    );
    lemma_one_label_sample(
        ns,
        "_link_queue_depth"@,
        lid,
        id,
        k.queue_depth@,
        "Current queue depth for this link"@,
    );
    lemma_one_label_sample(
        ns,
        "_link_queue_drops"@,
        lid,
        id,
        k.queue_drops@,
        "Queue drops for this link"@,
    );
    lemma_qdisc_sample(
        ns,
        "_link_qdisc_delay_ms"@,
        k.qdisc_delay_ms,
        k,
        "Configured delay for this link's qdisc"@,
    );
    lemma_qdisc_sample(
        ns,
        "_link_qdisc_rate_kbps"@,
        k.qdisc_rate_kbps,
        k,
        "Configured rate for this link's qdisc"@,
    );
    lemma_qdisc_sample(
        ns,
        "_link_qdisc_loss_pct"@,
        k.qdisc_loss_pct,
        k,
        "Configured loss percentage for this link's qdisc"@,
    );
}

/// Every simulation gauge carries its own field of the simulation.
pub proof fn lemma_simulation_gauges_carry_their_fields(ns: Seq<char>, sim: RenderedSimulation)
    ensures
        ({
            let t = simulation_text(ns, sim);
            let id = sim.simulation_id@;
            let sid = "simulation_id"@;
            &&& seq_contains(t, sample_line(ns, "_simulation_duration_ms"@, sid, id, sim.duration_ms@))
            &&& seq_contains(t, sample_line(ns, "_total_bytes_sent"@, sid, id, sim.total_bytes_sent@))
            &&& seq_contains(
                t,
                sample_line(ns, "_total_throughput_bps"@, sid, id, sim.total_throughput_bps@),
            )
            &&& seq_contains(t, sample_line(ns, "_avg_rtt_ms"@, sid, id, sim.avg_rtt_ms@))
            &&& seq_contains(t, sample_line(ns, "_avg_loss_rate"@, sid, id, sim.avg_loss_rate@))
        }),
{
    broadcast use lemma_contains_in_concat;

    let id = sim.simulation_id@;
    let sid = "simulation_id"@;
    lemma_one_label_sample(
        ns,
        "_simulation_duration_ms"@,
        sid,
        id,
        sim.duration_ms@,
        "Total simulation duration in milliseconds"@,
    );
    lemma_one_label_sample(
        ns,
        "_total_bytes_sent"@,
        sid,
        id,
        sim.total_bytes_sent@,
        "Total bytes sent across all links"@,
    );
    lemma_one_label_sample(
        ns,
        "_total_throughput_bps"@,
        sid,
        id,
        sim.total_throughput_bps@,
        "Total throughput in bits per second"@,
    );
    lemma_one_label_sample(
        ns,
        "_avg_rtt_ms"@,
        sid,
        id,
        sim.avg_rtt_ms@,
        "Average round-trip time across all links"@,
    );
    lemma_one_label_sample(
        ns,
        "_avg_loss_rate"@,
        sid,
        id,
        sim.avg_loss_rate@,
        "Average packet loss rate across all links"@,
    );
}

/// The whole exposition holds the sample lines of every link, each with that
/// link's own values: whatever holds of `link_text` of a link holds of the
/// export of a snapshot that lists it.
pub proof fn lemma_export_holds_each_link(ns: Seq<char>, snap: RenderedSnapshot, i: int, needle: Seq<char>)
    requires
        0 <= i < snap.links@.len(),
        seq_contains(link_text(ns, snap.links@[i]), needle),
    ensures
        seq_contains(prometheus_text(ns, snap), needle),
{
    broadcast use lemma_contains_in_concat;

    let links = snap.links@;
    let a = links.take(i + 1);
    let b = links.skip(i + 1);
    assert(links =~= a + b);
    lemma_links_text_concat(ns, a, b);
    assert(a.drop_last() =~= links.take(i));
    assert(a.last() == links[i]);
    assert(links_text(ns, a) == links_text(ns, a.drop_last()) + link_text(ns, links[i]));
}

impl PrometheusExporter {
    /// An exporter with namespace `rist_simulation`.
    pub fn new() -> (r: Result<Self, ObservabilityError>)
        ensures
            r matches Ok(e) && e@ == "rist_simulation"@,
    {
        Ok(PrometheusExporter { namespace: lit("rist_simulation") })
    }

    /// An exporter with the given namespace.
    pub fn with_namespace(namespace: String) -> (e: Self)
        ensures
            e@ == namespace@,
    {
        PrometheusExporter { namespace }
    }

    /// One gauge with its comments, its labels and its rendered value.
    pub fn format_prometheus_line(
        &self,
        name: &str,
        value: &str,
        labels: &[(&str, &str)],
        help: &str,
    ) -> (r: String)
        ensures
            r@ == prom_line(self@, name@, value@, label_views(labels@), help@),
    {
        let mut result = lit("# HELP ");
        push_str(&mut result, self.namespace.as_str());
        push_str(&mut result, name);
        push_str(&mut result, " ");
        push_str(&mut result, help);
        push_str(&mut result, "\n");
        push_str(&mut result, "# TYPE ");
        push_str(&mut result, self.namespace.as_str());
        push_str(&mut result, name);
        push_str(&mut result, " gauge\n");
        push_str(&mut result, self.namespace.as_str());
        push_str(&mut result, name);
        let ghost lv = label_views(labels@);
        if labels.len() > 0 {
            push_str(&mut result, "{");
            let ghost before = result@;
            let mut i: usize = 0;
            while i < labels.len()
                invariant
                    0 < labels@.len(),
                    i <= labels@.len(),
                    lv == label_views(labels@),
                    i == 0 ==> result@ == before,
                    i > 0 ==> result@ == before + joined_labels(lv.take(i as int)),
                decreases labels.len() - i,
            {
                let (k, v) = labels[i];
                if i > 0 {
                    push_str(&mut result, ",");
                }
                push_str(&mut result, k);
                push_str(&mut result, "=\"");
                push_str(&mut result, v);
                push_str(&mut result, "\"");
                proof {
                    assert(lv.take(i as int + 1).drop_last() =~= lv.take(i as int));
                    assert(lv.take(i as int + 1).last() == (k@, v@));
                    if i == 0 {
                        assert(lv.take(1).len() == 1);
                    }
                }
                i = i + 1;
            }
            assert(lv.take(labels@.len() as int) =~= lv);
            push_str(&mut result, "}");
        }
        push_str(&mut result, " ");
        push_str(&mut result, value);
        push_str(&mut result, "\n");
        result
    }

    fn push_qdisc_gauge(
        &self,
        out: &mut String,
        name: &str,
        value: &Option<String>,
        k: &RenderedLink,
        help: &str,
    )
        ensures
            final(out)@ == old(out)@ + qdisc_gauge(self@, name@, *value, *k, help@),
    {
        if let Some(v) = value {
            let labels = [("link_id", k.link_id.as_str()), ("qdisc", k.qdisc_type.as_str())];
            assert(label_views(labels@) =~= seq![("link_id"@, k.link_id@), ("qdisc"@, k.qdisc_type@)]);
            let line = self.format_prometheus_line(name, v.as_str(), &labels, help);
            push_str(out, line.as_str());
        }
    }

    fn link_lines(&self, k: &RenderedLink) -> (r: String)
        ensures
            r@ == link_text(self@, *k),
    {
        reveal(link_text);
        let labels = [("link_id", k.link_id.as_str())];
        assert(label_views(labels@) =~= seq![("link_id"@, k.link_id@)]);
        let mut out = self.format_prometheus_line(
            "_link_bytes_sent",
            k.bytes_sent.as_str(),
            &labels,
            "Bytes sent on this link",
        );
        let s = self.format_prometheus_line(
            "_link_bytes_received",
            k.bytes_received.as_str(),
            &labels,
            "Bytes received on this link",
        );
        push_str(&mut out, s.as_str());
        let s = self.format_prometheus_line(
            "_link_rtt_ms",
            k.rtt_ms.as_str(),
            &labels,
            "Round-trip time for this link",
        );
        push_str(&mut out, s.as_str());
        let s = self.format_prometheus_line(
            "_link_jitter_ms",
            k.jitter_ms.as_str(),
            &labels,
            "Jitter for this link",
        );
        push_str(&mut out, s.as_str());
        let s = self.format_prometheus_line(
            "_link_loss_rate",
            k.loss_rate.as_str(),
            &labels,
            "Packet loss rate for this link",
        );
        push_str(&mut out, s.as_str());
        let s = self.format_prometheus_line(
            "_link_throughput_bps",
            k.throughput_bps.as_str(),
            &labels,
            "Throughput for this link",
        );
        push_str(&mut out, s.as_str());
        let s = self.format_prometheus_line(
            "_link_queue_depth",
            k.queue_depth.as_str(),
            &labels,
            "Current queue depth for this link",
        );
        push_str(&mut out, s.as_str());
        let s = self.format_prometheus_line(
            "_link_queue_drops",
            k.queue_drops.as_str(),
            &labels,
            "Queue drops for this link",
        );
        push_str(&mut out, s.as_str());
        self.push_qdisc_gauge(
            &mut out,
            "_link_qdisc_delay_ms",
            &k.qdisc_delay_ms,
            k,
            "Configured delay for this link's qdisc",
        );
        self.push_qdisc_gauge(
            &mut out,
            "_link_qdisc_rate_kbps",
            &k.qdisc_rate_kbps,
            k,
            "Configured rate for this link's qdisc",
        );
        self.push_qdisc_gauge(
            &mut out,
            "_link_qdisc_loss_pct",
            &k.qdisc_loss_pct,
            k,
            "Configured loss percentage for this link's qdisc",
        );
        out
    }

    /// The exposition of a snapshot: the simulation-wide gauges, then the
    /// gauges of each link in order.
    pub fn export(&self, snapshot: &RenderedSnapshot) -> (r: String)
        ensures
            r@ == prometheus_text(self@, *snapshot),
    {
        let sim = &snapshot.simulation;
        let labels = [("simulation_id", sim.simulation_id.as_str())];
        assert(label_views(labels@) =~= seq![("simulation_id"@, sim.simulation_id@)]);
        let mut out = self.format_prometheus_line(
            "_simulation_duration_ms",
            sim.duration_ms.as_str(),
            &labels,
            "Total simulation duration in milliseconds",
        );
        let s = self.format_prometheus_line(
            "_total_bytes_sent",
            sim.total_bytes_sent.as_str(),
            &labels,
            "Total bytes sent across all links",
        );
        push_str(&mut out, s.as_str());
        let s = self.format_prometheus_line(
            "_total_throughput_bps",
            sim.total_throughput_bps.as_str(),
            &labels,
            "Total throughput in bits per second",
        );
        push_str(&mut out, s.as_str());
        let s = self.format_prometheus_line(
            "_avg_rtt_ms",
            sim.avg_rtt_ms.as_str(),
            &labels,
            "Average round-trip time across all links",
        );
        push_str(&mut out, s.as_str());
        let s = self.format_prometheus_line(
            "_avg_loss_rate",
            sim.avg_loss_rate.as_str(),
            &labels,
            "Average packet loss rate across all links",
        );
        push_str(&mut out, s.as_str());
        let ghost head = out@;
        let links = &snapshot.links;
        let mut i: usize = 0;
        while i < links.len()
            invariant
                i <= links@.len(),
                out@ == head + links_text(self@, links@.take(i as int)),
            decreases links.len() - i,
        {
            let t = self.link_lines(&links[i]);
            push_str(&mut out, t.as_str());
            proof {
                assert(links@.take(i as int + 1).drop_last() =~= links@.take(i as int));
            }
            i = i + 1;
        }
        assert(links@.take(links@.len() as int) =~= links@);
        out
    }
}

/// Exports snapshots as JSON, compact or pretty-printed.
pub struct JsonExporter {
    pub pretty: bool,
}

impl JsonExporter {
    /// A compact JSON exporter.
    pub fn new() -> (e: Self)
        ensures
            !e.pretty,
    {
        JsonExporter { pretty: false }
    }

    /// A pretty-printing JSON exporter.
    pub fn pretty() -> (e: Self)
        ensures
            e.pretty,
    {
        JsonExporter { pretty: true }
    }
}

/// Exports snapshots as CSV, one row per link, with or without a header row.
pub struct CsvExporter {
    pub include_headers: bool,
}

/// Values of one link as a CSV row shows them: counters as integers, the
/// floating-point values already rendered (two decimals for RTT and jitter,
/// four for the loss rate), and empty cells for unset qdisc values.
#[derive(Debug)]
pub struct CsvLink {
    pub link_id: String,
    pub bytes_sent: u64,
    pub bytes_received: u64,
    pub packets_sent: u64,
    pub packets_received: u64,
    pub packets_dropped: u64,
    pub rtt_ms: String,
    pub jitter_ms: String,
    pub loss_rate: String,
    pub throughput_bps: u64,
    pub queue_depth: u64,
    pub queue_drops: u64,
    pub qdisc_type: String,
    pub qdisc_delay_ms: Option<u64>,
    pub qdisc_rate_kbps: Option<u64>,
    pub qdisc_loss_pct: Option<String>,
}

/// A snapshot as the CSV exporter reads it: its rendered timestamp, the
/// simulation id and the links.
#[derive(Debug)]
pub struct CsvSnapshot {
    pub timestamp: String,
    pub simulation_id: String,
    pub links: Vec<CsvLink>,
}

/// The column names, in order.
pub open spec fn csv_columns() -> Seq<Seq<char>> {
    seq![
        "timestamp"@,
        "simulation_id"@,
        "link_id"@,
        "bytes_sent"@,
        "bytes_received"@,
        "packets_sent"@,
        "packets_received"@,
        "packets_dropped"@,
        "rtt_ms"@,
        "jitter_ms"@,
        "loss_rate"@,
        "throughput_bps"@,
        "queue_depth"@,
        "queue_drops"@,
        "qdisc_type"@,
        "qdisc_delay_ms"@,
        "qdisc_rate_kbps"@,
        "qdisc_loss_pct"@,
    ]
}

/// Names separated by commas.
pub open spec fn comma_joined(names: Seq<Seq<char>>) -> Seq<char>
    decreases names.len(),
{
    if names.len() == 0 {
        Seq::empty()
    } else if names.len() == 1 {
        names[0]
    } else {
        comma_joined(names.drop_last()) + ","@ + names.last()
    }
}

/// The header row: the column names separated by commas, then a line break.
pub open spec fn csv_header() -> Seq<char> {
    comma_joined(csv_columns()) + "\n"@
}

/// An optional integer cell.
pub open spec fn opt_int_cell(v: Option<u64>) -> Seq<char> {
    match v {
        Some(n) => decimal(n as nat),
        None => Seq::empty(),
    }
}

/// An optional text cell.
pub open spec fn opt_text_cell(v: Option<String>) -> Seq<char> {
    match v {
        Some(t) => t@,
        None => Seq::empty(),
    }
}

/// The row of one link.
pub open spec fn csv_row(ts: Seq<char>, sim: Seq<char>, k: CsvLink) -> Seq<char> {
    ts + ","@ + sim + ","@ + k.link_id@ + ","@ + decimal(k.bytes_sent as nat) + ","@ + decimal(
        k.bytes_received as nat,
    ) + ","@ + decimal(k.packets_sent as nat) + ","@ + decimal(k.packets_received as nat) + ","@
        + decimal(k.packets_dropped as nat) + ","@ + k.rtt_ms@ + ","@ + k.jitter_ms@ + ","@
        + k.loss_rate@ + ","@ + decimal(k.throughput_bps as nat) + ","@ + decimal(
        k.queue_depth as nat,
    ) + ","@ + decimal(k.queue_drops as nat) + ","@ + k.qdisc_type@ + ","@ + opt_int_cell(
        k.qdisc_delay_ms,
    ) + ","@ + opt_int_cell(k.qdisc_rate_kbps) + ","@ + opt_text_cell(k.qdisc_loss_pct) + "\n"@
}

/// The value of column `name` in the row of link `k` of a snapshot taken at
/// `ts` in simulation `sim`: each column holds the field of its name
/// (decimal for counts, empty for an unset qdisc value).
#[verifier::opaque]
pub open spec fn csv_cell(name: Seq<char>, ts: Seq<char>, sim: Seq<char>, k: CsvLink) -> Seq<char> {
    if name == "timestamp"@ {
        ts
    } else if name == "simulation_id"@ {
        sim
    } else if name == "link_id"@ {
        k.link_id@
    } else if name == "bytes_sent"@ {
        decimal(k.bytes_sent as nat)
    } else if name == "bytes_received"@ {
        decimal(k.bytes_received as nat)
    } else if name == "packets_sent"@ {
        decimal(k.packets_sent as nat)
    } else if name == "packets_received"@ {
        decimal(k.packets_received as nat)
    } else if name == "packets_dropped"@ {
        decimal(k.packets_dropped as nat)
    } else if name == "rtt_ms"@ {
        k.rtt_ms@
    } else if name == "jitter_ms"@ {
        k.jitter_ms@
    } else if name == "loss_rate"@ {
        k.loss_rate@
    } else if name == "throughput_bps"@ {
        decimal(k.throughput_bps as nat)
    } else if name == "queue_depth"@ {
        decimal(k.queue_depth as nat)
    } else if name == "queue_drops"@ {
        decimal(k.queue_drops as nat)
    } else if name == "qdisc_type"@ {
        k.qdisc_type@
    } else if name == "qdisc_delay_ms"@ {
        opt_int_cell(k.qdisc_delay_ms)
    } else if name == "qdisc_rate_kbps"@ {
        opt_int_cell(k.qdisc_rate_kbps)
    } else if name == "qdisc_loss_pct"@ {
        opt_text_cell(k.qdisc_loss_pct)
    } else {
        Seq::empty()
    }
}

#[verifier::spinoff_prover]
#[verifier::rlimit(60)]
proof fn lemma_csv_cells(ts: Seq<char>, sim: Seq<char>, k: CsvLink)
    ensures
        csv_cell("timestamp"@, ts, sim, k) == ts,
        csv_cell("simulation_id"@, ts, sim, k) == sim,
        csv_cell("link_id"@, ts, sim, k) == k.link_id@,
        csv_cell("bytes_sent"@, ts, sim, k) == decimal(k.bytes_sent as nat),
        csv_cell("bytes_received"@, ts, sim, k) == decimal(k.bytes_received as nat),
        csv_cell("packets_sent"@, ts, sim, k) == decimal(k.packets_sent as nat),
        csv_cell("packets_received"@, ts, sim, k) == decimal(k.packets_received as nat),
        csv_cell("packets_dropped"@, ts, sim, k) == decimal(k.packets_dropped as nat),
        csv_cell("rtt_ms"@, ts, sim, k) == k.rtt_ms@,
        csv_cell("jitter_ms"@, ts, sim, k) == k.jitter_ms@,
        csv_cell("loss_rate"@, ts, sim, k) == k.loss_rate@,
        csv_cell("throughput_bps"@, ts, sim, k) == decimal(k.throughput_bps as nat),
        csv_cell("queue_depth"@, ts, sim, k) == decimal(k.queue_depth as nat),
        csv_cell("queue_drops"@, ts, sim, k) == decimal(k.queue_drops as nat),
        csv_cell("qdisc_type"@, ts, sim, k) == k.qdisc_type@,
        csv_cell("qdisc_delay_ms"@, ts, sim, k) == opt_int_cell(k.qdisc_delay_ms),
        csv_cell("qdisc_rate_kbps"@, ts, sim, k) == opt_int_cell(k.qdisc_rate_kbps),
        csv_cell("qdisc_loss_pct"@, ts, sim, k) == opt_text_cell(k.qdisc_loss_pct),
{
    reveal(csv_cell);
    reveal_strlit("timestamp");
    reveal_strlit("simulation_id");
    reveal_strlit("link_id");
    reveal_strlit("bytes_sent");
    reveal_strlit("bytes_received");
    reveal_strlit("packets_sent");
    reveal_strlit("packets_received");
    reveal_strlit("packets_dropped");
    reveal_strlit("rtt_ms");
    reveal_strlit("jitter_ms");
    reveal_strlit("loss_rate");
    reveal_strlit("throughput_bps");
    reveal_strlit("queue_depth");
    reveal_strlit("queue_drops");
    reveal_strlit("qdisc_type");
    reveal_strlit("qdisc_delay_ms");
    reveal_strlit("qdisc_rate_kbps");
    reveal_strlit("qdisc_loss_pct");
    assert("simulation_id"@.len() != "timestamp"@.len());
    assert("link_id"@.len() != "timestamp"@.len());
    assert("link_id"@.len() != "simulation_id"@.len());
    assert("bytes_sent"@.len() != "timestamp"@.len());
    assert("bytes_sent"@.len() != "simulation_id"@.len());
    assert("bytes_sent"@.len() != "link_id"@.len());
    assert("bytes_received"@.len() != "timestamp"@.len());
    assert("bytes_received"@.len() != "simulation_id"@.len());
    assert("bytes_received"@.len() != "link_id"@.len());
    assert("bytes_received"@.len() != "bytes_sent"@.len());
    assert("packets_sent"@.len() != "timestamp"@.len());
    assert("packets_sent"@.len() != "simulation_id"@.len());
    assert("packets_sent"@.len() != "link_id"@.len());
    assert("packets_sent"@.len() != "bytes_sent"@.len());
    assert("packets_sent"@.len() != "bytes_received"@.len());
    assert("packets_received"@.len() != "timestamp"@.len());
    assert("packets_received"@.len() != "simulation_id"@.len());
    assert("packets_received"@.len() != "link_id"@.len());
    assert("packets_received"@.len() != "bytes_sent"@.len());
    assert("packets_received"@.len() != "bytes_received"@.len());
    assert("packets_received"@.len() != "packets_sent"@.len());
    assert("packets_dropped"@.len() != "timestamp"@.len());
    assert("packets_dropped"@.len() != "simulation_id"@.len());
    assert("packets_dropped"@.len() != "link_id"@.len());
    assert("packets_dropped"@.len() != "bytes_sent"@.len());
    assert("packets_dropped"@.len() != "bytes_received"@.len());
    assert("packets_dropped"@.len() != "packets_sent"@.len());
    assert("packets_dropped"@.len() != "packets_received"@.len());
    assert("rtt_ms"@.len() != "timestamp"@.len());
    assert("rtt_ms"@.len() != "simulation_id"@.len());
    assert("rtt_ms"@.len() != "link_id"@.len());
    assert("rtt_ms"@.len() != "bytes_sent"@.len());
    assert("rtt_ms"@.len() != "bytes_received"@.len());
    assert("rtt_ms"@.len() != "packets_sent"@.len());
    assert("rtt_ms"@.len() != "packets_received"@.len());
    assert("rtt_ms"@.len() != "packets_dropped"@.len());
    assert("jitter_ms"@[0] != "timestamp"@[0]);
    assert("jitter_ms"@.len() != "simulation_id"@.len());
    assert("jitter_ms"@.len() != "link_id"@.len());
    assert("jitter_ms"@.len() != "bytes_sent"@.len());
    assert("jitter_ms"@.len() != "bytes_received"@.len());
    assert("jitter_ms"@.len() != "packets_sent"@.len());
    assert("jitter_ms"@.len() != "packets_received"@.len());
    assert("jitter_ms"@.len() != "packets_dropped"@.len());
    assert("jitter_ms"@.len() != "rtt_ms"@.len());
    assert("loss_rate"@[0] != "timestamp"@[0]);
    assert("loss_rate"@.len() != "simulation_id"@.len());
    assert("loss_rate"@.len() != "link_id"@.len());
    assert("loss_rate"@.len() != "bytes_sent"@.len());
    assert("loss_rate"@.len() != "bytes_received"@.len());
    assert("loss_rate"@.len() != "packets_sent"@.len());
    assert("loss_rate"@.len() != "packets_received"@.len());
    assert("loss_rate"@.len() != "packets_dropped"@.len());
    assert("loss_rate"@.len() != "rtt_ms"@.len());
    assert("loss_rate"@[0] != "jitter_ms"@[0]);
    assert("throughput_bps"@.len() != "timestamp"@.len());
    assert("throughput_bps"@.len() != "simulation_id"@.len());
    assert("throughput_bps"@.len() != "link_id"@.len());
    assert("throughput_bps"@.len() != "bytes_sent"@.len());
    assert("throughput_bps"@[0] != "bytes_received"@[0]);
    assert("throughput_bps"@.len() != "packets_sent"@.len());
    assert("throughput_bps"@.len() != "packets_received"@.len());
    assert("throughput_bps"@.len() != "packets_dropped"@.len());
    assert("throughput_bps"@.len() != "rtt_ms"@.len());
    assert("throughput_bps"@.len() != "jitter_ms"@.len());
    assert("throughput_bps"@.len() != "loss_rate"@.len());
    assert("queue_depth"@.len() != "timestamp"@.len());
    assert("queue_depth"@.len() != "simulation_id"@.len());
    assert("queue_depth"@.len() != "link_id"@.len());
    assert("queue_depth"@.len() != "bytes_sent"@.len());
    assert("queue_depth"@.len() != "bytes_received"@.len());
    assert("queue_depth"@.len() != "packets_sent"@.len());
    assert("queue_depth"@.len() != "packets_received"@.len());
    assert("queue_depth"@.len() != "packets_dropped"@.len());
    assert("queue_depth"@.len() != "rtt_ms"@.len());
    assert("queue_depth"@.len() != "jitter_ms"@.len());
    assert("queue_depth"@.len() != "loss_rate"@.len());
    assert("queue_depth"@.len() != "throughput_bps"@.len());
    assert("queue_drops"@.len() != "timestamp"@.len());
    assert("queue_drops"@.len() != "simulation_id"@.len());
    assert("queue_drops"@.len() != "link_id"@.len());
    assert("queue_drops"@.len() != "bytes_sent"@.len());
    assert("queue_drops"@.len() != "bytes_received"@.len());
    assert("queue_drops"@.len() != "packets_sent"@.len());
    assert("queue_drops"@.len() != "packets_received"@.len());
    assert("queue_drops"@.len() != "packets_dropped"@.len());
    assert("queue_drops"@.len() != "rtt_ms"@.len());
    assert("queue_drops"@.len() != "jitter_ms"@.len());
    assert("queue_drops"@.len() != "loss_rate"@.len());
    assert("queue_drops"@.len() != "throughput_bps"@.len());
    assert("queue_drops"@[7] != "queue_depth"@[7]);
    assert("qdisc_type"@.len() != "timestamp"@.len());
    assert("qdisc_type"@.len() != "simulation_id"@.len());
    assert("qdisc_type"@.len() != "link_id"@.len());
    assert("qdisc_type"@[0] != "bytes_sent"@[0]);
    assert("qdisc_type"@.len() != "bytes_received"@.len());
    assert("qdisc_type"@.len() != "packets_sent"@.len());
    assert("qdisc_type"@.len() != "packets_received"@.len());
    assert("qdisc_type"@.len() != "packets_dropped"@.len());
    assert("qdisc_type"@.len() != "rtt_ms"@.len());
    assert("qdisc_type"@.len() != "jitter_ms"@.len());
    assert("qdisc_type"@.len() != "loss_rate"@.len());
    assert("qdisc_type"@.len() != "throughput_bps"@.len());
    assert("qdisc_type"@.len() != "queue_depth"@.len());
    assert("qdisc_type"@.len() != "queue_drops"@.len());
    assert("qdisc_delay_ms"@.len() != "timestamp"@.len());
    assert("qdisc_delay_ms"@.len() != "simulation_id"@.len());
    assert("qdisc_delay_ms"@.len() != "link_id"@.len());
    assert("qdisc_delay_ms"@.len() != "bytes_sent"@.len());
    assert("qdisc_delay_ms"@[0] != "bytes_received"@[0]);
    assert("qdisc_delay_ms"@.len() != "packets_sent"@.len());
    assert("qdisc_delay_ms"@.len() != "packets_received"@.len());
    assert("qdisc_delay_ms"@.len() != "packets_dropped"@.len());
    assert("qdisc_delay_ms"@.len() != "rtt_ms"@.len());
    assert("qdisc_delay_ms"@.len() != "jitter_ms"@.len());
    assert("qdisc_delay_ms"@.len() != "loss_rate"@.len());
    assert("qdisc_delay_ms"@[0] != "throughput_bps"@[0]);
    assert("qdisc_delay_ms"@.len() != "queue_depth"@.len());
    assert("qdisc_delay_ms"@.len() != "queue_drops"@.len());
    assert("qdisc_delay_ms"@.len() != "qdisc_type"@.len());
    assert("qdisc_rate_kbps"@.len() != "timestamp"@.len());
    assert("qdisc_rate_kbps"@.len() != "simulation_id"@.len());
    assert("qdisc_rate_kbps"@.len() != "link_id"@.len());
    assert("qdisc_rate_kbps"@.len() != "bytes_sent"@.len());
    assert("qdisc_rate_kbps"@.len() != "bytes_received"@.len());
    assert("qdisc_rate_kbps"@.len() != "packets_sent"@.len());
    assert("qdisc_rate_kbps"@.len() != "packets_received"@.len());
    assert("qdisc_rate_kbps"@[0] != "packets_dropped"@[0]);
    assert("qdisc_rate_kbps"@.len() != "rtt_ms"@.len());
    assert("qdisc_rate_kbps"@.len() != "jitter_ms"@.len());
    assert("qdisc_rate_kbps"@.len() != "loss_rate"@.len());
    assert("qdisc_rate_kbps"@.len() != "throughput_bps"@.len());
    assert("qdisc_rate_kbps"@.len() != "queue_depth"@.len());
    assert("qdisc_rate_kbps"@.len() != "queue_drops"@.len());
    assert("qdisc_rate_kbps"@.len() != "qdisc_type"@.len());
    assert("qdisc_rate_kbps"@.len() != "qdisc_delay_ms"@.len());
    assert("qdisc_loss_pct"@.len() != "timestamp"@.len());
    assert("qdisc_loss_pct"@.len() != "simulation_id"@.len());
    assert("qdisc_loss_pct"@.len() != "link_id"@.len());
    assert("qdisc_loss_pct"@.len() != "bytes_sent"@.len());
    assert("qdisc_loss_pct"@[0] != "bytes_received"@[0]);
    assert("qdisc_loss_pct"@.len() != "packets_sent"@.len());
    assert("qdisc_loss_pct"@.len() != "packets_received"@.len());
    assert("qdisc_loss_pct"@.len() != "packets_dropped"@.len());
    assert("qdisc_loss_pct"@.len() != "rtt_ms"@.len());
    assert("qdisc_loss_pct"@.len() != "jitter_ms"@.len());
    assert("qdisc_loss_pct"@.len() != "loss_rate"@.len());
    assert("qdisc_loss_pct"@[0] != "throughput_bps"@[0]);
    assert("qdisc_loss_pct"@.len() != "queue_depth"@.len());
    assert("qdisc_loss_pct"@.len() != "queue_drops"@.len());
    assert("qdisc_loss_pct"@.len() != "qdisc_type"@.len());
    assert("qdisc_loss_pct"@[6] != "qdisc_delay_ms"@[6]);
    assert("qdisc_loss_pct"@.len() != "qdisc_rate_kbps"@.len());
}

/// Each column of a row holds the field the header names for it: the row of
/// link `k` is, column by column in header order, the value of that column,
/// separated by commas and ended by a line break.
#[verifier::spinoff_prover]
#[verifier::rlimit(60)]
pub proof fn lemma_csv_row_matches_header(ts: Seq<char>, sim: Seq<char>, k: CsvLink)
    ensures
        csv_row(ts, sim, k) == comma_joined(
            Seq::new(18, |i: int| csv_cell(csv_columns()[i], ts, sim, k)),
        ) + "\n"@,
{
    lemma_csv_cells(ts, sim, k);
    let cells = Seq::new(18, |i: int| csv_cell(csv_columns()[i], ts, sim, k));
    assert(cells[0] == ts) by {
        assert(csv_columns()[0] == "timestamp"@);
    }
    assert(cells[1] == sim) by {
        assert(csv_columns()[1] == "simulation_id"@);
    }
    assert(cells[2] == k.link_id@) by {
        assert(csv_columns()[2] == "link_id"@);
    }
    assert(cells[3] == decimal(k.bytes_sent as nat)) by {
        assert(csv_columns()[3] == "bytes_sent"@);
    }
    assert(cells[4] == decimal(k.bytes_received as nat)) by {
        assert(csv_columns()[4] == "bytes_received"@);
    }
    assert(cells[5] == decimal(k.packets_sent as nat)) by {
        assert(csv_columns()[5] == "packets_sent"@);
    }
    assert(cells[6] == decimal(k.packets_received as nat)) by {
        assert(csv_columns()[6] == "packets_received"@);
    }
    assert(cells[7] == decimal(k.packets_dropped as nat)) by {
        assert(csv_columns()[7] == "packets_dropped"@);
    }
    assert(cells[8] == k.rtt_ms@) by {
        assert(csv_columns()[8] == "rtt_ms"@);
    }
    assert(cells[9] == k.jitter_ms@) by {
        assert(csv_columns()[9] == "jitter_ms"@);
    }
    assert(cells[10] == k.loss_rate@) by {
        assert(csv_columns()[10] == "loss_rate"@);
    }
    assert(cells[11] == decimal(k.throughput_bps as nat)) by {
        assert(csv_columns()[11] == "throughput_bps"@);
    }
    assert(cells[12] == decimal(k.queue_depth as nat)) by {
        assert(csv_columns()[12] == "queue_depth"@);
    }
    assert(cells[13] == decimal(k.queue_drops as nat)) by {
        assert(csv_columns()[13] == "queue_drops"@);
    }
    assert(cells[14] == k.qdisc_type@) by {
        assert(csv_columns()[14] == "qdisc_type"@);
    }
    assert(cells[15] == opt_int_cell(k.qdisc_delay_ms)) by {
        assert(csv_columns()[15] == "qdisc_delay_ms"@);
    }
    assert(cells[16] == opt_int_cell(k.qdisc_rate_kbps)) by {
        assert(csv_columns()[16] == "qdisc_rate_kbps"@);
    }
    assert(cells[17] == opt_text_cell(k.qdisc_loss_pct)) by {
        assert(csv_columns()[17] == "qdisc_loss_pct"@);
    }
    assert(cells.take(2).drop_last() =~= cells.take(1));
    assert(comma_joined(cells.take(2)) == comma_joined(cells.take(1)) + ","@ + cells[1]);
    assert(cells.take(3).drop_last() =~= cells.take(2));
    assert(comma_joined(cells.take(3)) == comma_joined(cells.take(2)) + ","@ + cells[2]);
    assert(cells.take(4).drop_last() =~= cells.take(3));
    assert(comma_joined(cells.take(4)) == comma_joined(cells.take(3)) + ","@ + cells[3]);
    assert(cells.take(5).drop_last() =~= cells.take(4));
    assert(comma_joined(cells.take(5)) == comma_joined(cells.take(4)) + ","@ + cells[4]);
    assert(cells.take(6).drop_last() =~= cells.take(5));
    assert(comma_joined(cells.take(6)) == comma_joined(cells.take(5)) + ","@ + cells[5]);
    assert(cells.take(7).drop_last() =~= cells.take(6));
    assert(comma_joined(cells.take(7)) == comma_joined(cells.take(6)) + ","@ + cells[6]);
    assert(cells.take(8).drop_last() =~= cells.take(7));
    assert(comma_joined(cells.take(8)) == comma_joined(cells.take(7)) + ","@ + cells[7]);
    assert(cells.take(9).drop_last() =~= cells.take(8));
    assert(comma_joined(cells.take(9)) == comma_joined(cells.take(8)) + ","@ + cells[8]);
    assert(cells.take(10).drop_last() =~= cells.take(9));
    assert(comma_joined(cells.take(10)) == comma_joined(cells.take(9)) + ","@ + cells[9]);
    assert(cells.take(11).drop_last() =~= cells.take(10));
    assert(comma_joined(cells.take(11)) == comma_joined(cells.take(10)) + ","@ + cells[10]);
    assert(cells.take(12).drop_last() =~= cells.take(11));
    assert(comma_joined(cells.take(12)) == comma_joined(cells.take(11)) + ","@ + cells[11]);
    assert(cells.take(13).drop_last() =~= cells.take(12));
    assert(comma_joined(cells.take(13)) == comma_joined(cells.take(12)) + ","@ + cells[12]);
    assert(cells.take(14).drop_last() =~= cells.take(13));
    assert(comma_joined(cells.take(14)) == comma_joined(cells.take(13)) + ","@ + cells[13]);
    assert(cells.take(15).drop_last() =~= cells.take(14));
    assert(comma_joined(cells.take(15)) == comma_joined(cells.take(14)) + ","@ + cells[14]);
    assert(cells.take(16).drop_last() =~= cells.take(15));
    assert(comma_joined(cells.take(16)) == comma_joined(cells.take(15)) + ","@ + cells[15]);
    assert(cells.take(17).drop_last() =~= cells.take(16));
    assert(comma_joined(cells.take(17)) == comma_joined(cells.take(16)) + ","@ + cells[16]);
    assert(cells.take(18).drop_last() =~= cells.take(17));
    assert(comma_joined(cells.take(18)) == comma_joined(cells.take(17)) + ","@ + cells[17]);
    assert(cells.take(18) =~= cells);
    assert(comma_joined(cells.take(1)) == cells[0]);
    assert(comma_joined(cells) == comma_joined(cells.take(18)));
}

/// The rows of all links, in order.
pub open spec fn csv_rows(ts: Seq<char>, sim: Seq<char>, links: Seq<CsvLink>) -> Seq<char>
    decreases links.len(),
{
    if links.len() == 0 {
        Seq::empty()
    } else {
        csv_rows(ts, sim, links.drop_last()) + csv_row(ts, sim, links.last())
    }
}

/// CSV rows are per link: the rows of two runs of links are the rows of
/// each run one after the other.
#[verifier::spinoff_prover]
pub proof fn lemma_csv_rows_concat(ts: Seq<char>, sim: Seq<char>, a: Seq<CsvLink>, b: Seq<CsvLink>)
    ensures
        csv_rows(ts, sim, a + b) == csv_rows(ts, sim, a) + csv_rows(ts, sim, b),
    decreases b.len(),
{
    if b.len() == 0 {
        assert(a + b =~= a);
        assert(csv_rows(ts, sim, a) + csv_rows(ts, sim, b) =~= csv_rows(ts, sim, a));
    } else {
        lemma_csv_rows_concat(ts, sim, a, b.drop_last());
        assert((a + b).drop_last() =~= a + b.drop_last());
        assert((a + b).last() == b.last());
        assert(csv_rows(ts, sim, a + b) =~= csv_rows(ts, sim, a) + csv_rows(ts, sim, b));
    }
}

/// The whole CSV text of a snapshot.
pub open spec fn csv_text(include_headers: bool, snap: CsvSnapshot) -> Seq<char> {
    (if include_headers {
        csv_header()
    } else {
        Seq::empty()
    }) + csv_rows(snap.timestamp@, snap.simulation_id@, snap.links@)
}

// ---------------------------------------------------------------------------
// Rows and fields of the CSV text
// ---------------------------------------------------------------------------

/// A cell that holds neither a comma nor a line break.
pub open spec fn plain_cell(s: Seq<char>) -> bool {
    lacks(s, ',') && lacks(s, '\n')
}

/// Every text cell of a link is plain.
pub open spec fn csv_link_plain(k: CsvLink) -> bool {
    &&& plain_cell(k.link_id@)
    &&& plain_cell(k.rtt_ms@)
    &&& plain_cell(k.jitter_ms@)
    &&& plain_cell(k.loss_rate@)
    &&& plain_cell(k.qdisc_type@)
    &&& (k.qdisc_loss_pct matches Some(t) ==> plain_cell(t@))
}

proof fn lemma_decimal_plain(n: nat)
    ensures
        plain_cell(decimal(n)),
{
    lemma_decimal_digits(n);
    let d = decimal(n);
    assert forall|i: int| 0 <= i < d.len() implies #[trigger] d[i] != ',' && d[i] != '\n' by {
        assert(is_digit(d[i]));
    }
}

proof fn lemma_csv_literals()
    ensures
        count_char(","@, ',') == 1,
        count_char(","@, '\n') == 0,
        count_char("\n"@, '\n') == 1,
        count_char("\n"@, ',') == 0,
        plain_cell(Seq::empty()),
{
    reveal_strlit(",");
    reveal_strlit("\n");
    let c = ","@;
    let nl = "\n"@;
    assert(c.last() == ',');
    assert(nl.last() == '\n');
    assert(lacks(c.drop_last(), ','));
    assert(lacks(nl.drop_last(), '\n'));
    lemma_count_char_lacking(c.drop_last(), ',');
    lemma_count_char_lacking(nl.drop_last(), '\n');
    assert(lacks(c, '\n'));
    assert(lacks(nl, ','));
    lemma_count_char_lacking(c, '\n');
    lemma_count_char_lacking(nl, ',');
}

/// A CSV row has 18 fields (17 commas) and ends its one line, whenever its
/// text cells hold no comma or line break.
pub proof fn lemma_csv_row_fields(ts: Seq<char>, sim: Seq<char>, k: CsvLink)
    requires
        plain_cell(ts),
        plain_cell(sim),
        csv_link_plain(k),
    ensures
        count_char(csv_row(ts, sim, k), ',') == 17,
        count_char(csv_row(ts, sim, k), '\n') == 1,
{
    broadcast use lemma_count_char_concat, lemma_count_char_lacking;

    lemma_csv_literals();
    lemma_decimal_plain(k.bytes_sent as nat);
    lemma_decimal_plain(k.bytes_received as nat);
    lemma_decimal_plain(k.packets_sent as nat);
    lemma_decimal_plain(k.packets_received as nat);
    lemma_decimal_plain(k.packets_dropped as nat);
    lemma_decimal_plain(k.throughput_bps as nat);
    lemma_decimal_plain(k.queue_depth as nat);
    lemma_decimal_plain(k.queue_drops as nat);
    match k.qdisc_delay_ms {
        Some(n) => lemma_decimal_plain(n as nat),
        None => {},
    }
    match k.qdisc_rate_kbps {
        Some(n) => lemma_decimal_plain(n as nat),
        None => {},
    }
}

proof fn lemma_csv_rows_lines(ts: Seq<char>, sim: Seq<char>, links: Seq<CsvLink>)
    requires
        plain_cell(ts),
        plain_cell(sim),
        forall|i: int| 0 <= i < links.len() ==> csv_link_plain(#[trigger] links[i]),
    ensures
        count_char(csv_rows(ts, sim, links), '\n') == links.len(),
    decreases links.len(),
{
    broadcast use lemma_count_char_concat;

    if links.len() == 0 {
        lemma_count_char_lacking(Seq::<char>::empty(), '\n');
    } else {
        let init = links.drop_last();
        assert forall|i: int| 0 <= i < init.len() implies csv_link_plain(#[trigger] init[i]) by {
            assert(init[i] == links[i]);
        }
        lemma_csv_rows_lines(ts, sim, init);
        assert(csv_link_plain(links[links.len() - 1]));
        lemma_csv_row_fields(ts, sim, links.last());
    }
}

proof fn lemma_comma_joined_counts(names: Seq<Seq<char>>)
    requires
        names.len() > 0,
        forall|i: int| 0 <= i < names.len() ==> #[trigger] plain_cell(names[i]),
    ensures
        count_char(comma_joined(names), ',') == names.len() - 1,
        count_char(comma_joined(names), '\n') == 0,
    decreases names.len(),
{
    broadcast use lemma_count_char_concat, lemma_count_char_lacking;

    lemma_csv_literals();
    assert(plain_cell(names[names.len() - 1]));
    if names.len() > 1 {
        let init = names.drop_last();
        assert forall|i: int| 0 <= i < init.len() implies #[trigger] plain_cell(init[i]) by {
            assert(init[i] == names[i]);
        }
        lemma_comma_joined_counts(init);
    }
}

/// The header names 18 columns (17 commas) on one line.
pub proof fn lemma_csv_header_columns()
    ensures
        csv_columns().len() == 18,
        count_char(csv_header(), ',') == 17,
        count_char(csv_header(), '\n') == 1,
        csv_header().last() == '\n',
{
    broadcast use lemma_count_char_concat;

    reveal_strlit("timestamp");
    reveal_strlit("simulation_id");
    reveal_strlit("link_id");
    reveal_strlit("bytes_sent");
    reveal_strlit("bytes_received");
    reveal_strlit("packets_sent");
    reveal_strlit("packets_received");
    reveal_strlit("packets_dropped");
    reveal_strlit("rtt_ms");
    reveal_strlit("jitter_ms");
    reveal_strlit("loss_rate");
    reveal_strlit("throughput_bps");
    reveal_strlit("queue_depth");
    reveal_strlit("queue_drops");
    reveal_strlit("qdisc_type");
    reveal_strlit("qdisc_delay_ms");
    reveal_strlit("qdisc_rate_kbps");
    reveal_strlit("qdisc_loss_pct");
    let c = csv_columns();
    assert forall|i: int| 0 <= i < c.len() implies #[trigger] plain_cell(c[i]) by {}
    lemma_comma_joined_counts(c);
    lemma_csv_literals();
    reveal_strlit("\n");
}

/// The CSV text is the header line, when asked for, then one line per link,
/// whenever its text cells hold no comma or line break.
pub proof fn lemma_csv_one_row_per_link(include_headers: bool, snap: CsvSnapshot)
    requires
        plain_cell(snap.timestamp@),
        plain_cell(snap.simulation_id@),
        forall|i: int| 0 <= i < snap.links@.len() ==> csv_link_plain(#[trigger] snap.links@[i]),
    ensures
        count_char(csv_text(include_headers, snap), '\n') == (if include_headers {
            1nat
        } else {
            0nat
        }) + snap.links@.len(),
{
    broadcast use lemma_count_char_concat;

    lemma_csv_rows_lines(snap.timestamp@, snap.simulation_id@, snap.links@);
    if include_headers {
        lemma_csv_header_columns();
    } else {
        lemma_count_char_lacking(Seq::<char>::empty(), '\n');
    }
}

/// What `CsvExporter::new` exports, whenever the text cells hold no comma
/// or line break: the 18-column header line, then exactly one line per link,
/// in the order of the links, each with 18 comma-separated fields and ended
/// by its line break.
pub proof fn lemma_csv_export_shape(snap: CsvSnapshot)
    requires
        plain_cell(snap.timestamp@),
        plain_cell(snap.simulation_id@),
        forall|i: int| 0 <= i < snap.links@.len() ==> csv_link_plain(#[trigger] snap.links@[i]),
    ensures
        csv_text(true, snap) == csv_header() + csv_rows(
            snap.timestamp@,
            snap.simulation_id@,
            snap.links@,
        ),
        csv_columns().len() == 18,
        count_char(csv_header(), ',') == 17,
        count_char(csv_header(), '\n') == 1,
        csv_header().last() == '\n',
        count_char(csv_text(true, snap), '\n') == 1 + snap.links@.len(),
        forall|i: int|
            0 <= i < snap.links@.len() ==> csv_rows(
                snap.timestamp@,
                snap.simulation_id@,
                #[trigger] snap.links@.take(i + 1),
            ) == csv_rows(snap.timestamp@, snap.simulation_id@, snap.links@.take(i)) + csv_row(
                snap.timestamp@,
                snap.simulation_id@,
                snap.links@[i],
            ),
        forall|i: int|
            0 <= i < snap.links@.len() ==> {
                let row = csv_row(snap.timestamp@, snap.simulation_id@, #[trigger] snap.links@[i]);
                &&& count_char(row, ',') == 17
                &&& count_char(row, '\n') == 1
                &&& row.last() == '\n'
            },
{
    let ts = snap.timestamp@;
    let sim = snap.simulation_id@;
    let links = snap.links@;
    lemma_csv_header_columns();
    lemma_csv_one_row_per_link(true, snap);
    assert forall|i: int| 0 <= i < links.len() implies csv_rows(ts, sim, #[trigger] links.take(i + 1))
        == csv_rows(ts, sim, links.take(i)) + csv_row(ts, sim, links[i]) by {
        assert(links.take(i + 1).drop_last() =~= links.take(i));
        assert(links.take(i + 1).last() == links[i]);
    }
    assert forall|i: int| 0 <= i < links.len() implies {
        let row = csv_row(ts, sim, #[trigger] links[i]);
        &&& count_char(row, ',') == 17
        &&& count_char(row, '\n') == 1
        &&& row.last() == '\n'
    } by {
        lemma_csv_row_fields(ts, sim, links[i]);
        reveal_strlit("\n");
    }
}

fn push_header(out: &mut String)
    ensures
        final(out)@ == old(out)@ + csv_header(),
{
    let cols = [
        "timestamp",
        "simulation_id",
        "link_id",
        "bytes_sent",
        "bytes_received",
        "packets_sent",
        "packets_received",
        "packets_dropped",
        "rtt_ms",
        "jitter_ms",
        "loss_rate",
        "throughput_bps",
        "queue_depth",
        "queue_drops",
        "qdisc_type",
        "qdisc_delay_ms",
        "qdisc_rate_kbps",
        "qdisc_loss_pct",
    ];
    let ghost names = word_views(cols@);
    assert(names =~= csv_columns());
    let ghost start = out@;
    let mut i: usize = 0;
    while i < cols.len()
        invariant
            i <= cols@.len(),
            names == word_views(cols@),
            out@ == start + comma_joined(names.take(i as int)),
        decreases cols.len() - i,
    {
        if i > 0 {
            push_str(out, ",");
        }
        push_str(out, cols[i]);
        proof {
            assert(names.take(i as int + 1).drop_last() =~= names.take(i as int));
            assert(names.take(i as int + 1).last() == cols@[i as int]@);
            if i == 0 {
                assert(names.take(1).len() == 1);
                assert(comma_joined(names.take(0)) =~= Seq::<char>::empty());
            }
        }
        i = i + 1;
    }
    assert(names.take(cols@.len() as int) =~= names);
    push_str(out, "\n");
}

fn push_u64(out: &mut String, n: u64)
    ensures
        final(out)@ == old(out)@ + decimal(n as nat),
{
    let d = u64_to_decimal(n);
    push_str(out, d.as_str());
}

fn csv_row_text(ts: &str, sim: &str, k: &CsvLink) -> (r: String)
    ensures
        r@ == csv_row(ts@, sim@, *k),
{
    let mut out = lit(ts);
    push_str(&mut out, ",");
    push_str(&mut out, sim);
    push_str(&mut out, ",");
    push_str(&mut out, k.link_id.as_str());
    push_str(&mut out, ",");
    push_u64(&mut out, k.bytes_sent);
    push_str(&mut out, ",");
    push_u64(&mut out, k.bytes_received);
    push_str(&mut out, ",");
    push_u64(&mut out, k.packets_sent);
    push_str(&mut out, ",");
    push_u64(&mut out, k.packets_received);
    push_str(&mut out, ",");
    push_u64(&mut out, k.packets_dropped);
    push_str(&mut out, ",");
    push_str(&mut out, k.rtt_ms.as_str());
    push_str(&mut out, ",");
    push_str(&mut out, k.jitter_ms.as_str());
    push_str(&mut out, ",");
    push_str(&mut out, k.loss_rate.as_str());
    push_str(&mut out, ",");
    push_u64(&mut out, k.throughput_bps);
    push_str(&mut out, ",");
    push_u64(&mut out, k.queue_depth);
    push_str(&mut out, ",");
    push_u64(&mut out, k.queue_drops);
    push_str(&mut out, ",");
    push_str(&mut out, k.qdisc_type.as_str());
    push_str(&mut out, ",");
    if let Some(d) = k.qdisc_delay_ms {
        push_u64(&mut out, d);
    }
    push_str(&mut out, ",");
    if let Some(r) = k.qdisc_rate_kbps {
        push_u64(&mut out, r);
    }
    push_str(&mut out, ",");
    if let Some(l) = &k.qdisc_loss_pct {
        push_str(&mut out, l.as_str());
    }
    push_str(&mut out, "\n");
    proof {
        assert(opt_int_cell(k.qdisc_delay_ms) == match k.qdisc_delay_ms {
            Some(n) => decimal(n as nat),
            None => Seq::<char>::empty(),
        });
    }
    assert(out@ =~= csv_row(ts@, sim@, *k));
    out
}

impl CsvExporter {
    /// A CSV exporter that writes the header row.
    pub fn new() -> (e: Self)
        ensures
            e.include_headers,
    {
        CsvExporter { include_headers: true }
    }

    /// A CSV exporter without the header row.
    pub fn without_headers() -> (e: Self)
        ensures
            !e.include_headers,
    {
        CsvExporter { include_headers: false }
    }

    /// The CSV text of a snapshot: the header row when enabled, then one row
    /// per link in order.
    pub fn export(&self, snapshot: &CsvSnapshot) -> (r: String)
        ensures
            r@ == csv_text(self.include_headers, *snapshot),
    {
        let mut out = String::new();
        if self.include_headers {
            push_header(&mut out);
        }
        let ghost head = out@;
        let links = &snapshot.links;
        let ts = snapshot.timestamp.as_str();
        let sim = snapshot.simulation_id.as_str();
        let mut i: usize = 0;
        while i < links.len()
            invariant
                i <= links@.len(),
                ts@ == snapshot.timestamp@,
                sim@ == snapshot.simulation_id@,
                out@ == head + csv_rows(ts@, sim@, links@.take(i as int)),
            decreases links.len() - i,
        {
            let row = csv_row_text(ts, sim, &links[i]);
            push_str(&mut out, row.as_str());
            proof {
                assert(links@.take(i as int + 1).drop_last() =~= links@.take(i as int));
            }
            i = i + 1;
        }
        assert(links@.take(links@.len() as int) =~= links@);
        assert(out@ =~= csv_text(self.include_headers, *snapshot));
        out
    }
}

} // verus!
