//! Decisions of the testbench orchestrator: port ranges derived from a seed,
//! link numbering and naming, the resources recorded per link for teardown,
//! and the `tc` arguments that apply a cellular profile to an interface.

use vstd::prelude::*;
use vstd::string::*;

use crate::netns_testbench::addr::AddrError;
use crate::netns_testbench::netns::NetNsError;
use crate::netns_testbench::qdisc::QdiscError;
use crate::netns_testbench::runtime::RuntimeError;
use crate::netns_testbench::veth::VethError;
use crate::network_sim::command::{word_views, words};
use crate::network_sim::qdisc::{lit, push_arg, string_views};
use crate::text::{decimal, push_str, seq_contains, str_chars, chars_contain, u64_to_decimal};

verus! {

/// Errors of the testbench.
#[derive(Debug)]
pub enum TestbenchError {
    NetNs(NetNsError),
    Veth(VethError),
    Addr(AddrError),
    Qdisc(QdiscError),
    Runtime(RuntimeError),
    Io(std::io::Error),
    Netlink(rtnetlink::Error),
    Nix(nix::errno::Errno),
    InvalidConfig(String),
}

/// The namespaces and interfaces created for one link.
#[derive(Debug)]
pub struct LinkResources {
    pub ns_a: String,
    pub ns_b: String,
    pub veth_a: String,
    pub veth_b: String,
}

/// The content of `LinkResources`.
pub struct ResourcesView {
    pub ns_a: Seq<char>,
    pub ns_b: Seq<char>,
    pub veth_a: Seq<char>,
    pub veth_b: Seq<char>,
}

impl View for LinkResources {
    type V = ResourcesView;

    open spec fn view(&self) -> ResourcesView {
        ResourcesView { ns_a: self.ns_a@, ns_b: self.ns_b@, veth_a: self.veth_a@, veth_b: self.veth_b@ }
    }
}

/// The resources of link `link_id` between namespace bases `a_ns` and
/// `b_ns`: namespaces `<a_ns>_<link_id>` and `<b_ns>_<link_id>`, interfaces
/// `veth-<link_id>-a` and `veth-<link_id>-b`.
pub open spec fn link_resources_spec(a_ns: Seq<char>, b_ns: Seq<char>, link_id: Seq<char>) -> ResourcesView {
    ResourcesView {
        ns_a: a_ns + "_"@ + link_id,
        ns_b: b_ns + "_"@ + link_id,
        veth_a: "veth-"@ + link_id + "-a"@,
        veth_b: "veth-"@ + link_id + "-b"@,
    }
}

/// Builds `link_resources_spec`.
pub fn link_resources(a_ns: &str, b_ns: &str, link_id: &str) -> (r: LinkResources)
    ensures
        r@ == link_resources_spec(a_ns@, b_ns@, link_id@),
{
    let mut ns_a = lit(a_ns);
    push_str(&mut ns_a, "_");
    push_str(&mut ns_a, link_id);
    let mut ns_b = lit(b_ns);
    push_str(&mut ns_b, "_");
    push_str(&mut ns_b, link_id);
    let mut veth_a = lit("veth-");
    push_str(&mut veth_a, link_id);
    push_str(&mut veth_a, "-a");
    let mut veth_b = lit("veth-");
    push_str(&mut veth_b, link_id);
    push_str(&mut veth_b, "-b");
    LinkResources { ns_a, ns_b, veth_a, veth_b }
}

/// First forward port for `seed`: 30000 plus ten times `seed mod 1000`,
/// each step saturating at the `u16` maximum.
pub open spec fn base_forward_port(seed: u64) -> u16 {
    let off = (seed % 1000) as int;
    let scaled = if off * 10 > u16::MAX { u16::MAX as int } else { off * 10 };
    if 30000 + scaled > u16::MAX { u16::MAX } else { (30000 + scaled) as u16 }
}

/// First reverse port for `seed`: 31000 plus ten times `seed mod 1000`,
/// each step saturating at the `u16` maximum.
pub open spec fn base_reverse_port(seed: u64) -> u16 {
    let off = (seed % 1000) as int;
    let scaled = if off * 10 > u16::MAX { u16::MAX as int } else { off * 10 };
    if 31000 + scaled > u16::MAX { u16::MAX } else { (31000 + scaled) as u16 }
}

/// The orchestrator's bookkeeping: the number of the next link, the next
/// ports to hand out in each direction, the ids of the started links and
/// the resources of each link set up.
pub struct OrchestratorBook {
    pub next_link_id: u64,
    pub next_port_forward: u16,
    pub next_port_reverse: u16,
    pub active_links: Vec<String>,
    pub resources: Vec<LinkResources>,
}

/// The contents of a sequence of resources.
pub open spec fn resource_views(v: Seq<LinkResources>) -> Seq<ResourcesView> {
    v.map_values(|r: LinkResources| r@)
}

/// `link_<n>`.
pub open spec fn link_name(n: nat) -> Seq<char> {
    "link_"@ + decimal(n)
}

/// Whether the resources belong to `link_id`: both interface names contain it.
pub open spec fn belongs_to(r: ResourcesView, link_id: Seq<char>) -> bool {
    seq_contains(r.veth_a, link_id) && seq_contains(r.veth_b, link_id)
}

impl OrchestratorBook {
    /// Bookkeeping for an orchestrator started with `seed`: link numbers
    /// start at 1 and the port ranges are derived from the seed.
    pub fn new(seed: u64) -> (b: Self)
        ensures
            b.next_link_id == 1,
            b.next_port_forward == base_forward_port(seed),
            b.next_port_reverse == base_reverse_port(seed),
            b.active_links@.len() == 0,
            b.resources@.len() == 0,
    {
        let off: u16 = (seed % 1000) as u16;
        // at most 9990, so neither step reaches the u16 maximum
        let scaled: u16 = off * 10;
        OrchestratorBook {
            next_link_id: 1,
            next_port_forward: 30000 + scaled,
            next_port_reverse: 31000 + scaled,
            active_links: Vec::new(),
            resources: Vec::new(),
        }
    }

    /// Takes the next link number and gives its id `link_<n>`.
    pub fn next_link(&mut self) -> (r: (String, u64))
        requires
            old(self).next_link_id < u64::MAX,
        ensures
            r.1 == old(self).next_link_id,
            r.0@ == link_name(old(self).next_link_id as nat),
            final(self).next_link_id == old(self).next_link_id + 1,
            final(self).next_port_forward == old(self).next_port_forward,
            final(self).next_port_reverse == old(self).next_port_reverse,
            final(self).active_links@ == old(self).active_links@,
            final(self).resources@ == old(self).resources@,
    {
        let n = self.next_link_id;
        let mut id = lit("link_");
        let d = u64_to_decimal(n);
        push_str(&mut id, d.as_str());
        self.next_link_id = n + 1;
        (id, n)
    }

    /// The link number used for addressing the link set up last: the
    /// number before the current one, reduced to 8 bits.
    pub fn addressing_number(&self) -> (n: u8)
        requires
            self.next_link_id >= 1,
        ensures
            n == ((self.next_link_id - 1) % 256) as u8,
    {
        let m = self.next_link_id - 1;
        (m % 256) as u8
    }

    /// Hands out the next ingress (forward) and egress (reverse) ports and
    /// records the started link; each range advances by two.
    pub fn start_link(&mut self, link_id: String) -> (ports: (u16, u16))
        requires
            old(self).next_port_forward <= u16::MAX - 2,
            old(self).next_port_reverse <= u16::MAX - 2,
        ensures
            ports == (old(self).next_port_forward, old(self).next_port_reverse),
            final(self).next_port_forward == old(self).next_port_forward + 2,
            final(self).next_port_reverse == old(self).next_port_reverse + 2,
            final(self).next_link_id == old(self).next_link_id,
            string_views(final(self).active_links@) == string_views(old(self).active_links@).push(
                link_id@,
            ),
            final(self).resources@ == old(self).resources@,
    {
        let ports = (self.next_port_forward, self.next_port_reverse);
        self.next_port_forward = self.next_port_forward + 2;
        self.next_port_reverse = self.next_port_reverse + 2;
        let ghost before = self.active_links@;
        self.active_links.push(link_id);
        assert(string_views(self.active_links@) =~= string_views(before).push(link_id@));
        ports
    }

    /// Records the resources of a link that was set up.
    pub fn record_resources(&mut self, r: LinkResources)
        ensures
            resource_views(final(self).resources@) == resource_views(old(self).resources@).push(
                r@,
            ),
            final(self).next_link_id == old(self).next_link_id,
            final(self).next_port_forward == old(self).next_port_forward,
            final(self).next_port_reverse == old(self).next_port_reverse,
            final(self).active_links@ == old(self).active_links@,
    {
        let ghost before = self.resources@;
        let ghost rv = r@;
        self.resources.push(r);
        assert(resource_views(self.resources@) =~= resource_views(before).push(rv));
    }

    /// Completes the start of a link whose number and id `link_id` were
    /// taken by `next_link` before its setup ran, given what the setup came
    /// to. A failed setup is returned as it is and changes nothing more: no
    /// resources are recorded, no ports handed out, the link is not listed
    /// and its number stays taken. A setup that succeeded records the link's
    /// resources, then hands out the next ingress and egress ports and lists
    /// the link as active.
    pub fn finish_start(
        &mut self,
        link_id: String,
        setup: Result<LinkResources, TestbenchError>,
    ) -> (r: Result<(u16, u16), TestbenchError>)
        requires
            old(self).next_port_forward <= u16::MAX - 2,
            old(self).next_port_reverse <= u16::MAX - 2,
        ensures
            final(self).next_link_id == old(self).next_link_id,
            (setup matches Err(e) ==> {
                &&& r == Err::<(u16, u16), TestbenchError>(e)
                &&& final(self).next_port_forward == old(self).next_port_forward
                &&& final(self).next_port_reverse == old(self).next_port_reverse
                &&& final(self).active_links@ == old(self).active_links@
                &&& final(self).resources@ == old(self).resources@
            }),
            (setup matches Ok(res) ==> {
                &&& r == Ok::<(u16, u16), TestbenchError>(
                    (old(self).next_port_forward, old(self).next_port_reverse),
                )
                &&& final(self).next_port_forward == old(self).next_port_forward + 2
                &&& final(self).next_port_reverse == old(self).next_port_reverse + 2
                &&& string_views(final(self).active_links@) == string_views(
                    old(self).active_links@,
                ).push(link_id@)
                &&& resource_views(final(self).resources@) == resource_views(
                    old(self).resources@,
                ).push(res@)
            }),
    {
        match setup {
            Err(e) => Err(e),
            Ok(res) => {
                self.record_resources(res);
                let ports = self.start_link(link_id);
                Ok(ports)
            },
        }
    }

    /// The position of the first recorded resources that belong to
    /// `link_id`, if any.
    pub fn find_resources(&self, link_id: &str) -> (r: Option<usize>)
        ensures
            r matches Some(i) ==> i < self.resources@.len() && belongs_to(
                self.resources@[i as int]@,
                link_id@,
            ) && forall|k: int| 0 <= k < i ==> !belongs_to(#[trigger] self.resources@[k]@, link_id@),
            r is None ==> forall|k: int|
                0 <= k < self.resources@.len() ==> !belongs_to(#[trigger] self.resources@[k]@, link_id@),
    {
        let target = str_chars(link_id);
        let mut i: usize = 0;
        while i < self.resources.len()
            invariant
                i <= self.resources@.len(),
                target@ == link_id@,
                forall|k: int| 0 <= k < i ==> !belongs_to(#[trigger] self.resources@[k]@, link_id@),
            decreases self.resources.len() - i,
        {
            let a = str_chars(self.resources[i].veth_a.as_str());
            let b = str_chars(self.resources[i].veth_b.as_str());
            if chars_contain(&a, &target) && chars_contain(&b, &target) {
                return Some(i);
            }
            i = i + 1;
        }
        None
    }

    /// The error when no recorded resources belong to `link_id`.
    pub fn unknown_link(link_id: &str) -> (e: TestbenchError)
        ensures
            e matches TestbenchError::InvalidConfig(m) && m@ == "Unknown link id "@ + link_id@,
    {
        let mut m = lit("Unknown link id ");
        push_str(&mut m, link_id);
        TestbenchError::InvalidConfig(m)
    }
}

/// Loss settings of a cellular profile, their numbers rendered as text.
#[derive(Debug)]
pub enum LossArgs {
    /// Random loss: percentage and correlation percentage.
    Random { pct: String, corr_pct: u32 },
    /// Gilbert-Elliot model parameters.
    Gemodel { p_enter_bad: String, r_leave_bad: String, bad_loss: String, good_loss: String },
}

/// The impairments of a cellular profile as `tc` shows them; optional parts
/// are present only when the profile sets them.
#[derive(Debug)]
pub struct ProfileArgs {
    pub rate_kbit: u32,
    pub delay_ms: u32,
    pub jitter_ms: u32,
    pub corr_pct: u32,
    pub loss: LossArgs,
    pub reorder: Option<(String, u32)>,
    pub duplicate: Option<String>,
    pub corrupt: Option<String>,
}

/// `ip netns exec <ns> tc` followed by `args`.
pub open spec fn in_ns(ns: Seq<char>, args: Seq<Seq<char>>) -> Seq<Seq<char>> {
    seq!["netns"@, "exec"@, ns, "tc"@] + args
}

/// Root HTB qdisc with default class 10.
pub open spec fn htb_root_args(ns: Seq<char>, iface: Seq<char>) -> Seq<Seq<char>> {
    in_ns(
        ns,
        seq!["qdisc"@, "replace"@, "dev"@, iface, "root"@, "handle"@, "1:"@, "htb"@, "default"@, "10"@],
    )
}

/// HTB class 1:10 with rate and ceiling at the profile rate.
pub open spec fn htb_class_args(ns: Seq<char>, iface: Seq<char>, rate: u32) -> Seq<Seq<char>> {
    in_ns(
        ns,
        seq![
            "class"@,
            "replace"@,
            "dev"@,
            iface,
            "parent"@,
            "1:"@,
            "classid"@,
            "1:10"@,
            "htb"@,
            "rate"@,
            decimal(rate as nat) + "kbit"@,
            "ceil"@,
            decimal(rate as nat) + "kbit"@,
        ],
    )
}

/// The loss part of the netem arguments.
pub open spec fn loss_part(l: LossArgs) -> Seq<Seq<char>> {
    match l {
        LossArgs::Random { pct, corr_pct } => seq![
            "loss"@,
            pct@ + "%"@,
            decimal(corr_pct as nat) + "%"@,
        ],
        LossArgs::Gemodel { p_enter_bad, r_leave_bad, bad_loss, good_loss } => seq![
            "loss"@,
            "gemodel"@,
            p_enter_bad@,
            r_leave_bad@,
            bad_loss@,
            good_loss@,
        ],
    }
}

/// Netem under class 1:10: delay, jitter and correlation, loss, then
/// reorder, duplicate and corrupt when set.
pub open spec fn profile_netem_args(ns: Seq<char>, iface: Seq<char>, p: ProfileArgs) -> Seq<Seq<char>> {
    in_ns(
        ns,
        seq![
            "qdisc"@,
            "replace"@,
            "dev"@,
            iface,
            "parent"@,
            "1:10"@,
            "handle"@,
            "10:"@,
            "netem"@,
            "delay"@,
            decimal(p.delay_ms as nat) + "ms"@,
            decimal(p.jitter_ms as nat) + "ms"@,
            decimal(p.corr_pct as nat) + "%"@,
        ] + loss_part(p.loss) + reorder_part(p.reorder) + pct_part("duplicate"@, p.duplicate)
            + pct_part("corrupt"@, p.corrupt),
    )
}

/// Each profile setting reaches `tc` as its own value, run in the link's
/// namespace on its interface: the class shapes at the profile rate (rate
/// and ceiling), netem gets `delay <delay>ms <jitter>ms <correlation>%`, then
/// `loss` with the profile's loss model, then reordering, duplication and
/// corruption each with their own values when set.
pub proof fn lemma_profile_args_carry_values(ns: Seq<char>, iface: Seq<char>, p: ProfileArgs)
    ensures
        ({
            let c = htb_class_args(ns, iface, p.rate_kbit);
            let a = profile_netem_args(ns, iface, p);
            let lp = loss_part(p.loss).len() as int;
            let rp = reorder_part(p.reorder).len() as int;
            let dp = pct_part("duplicate"@, p.duplicate).len() as int;
            &&& c[2] == ns && c[7] == iface && c[13] == "rate"@
            &&& c[14] == decimal(p.rate_kbit as nat) + "kbit"@ && c[15] == "ceil"@
            &&& c[16] == decimal(p.rate_kbit as nat) + "kbit"@
            &&& a[2] == ns && a[7] == iface && a[13] == "delay"@
            &&& a[14] == decimal(p.delay_ms as nat) + "ms"@
            &&& a[15] == decimal(p.jitter_ms as nat) + "ms"@
            &&& a[16] == decimal(p.corr_pct as nat) + "%"@
            &&& a[17] == "loss"@
            &&& (p.loss matches LossArgs::Random { pct, corr_pct } ==> a[18] == pct@ + "%"@ && a[19]
                == decimal(corr_pct as nat) + "%"@)
            &&& (p.loss matches LossArgs::Gemodel { p_enter_bad, r_leave_bad, bad_loss, good_loss }
                ==> a[18] == "gemodel"@ && a[19] == p_enter_bad@ && a[20] == r_leave_bad@ && a[21]
                == bad_loss@ && a[22] == good_loss@)
            &&& (p.reorder matches Some((t, k)) ==> a[17 + lp] == "reorder"@ && a[18 + lp] == t@
                + "%"@ && a[19 + lp] == decimal(k as nat) + "%"@)
            &&& (p.duplicate matches Some(d) ==> a[17 + lp + rp] == "duplicate"@ && a[18 + lp + rp]
                == d@ + "%"@)
            &&& (p.corrupt matches Some(x) ==> a[17 + lp + rp + dp] == "corrupt"@ && a[18 + lp + rp
                + dp] == x@ + "%"@)
            &&& a.len() == 17 + lp + rp + dp + pct_part("corrupt"@, p.corrupt).len()
        }),
{
    let head = seq![
        "qdisc"@,
        "replace"@,
        "dev"@,
        iface,
        "parent"@,
        "1:10"@,
        "handle"@,
        "10:"@,
        "netem"@,
        "delay"@,
        decimal(p.delay_ms as nat) + "ms"@,
        decimal(p.jitter_ms as nat) + "ms"@,
        decimal(p.corr_pct as nat) + "%"@,
    ];
    let l = loss_part(p.loss);
    let r = reorder_part(p.reorder);
    let d = pct_part("duplicate"@, p.duplicate);
    let x = pct_part("corrupt"@, p.corrupt);
    let a = profile_netem_args(ns, iface, p);
    assert(a =~= seq!["netns"@, "exec"@, ns, "tc"@] + head + l + r + d + x);
}

fn with_suffix(n: u64, suffix: &str) -> (r: String)
    ensures
        r@ == decimal(n as nat) + suffix@,
{
    let mut s = u64_to_decimal(n);
    push_str(&mut s, suffix);
    s
}

fn text_with_suffix(t: &str, suffix: &str) -> (r: String)
    ensures
        r@ == t@ + suffix@,
{
    let mut s = lit(t);
    push_str(&mut s, suffix);
    s
}

fn htb_root_command(ns: &str, iface: &str) -> (v: Vec<String>)
    ensures
        string_views(v@) == htb_root_args(ns@, iface@),
{
    let a = ["netns", "exec", ns, "tc", "qdisc", "replace", "dev", iface, "root", "handle", "1:", "htb", "default", "10"];
    assert(word_views(a@) =~= htb_root_args(ns@, iface@));
    words(&a)
}

fn htb_class_command(ns: &str, iface: &str, rate: u32) -> (v: Vec<String>)
    ensures
        string_views(v@) == htb_class_args(ns@, iface@, rate),
{
    let a = ["netns", "exec", ns, "tc", "class", "replace", "dev", iface, "parent", "1:", "classid", "1:10", "htb", "rate"];
    let mut v = words(&a);
    push_arg(&mut v, with_suffix(rate as u64, "kbit"));
    push_arg(&mut v, lit("ceil"));
    push_arg(&mut v, with_suffix(rate as u64, "kbit"));
    assert(string_views(v@) =~= htb_class_args(ns@, iface@, rate));
    v
}

fn push_loss(v: &mut Vec<String>, l: &LossArgs)
    ensures
        string_views(final(v)@) == string_views(old(v)@) + loss_part(*l),
{
    let ghost base = string_views(v@);
    match l {
        LossArgs::Random { pct, corr_pct } => {
            push_arg(v, lit("loss"));
            push_arg(v, text_with_suffix(pct.as_str(), "%"));
            push_arg(v, with_suffix(*corr_pct as u64, "%"));
        },
        LossArgs::Gemodel { p_enter_bad, r_leave_bad, bad_loss, good_loss } => {
            push_arg(v, lit("loss"));
            push_arg(v, lit("gemodel"));
            push_arg(v, lit(p_enter_bad.as_str()));
            push_arg(v, lit(r_leave_bad.as_str()));
            push_arg(v, lit(bad_loss.as_str()));
            push_arg(v, lit(good_loss.as_str()));
        },
    }
    assert(string_views(v@) =~= base + loss_part(*l));
}

/// `<keyword> <value>%` when the value is set.
pub open spec fn pct_part(keyword: Seq<char>, value: Option<String>) -> Seq<Seq<char>> {
    match value {
        Some(t) => seq![keyword, t@ + "%"@],
        None => seq![],
    }
}

/// `reorder <pct>% <corr>%` when set.
pub open spec fn reorder_part(r: Option<(String, u32)>) -> Seq<Seq<char>> {
    match r {
        Some((t, c)) => seq!["reorder"@, t@ + "%"@, decimal(c as nat) + "%"@],
        None => seq![],
    }
}

fn push_pct(v: &mut Vec<String>, keyword: &str, value: &Option<String>)
    ensures
        string_views(final(v)@) == string_views(old(v)@) + pct_part(keyword@, *value),
{
    let ghost base = string_views(v@);
    if let Some(t) = value {
        push_arg(v, lit(keyword));
        push_arg(v, text_with_suffix(t.as_str(), "%"));
    }
    assert(string_views(v@) =~= base + pct_part(keyword@, *value));
}

fn push_reorder(v: &mut Vec<String>, r: &Option<(String, u32)>)
    ensures
        string_views(final(v)@) == string_views(old(v)@) + reorder_part(*r),
{
    let ghost base = string_views(v@);
    if let Some((t, c)) = r {
        push_arg(v, lit("reorder"));
        push_arg(v, text_with_suffix(t.as_str(), "%"));
        push_arg(v, with_suffix(*c as u64, "%"));
    }
    assert(string_views(v@) =~= base + reorder_part(*r));
}

fn profile_netem_command(ns: &str, iface: &str, p: &ProfileArgs) -> (v: Vec<String>)
    ensures
        string_views(v@) == profile_netem_args(ns@, iface@, *p),
{
    let a = ["netns", "exec", ns, "tc", "qdisc", "replace", "dev", iface, "parent", "1:10", "handle", "10:", "netem", "delay"];
    let mut v = words(&a);
    push_arg(&mut v, with_suffix(p.delay_ms as u64, "ms"));
    push_arg(&mut v, with_suffix(p.jitter_ms as u64, "ms"));
    push_arg(&mut v, with_suffix(p.corr_pct as u64, "%"));
    let ghost head = string_views(v@);
    push_loss(&mut v, &p.loss);
    push_reorder(&mut v, &p.reorder);
    push_pct(&mut v, "duplicate", &p.duplicate);
    push_pct(&mut v, "corrupt", &p.corrupt);
    assert(string_views(v@) =~= profile_netem_args(ns@, iface@, *p));
    v
}

/// The `ip` arguments of the three commands that apply a cellular profile
/// to `iface` in namespace `ns`: the root HTB qdisc, its class at the
/// profile rate, and netem under the class.
pub fn profile_commands(ns: &str, iface: &str, p: &ProfileArgs) -> (r: (
    Vec<String>,
    Vec<String>,
    Vec<String>,
))
    ensures
        string_views(r.0@) == htb_root_args(ns@, iface@),
        string_views(r.1@) == htb_class_args(ns@, iface@, p.rate_kbit),
        string_views(r.2@) == profile_netem_args(ns@, iface@, *p),
{
    (htb_root_command(ns, iface), htb_class_command(ns, iface, p.rate_kbit), profile_netem_command(ns, iface, p))
}

/// The error when applying netem in `ns` on `iface` failed with `stderr`.
pub fn profile_apply_failure(ns: &str, iface: &str, stderr: &str) -> (e: TestbenchError)
    ensures
        e matches TestbenchError::InvalidConfig(m) && m@ == "tc netem apply failed in ns "@ + ns@
            + " on "@ + iface@ + ": "@ + stderr@,
{
    let mut m = lit("tc netem apply failed in ns ");
    push_str(&mut m, ns);
    push_str(&mut m, " on ");
    push_str(&mut m, iface);
    push_str(&mut m, ": ");
    push_str(&mut m, stderr);
    TestbenchError::InvalidConfig(m)
}

} // verus!
