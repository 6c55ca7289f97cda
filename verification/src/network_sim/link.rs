//! Veth links across namespaces: the `ip` commands that create, configure
//! and delete a pair.

use vstd::prelude::*;
use vstd::string::*;

use crate::network_sim::command::{
    command_views, ip_cmd, ip_words, push_command, word_views, CommandView, OnFailure,
    PlannedCommand,
};
use crate::network_sim::qdisc::lit;
use crate::netns_testbench::veth::opt_view;

verus! {

/// Configuration of a veth link: the interface names of both ends, their
/// addresses in CIDR notation, and the namespaces they go into (none means
/// the root namespace).
#[derive(Debug)]
pub struct VethPairConfig {
    pub tx_if: String,
    pub rx_if: String,
    pub tx_ip_cidr: String,
    pub rx_ip_cidr: String,
    pub tx_ns: Option<String>,
    pub rx_ns: Option<String>,
}

/// A created veth link.
#[derive(Debug)]
pub struct VethPair {
    pub tx_if: String,
    pub rx_if: String,
    pub tx_ns: Option<String>,
    pub rx_ns: Option<String>,
}

/// `ip netns add <ns>`, accepted when the namespace exists already.
pub open spec fn ensure_ns_cmds(ns: Option<Seq<char>>) -> Seq<CommandView> {
    match ns {
        Some(n) => seq![ip_cmd(seq!["netns"@, "add"@, n], OnFailure::TolerateExists)],
        None => seq![],
    }
}

/// Best-effort deletion of a leftover interface inside a namespace.
pub open spec fn del_in_ns_cmds(ns: Option<Seq<char>>, dev: Seq<char>) -> Seq<CommandView> {
    match ns {
        Some(n) => seq![
            ip_cmd(
                seq!["netns"@, "exec"@, n, "ip"@, "link"@, "del"@, "dev"@, dev],
                OnFailure::Ignore,
            ),
        ],
        None => seq![],
    }
}

/// Moving an end into its namespace.
pub open spec fn move_cmds(ns: Option<Seq<char>>, dev: Seq<char>) -> Seq<CommandView> {
    match ns {
        Some(n) => seq![ip_cmd(seq!["link"@, "set"@, dev, "netns"@, n], OnFailure::Fail)],
        None => seq![],
    }
}

/// Addressing an end and bringing it up, in its namespace or in the root
/// namespace; `with_lo` also brings up loopback of the namespace.
pub open spec fn configure_cmds(
    ns: Option<Seq<char>>,
    dev: Seq<char>,
    cidr: Seq<char>,
    with_lo: bool,
) -> Seq<CommandView> {
    match ns {
        Some(n) => seq![
            ip_cmd(
                seq!["netns"@, "exec"@, n, "ip"@, "addr"@, "add"@, cidr, "dev"@, dev],
                OnFailure::Fail,
            ),
            ip_cmd(
                seq!["netns"@, "exec"@, n, "ip"@, "link"@, "set"@, dev, "up"@],
                OnFailure::Fail,
            ),
        ] + if with_lo {
            seq![
                ip_cmd(
                    seq!["netns"@, "exec"@, n, "ip"@, "link"@, "set"@, "lo"@, "up"@],
                    OnFailure::Fail,
                ),
            ]
        } else {
            seq![]
        },
        None => seq![
            ip_cmd(seq!["addr"@, "add"@, cidr, "dev"@, dev], OnFailure::Fail),
            ip_cmd(seq!["link"@, "set"@, dev, "up"@], OnFailure::Fail),
        ],
    }
}

/// The commands that create a link: make sure both namespaces exist, delete
/// leftovers of both ends (best effort), create the pair, move the ends,
/// then address each end and bring it up (and loopback of the receiving
/// namespace).
pub open spec fn creation_plan(
    tx_if: Seq<char>,
    rx_if: Seq<char>,
    tx_cidr: Seq<char>,
    rx_cidr: Seq<char>,
    tx_ns: Option<Seq<char>>,
    rx_ns: Option<Seq<char>>,
) -> Seq<CommandView> {
    ensure_ns_cmds(tx_ns) + ensure_ns_cmds(rx_ns) + seq![
        ip_cmd(seq!["link"@, "del"@, "dev"@, tx_if], OnFailure::Ignore),
        ip_cmd(seq!["link"@, "del"@, "dev"@, rx_if], OnFailure::Ignore),
    ] + del_in_ns_cmds(tx_ns, tx_if) + del_in_ns_cmds(rx_ns, rx_if) + seq![
        ip_cmd(
            seq!["link"@, "add"@, tx_if, "type"@, "veth"@, "peer"@, "name"@, rx_if],
            OnFailure::Fail,
        ),
    ] + move_cmds(tx_ns, tx_if) + move_cmds(rx_ns, rx_if) + configure_cmds(
        tx_ns,
        tx_if,
        tx_cidr,
        false,
    ) + configure_cmds(rx_ns, rx_if, rx_cidr, true)
}

/// The command that creates the pair.
pub open spec fn creates_pair(c: CommandView, tx_if: Seq<char>, rx_if: Seq<char>) -> bool {
    c.program == "ip"@ && c.args == seq![
        "link"@,
        "add"@,
        tx_if,
        "type"@,
        "veth"@,
        "peer"@,
        "name"@,
        rx_if,
    ] && c.on_failure == OnFailure::Fail
}

/// The command that moves interface `dev` into namespace `n`.
pub open spec fn moves_into(c: CommandView, dev: Seq<char>, n: Seq<char>) -> bool {
    c.program == "ip"@ && c.args == seq!["link"@, "set"@, dev, "netns"@, n] && c.on_failure
        == OnFailure::Fail
}

/// The command that gives `dev` the address `cidr` inside namespace `n`.
pub open spec fn addresses_in(c: CommandView, dev: Seq<char>, cidr: Seq<char>, n: Seq<char>) -> bool {
    c.program == "ip"@ && c.args == seq![
        "netns"@,
        "exec"@,
        n,
        "ip"@,
        "addr"@,
        "add"@,
        cidr,
        "dev"@,
        dev,
    ] && c.on_failure == OnFailure::Fail
}

/// The command that gives `dev` the address `cidr` in the root namespace.
pub open spec fn addresses_in_root(c: CommandView, dev: Seq<char>, cidr: Seq<char>) -> bool {
    c.program == "ip"@ && c.args == seq!["addr"@, "add"@, cidr, "dev"@, dev] && c.on_failure
        == OnFailure::Fail
}

/// Each end is created, then moved into its namespace, then addressed
/// there, in that order; an end without a namespace is addressed in the
/// root namespace after the pair is created.
pub proof fn lemma_ends_moved_before_configured(
    tx_if: Seq<char>,
    rx_if: Seq<char>,
    tx_cidr: Seq<char>,
    rx_cidr: Seq<char>,
    tx_ns: Option<Seq<char>>,
    rx_ns: Option<Seq<char>>,
)
    ensures
        ({
            let plan = creation_plan(tx_if, rx_if, tx_cidr, rx_cidr, tx_ns, rx_ns);
            &&& tx_ns matches Some(n) ==> exists|c: int, i: int, j: int|
                #![trigger plan[c], plan[i], plan[j]]
                0 <= c < i < j < plan.len() && creates_pair(plan[c], tx_if, rx_if) && moves_into(
                    plan[i],
                    tx_if,
                    n,
                ) && addresses_in(plan[j], tx_if, tx_cidr, n)
            &&& rx_ns matches Some(n) ==> exists|c: int, i: int, j: int|
                #![trigger plan[c], plan[i], plan[j]]
                0 <= c < i < j < plan.len() && creates_pair(plan[c], tx_if, rx_if) && moves_into(
                    plan[i],
                    rx_if,
                    n,
                ) && addresses_in(plan[j], rx_if, rx_cidr, n)
            &&& tx_ns is None ==> exists|c: int, j: int|
                #![trigger plan[c], plan[j]]
                0 <= c < j < plan.len() && creates_pair(plan[c], tx_if, rx_if)
                    && addresses_in_root(plan[j], tx_if, tx_cidr)
            &&& rx_ns is None ==> exists|c: int, j: int|
                #![trigger plan[c], plan[j]]
                0 <= c < j < plan.len() && creates_pair(plan[c], tx_if, rx_if)
                    && addresses_in_root(plan[j], rx_if, rx_cidr)
        }),
{
    let plan = creation_plan(tx_if, rx_if, tx_cidr, rx_cidr, tx_ns, rx_ns);
    let pre = ensure_ns_cmds(tx_ns) + ensure_ns_cmds(rx_ns) + seq![
        ip_cmd(seq!["link"@, "del"@, "dev"@, tx_if], OnFailure::Ignore),
        ip_cmd(seq!["link"@, "del"@, "dev"@, rx_if], OnFailure::Ignore),
    ] + del_in_ns_cmds(tx_ns, tx_if) + del_in_ns_cmds(rx_ns, rx_if);
    let c = pre.len() as int;
    let mt = move_cmds(tx_ns, tx_if).len() as int;
    let mr = move_cmds(rx_ns, rx_if).len() as int;
    let ct = configure_cmds(tx_ns, tx_if, tx_cidr, false).len() as int;
    let p1 = pre + seq![
        ip_cmd(
            seq!["link"@, "add"@, tx_if, "type"@, "veth"@, "peer"@, "name"@, rx_if],
            OnFailure::Fail,
        ),
    ];
    let p2 = p1 + move_cmds(tx_ns, tx_if);
    let p3 = p2 + move_cmds(rx_ns, rx_if);
    let p4 = p3 + configure_cmds(tx_ns, tx_if, tx_cidr, false);
    assert(plan =~= p4 + configure_cmds(rx_ns, rx_if, rx_cidr, true));
    assert(creates_pair(plan[c], tx_if, rx_if)) by {
        assert(plan[c] == p1[c]);
    }
    let jt = c + 1 + mt + mr;
    let jr = jt + ct;
    assert(plan[jt] == configure_cmds(tx_ns, tx_if, tx_cidr, false)[0]);
    assert(plan[jr] == configure_cmds(rx_ns, rx_if, rx_cidr, true)[0]);
    match tx_ns {
        Some(n) => {
            assert(plan[c + 1] == p2[c + 1]);
            assert(moves_into(plan[c + 1], tx_if, n));
            assert(addresses_in(plan[jt], tx_if, tx_cidr, n));
        },
        None => {
            assert(addresses_in_root(plan[jt], tx_if, tx_cidr));
        },
    }
    match rx_ns {
        Some(n) => {
            assert(plan[c + 1 + mt] == p3[c + 1 + mt]);
            assert(moves_into(plan[c + 1 + mt], rx_if, n));
            assert(addresses_in(plan[jr], rx_if, rx_cidr, n));
        },
        None => {
            assert(addresses_in_root(plan[jr], rx_if, rx_cidr));
        },
    }
}

/// Best-effort deletion of a namespace.
pub open spec fn del_ns_cmds(ns: Option<Seq<char>>) -> Seq<CommandView> {
    match ns {
        Some(n) => seq![ip_cmd(seq!["netns"@, "del"@, n], OnFailure::Ignore)],
        None => seq![],
    }
}

/// The commands that delete a link: the pair (through its sending end), then
/// both namespaces, all best effort.
pub open spec fn deletion_plan(
    tx_if: Seq<char>,
    tx_ns: Option<Seq<char>>,
    rx_ns: Option<Seq<char>>,
) -> Seq<CommandView> {
    seq![ip_cmd(seq!["link"@, "del"@, "dev"@, tx_if], OnFailure::Ignore)] + del_ns_cmds(tx_ns)
        + del_ns_cmds(rx_ns)
}

fn push_ensure_ns(plan: &mut Vec<PlannedCommand>, ns: &Option<String>)
    ensures
        command_views(final(plan)@) == command_views(old(plan)@) + ensure_ns_cmds(opt_view(*ns)),
{
    let ghost before = command_views(plan@);
    if let Some(n) = ns {
        let n = n.as_str();
        let a = ["netns", "add", n];
        assert(word_views(a@) =~= seq!["netns"@, "add"@, n@]);
        push_command(plan, ip_words(&a, OnFailure::TolerateExists));
    }
    assert(command_views(plan@) =~= before + ensure_ns_cmds(opt_view(*ns)));
}

fn push_del_in_ns(plan: &mut Vec<PlannedCommand>, ns: &Option<String>, dev: &str)
    ensures
        command_views(final(plan)@) == command_views(old(plan)@) + del_in_ns_cmds(
            opt_view(*ns),
            dev@,
        ),
{
    let ghost before = command_views(plan@);
    if let Some(n) = ns {
        let n = n.as_str();
        let a = ["netns", "exec", n, "ip", "link", "del", "dev", dev];
        assert(word_views(a@) =~= seq!["netns"@, "exec"@, n@, "ip"@, "link"@, "del"@, "dev"@, dev@]);
        push_command(plan, ip_words(&a, OnFailure::Ignore));
    }
    assert(command_views(plan@) =~= before + del_in_ns_cmds(opt_view(*ns), dev@));
}

fn push_move(plan: &mut Vec<PlannedCommand>, ns: &Option<String>, dev: &str)
    ensures
        command_views(final(plan)@) == command_views(old(plan)@) + move_cmds(opt_view(*ns), dev@),
{
    let ghost before = command_views(plan@);
    if let Some(n) = ns {
        let n = n.as_str();
        let a = ["link", "set", dev, "netns", n];
        assert(word_views(a@) =~= seq!["link"@, "set"@, dev@, "netns"@, n@]);
        push_command(plan, ip_words(&a, OnFailure::Fail));
    }
    assert(command_views(plan@) =~= before + move_cmds(opt_view(*ns), dev@));
}

fn push_configure(
    plan: &mut Vec<PlannedCommand>,
    ns: &Option<String>,
    dev: &str,
    cidr: &str,
    with_lo: bool,
)
    ensures
        command_views(final(plan)@) == command_views(old(plan)@) + configure_cmds(
            opt_view(*ns),
            dev@,
            cidr@,
            with_lo,
        ),
{
    let ghost before = command_views(plan@);
    match ns {
        Some(n) => {
            let n = n.as_str();
            let a = ["netns", "exec", n, "ip", "addr", "add", cidr, "dev", dev];
            assert(word_views(a@) =~= seq![
                "netns"@,
                "exec"@,
                n@,
                "ip"@,
                "addr"@,
                "add"@,
                cidr@,
                "dev"@,
                dev@,
            ]);
            push_command(plan, ip_words(&a, OnFailure::Fail));
            let b = ["netns", "exec", n, "ip", "link", "set", dev, "up"];
            assert(word_views(b@) =~= seq!["netns"@, "exec"@, n@, "ip"@, "link"@, "set"@, dev@, "up"@]);
            push_command(plan, ip_words(&b, OnFailure::Fail));
            if with_lo {
                let c = ["netns", "exec", n, "ip", "link", "set", "lo", "up"];
                assert(word_views(c@) =~= seq![
                    "netns"@,
                    "exec"@,
                    n@,
                    "ip"@,
                    "link"@,
                    "set"@,
                    "lo"@,
                    "up"@,
                ]);
                push_command(plan, ip_words(&c, OnFailure::Fail));
            }
        },
        None => {
            let a = ["addr", "add", cidr, "dev", dev];
            assert(word_views(a@) =~= seq!["addr"@, "add"@, cidr@, "dev"@, dev@]);
            push_command(plan, ip_words(&a, OnFailure::Fail));
            let b = ["link", "set", dev, "up"];
            assert(word_views(b@) =~= seq!["link"@, "set"@, dev@, "up"@]);
            push_command(plan, ip_words(&b, OnFailure::Fail));
        },
    }
    assert(command_views(plan@) =~= before + configure_cmds(opt_view(*ns), dev@, cidr@, with_lo));
}

fn push_del_ns(plan: &mut Vec<PlannedCommand>, ns: &Option<String>)
    ensures
        command_views(final(plan)@) == command_views(old(plan)@) + del_ns_cmds(opt_view(*ns)),
{
    let ghost before = command_views(plan@);
    if let Some(n) = ns {
        let n = n.as_str();
        let a = ["netns", "del", n];
        assert(word_views(a@) =~= seq!["netns"@, "del"@, n@]);
        push_command(plan, ip_words(&a, OnFailure::Ignore));
    }
    assert(command_views(plan@) =~= before + del_ns_cmds(opt_view(*ns)));
}

fn copy_opt(o: &Option<String>) -> (r: Option<String>)
    ensures
        opt_view(r) == opt_view(*o),
{
    match o {
        Some(s) => Some(lit(s.as_str())),
        None => None,
    }
}

impl VethPair {
    /// The commands that create the link of `cfg`, in order, each with what
    /// its failure means.
    pub fn creation_commands(cfg: &VethPairConfig) -> (plan: Vec<PlannedCommand>)
        ensures
            command_views(plan@) == creation_plan(
                cfg.tx_if@,
                cfg.rx_if@,
                cfg.tx_ip_cidr@,
                cfg.rx_ip_cidr@,
                opt_view(cfg.tx_ns),
                opt_view(cfg.rx_ns),
            ),
    {
        let tx = cfg.tx_if.as_str();
        let rx = cfg.rx_if.as_str();
        let mut plan: Vec<PlannedCommand> = Vec::new();
        assert(command_views(plan@) =~= Seq::<CommandView>::empty());
        push_ensure_ns(&mut plan, &cfg.tx_ns);
        push_ensure_ns(&mut plan, &cfg.rx_ns);
        let a = ["link", "del", "dev", tx];
        assert(word_views(a@) =~= seq!["link"@, "del"@, "dev"@, tx@]);
        push_command(&mut plan, ip_words(&a, OnFailure::Ignore));
        let b = ["link", "del", "dev", rx];
        assert(word_views(b@) =~= seq!["link"@, "del"@, "dev"@, rx@]);
        push_command(&mut plan, ip_words(&b, OnFailure::Ignore));
        push_del_in_ns(&mut plan, &cfg.tx_ns, tx);
        push_del_in_ns(&mut plan, &cfg.rx_ns, rx);
        let c = ["link", "add", tx, "type", "veth", "peer", "name", rx];
        assert(word_views(c@) =~= seq![
            "link"@,
            "add"@,
            tx@,
            "type"@,
            "veth"@,
            "peer"@,
            "name"@,
            rx@,
        ]);
        push_command(&mut plan, ip_words(&c, OnFailure::Fail));
        push_move(&mut plan, &cfg.tx_ns, tx);
        push_move(&mut plan, &cfg.rx_ns, rx);
        push_configure(&mut plan, &cfg.tx_ns, tx, cfg.tx_ip_cidr.as_str(), false);
        push_configure(&mut plan, &cfg.rx_ns, rx, cfg.rx_ip_cidr.as_str(), true);
        plan
    }

    /// The link that the commands of `cfg` create.
    pub fn from_config(cfg: &VethPairConfig) -> (p: VethPair)
        ensures
            p.tx_if@ == cfg.tx_if@,
            p.rx_if@ == cfg.rx_if@,
            opt_view(p.tx_ns) == opt_view(cfg.tx_ns),
            opt_view(p.rx_ns) == opt_view(cfg.rx_ns),
    {
        VethPair {
            tx_if: lit(cfg.tx_if.as_str()),
            rx_if: lit(cfg.rx_if.as_str()),
            tx_ns: copy_opt(&cfg.tx_ns),
            rx_ns: copy_opt(&cfg.rx_ns),
        }
    }

    /// The commands that delete this link, in order; all are best effort.
    pub fn deletion_commands(&self) -> (plan: Vec<PlannedCommand>)
        ensures
            command_views(plan@) == deletion_plan(self.tx_if@, opt_view(self.tx_ns), opt_view(
                self.rx_ns,
            )),
    {
        let tx = self.tx_if.as_str();
        let mut plan: Vec<PlannedCommand> = Vec::new();
        let a = ["link", "del", "dev", tx];
        assert(word_views(a@) =~= seq!["link"@, "del"@, "dev"@, tx@]);
        push_command(&mut plan, ip_words(&a, OnFailure::Ignore));
        assert(command_views(plan@) =~= seq![ip_cmd(seq!["link"@, "del"@, "dev"@, tx@], OnFailure::Ignore)]);
        push_del_ns(&mut plan, &self.tx_ns);
        push_del_ns(&mut plan, &self.rx_ns);
        plan
    }
}

} // verus!
