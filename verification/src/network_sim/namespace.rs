//! Shaped veth pairs for tests: the commands that create and remove a pair
//! whose receiving end may live in its own namespace, the configurations of
//! numbered test links, and the addresses to connect to.

use vstd::prelude::*;
use vstd::string::*;

use crate::network_sim::command::{
    command_views, ip_cmd, ip_words, push_command, tc_cmd, tc_words, word_views, CommandView,
    OnFailure, PlannedCommand,
};
use crate::network_sim::qdisc::{lit, push_arg, string_views};
use crate::netns_testbench::veth::opt_view;
use crate::text::{decimal, push_str, str_chars, string_from_chars, u64_to_decimal};

verus! {

/// A veth pair whose sending end stays in the root namespace; addresses are
/// in CIDR notation (such as `10.1.1.1/30`). The shaping of the sending end
/// is given separately.
#[derive(Debug)]
pub struct ShapedVethConfig {
    pub tx_interface: String,
    pub rx_interface: String,
    pub tx_ip: String,
    pub rx_ip: String,
    pub rx_namespace: Option<String>,
}

/// Best-effort removal of a pair: its shaping, the receiving namespace, then
/// the pair itself.
pub open spec fn shaped_cleanup_plan(tx: Seq<char>, rx_ns: Option<Seq<char>>) -> Seq<CommandView> {
    seq![tc_cmd(seq!["qdisc"@, "del"@, "dev"@, tx, "root"@], OnFailure::Ignore)] + match rx_ns {
        Some(n) => seq![ip_cmd(seq!["netns"@, "del"@, n], OnFailure::Ignore)],
        None => seq![],
    } + seq![ip_cmd(seq!["link"@, "del"@, "dev"@, tx], OnFailure::Ignore)]
}

/// The commands after the cleanup that create a pair: the pair, the sending
/// end's address and state, then the receiving end, moved into its
/// namespace (created here) when it has one, with loopback brought up there.
pub open spec fn shaped_setup_plan(
    tx: Seq<char>,
    rx: Seq<char>,
    tx_ip: Seq<char>,
    rx_ip: Seq<char>,
    rx_ns: Option<Seq<char>>,
) -> Seq<CommandView> {
    seq![
        ip_cmd(
            seq!["link"@, "add"@, tx, "type"@, "veth"@, "peer"@, "name"@, rx],
            OnFailure::Fail,
        ),
        ip_cmd(seq!["addr"@, "add"@, tx_ip, "dev"@, tx], OnFailure::Fail),
        ip_cmd(seq!["link"@, "set"@, "dev"@, tx, "up"@], OnFailure::Fail),
    ] + match rx_ns {
        Some(n) => seq![
            ip_cmd(seq!["netns"@, "add"@, n], OnFailure::Fail),
            ip_cmd(seq!["link"@, "set"@, "dev"@, rx, "netns"@, n], OnFailure::Fail),
            ip_cmd(seq!["-n"@, n, "addr"@, "add"@, rx_ip, "dev"@, rx], OnFailure::Fail),
            ip_cmd(seq!["-n"@, n, "link"@, "set"@, "dev"@, rx, "up"@], OnFailure::Fail),
            ip_cmd(seq!["-n"@, n, "link"@, "set"@, "dev"@, "lo"@, "up"@], OnFailure::Fail),
        ],
        None => seq![
            ip_cmd(seq!["addr"@, "add"@, rx_ip, "dev"@, rx], OnFailure::Fail),
            ip_cmd(seq!["link"@, "set"@, "dev"@, rx, "up"@], OnFailure::Fail),
        ],
    }
}

/// Whether `c` is an `ip` command that ends in `addr add <addr> dev <dev>`:
/// it gives interface `dev` the address `addr` (in whatever namespace the
/// command runs in).
pub open spec fn assigns_address(c: CommandView, addr: Seq<char>, dev: Seq<char>) -> bool {
    let a = c.args;
    let n = a.len();
    &&& c.program == "ip"@
    &&& n >= 5
    &&& a[n - 5] == "addr"@
    &&& a[n - 4] == "add"@
    &&& a[n - 3] == addr
    &&& a[n - 2] == "dev"@
    &&& a[n - 1] == dev
}

/// Each end of a shaped pair gets its own configured address and no other:
/// the plan gives the sending end its address and the receiving end its
/// address (inside the receiving namespace when there is one), and every
/// address the plan gives an end is that end's own.
pub proof fn lemma_each_end_gets_its_own_address(
    tx: Seq<char>,
    rx: Seq<char>,
    tx_ip: Seq<char>,
    rx_ip: Seq<char>,
    rx_ns: Option<Seq<char>>,
)
    requires
        tx != rx,
    ensures
        ({
            let plan = shaped_cleanup_plan(tx, rx_ns) + shaped_setup_plan(tx, rx, tx_ip, rx_ip, rx_ns);
            &&& exists|i: int| 0 <= i < plan.len() && assigns_address(#[trigger] plan[i], tx_ip, tx)
            &&& exists|i: int| 0 <= i < plan.len() && assigns_address(#[trigger] plan[i], rx_ip, rx)
            &&& forall|i: int, a: Seq<char>|
                0 <= i < plan.len() && #[trigger] assigns_address(plan[i], a, tx) ==> a == tx_ip
            &&& forall|i: int, a: Seq<char>|
                0 <= i < plan.len() && #[trigger] assigns_address(plan[i], a, rx) ==> a == rx_ip
            &&& (rx_ns matches Some(n) ==> exists|i: int|
                0 <= i < plan.len() && assigns_address(#[trigger] plan[i], rx_ip, rx)
                    && plan[i].args[0] == "-n"@ && plan[i].args[1] == n)
        }),
{
    reveal_strlit("addr");
    reveal_strlit("add");
    reveal_strlit("dev");
    reveal_strlit("link");
    reveal_strlit("netns");
    reveal_strlit("qdisc");
    reveal_strlit("set");
    reveal_strlit("del");
    reveal_strlit("type");
    reveal_strlit("-n");
    reveal_strlit("ip");
    reveal_strlit("tc");
    let plan = shaped_cleanup_plan(tx, rx_ns) + shaped_setup_plan(tx, rx, tx_ip, rx_ip, rx_ns);
    let k = shaped_cleanup_plan(tx, rx_ns).len() as int;
    assert(plan[k + 1] == ip_cmd(seq!["addr"@, "add"@, tx_ip, "dev"@, tx], OnFailure::Fail));
    assert(assigns_address(plan[k + 1], tx_ip, tx));
    match rx_ns {
        Some(n) => {
            assert(plan[k + 5] == ip_cmd(
                seq!["-n"@, n, "addr"@, "add"@, rx_ip, "dev"@, rx],
                OnFailure::Fail,
            ));
            assert(assigns_address(plan[k + 5], rx_ip, rx));
        },
        None => {
            assert(plan[k + 3] == ip_cmd(seq!["addr"@, "add"@, rx_ip, "dev"@, rx], OnFailure::Fail));
            assert(assigns_address(plan[k + 3], rx_ip, rx));
        },
    }
    assert forall|i: int, a: Seq<char>|
        0 <= i < plan.len() && #[trigger] assigns_address(plan[i], a, tx) implies a == tx_ip by {
        lemma_plan_addresses(tx, rx, tx_ip, rx_ip, rx_ns, i, a, tx);
    }
    assert forall|i: int, a: Seq<char>|
        0 <= i < plan.len() && #[trigger] assigns_address(plan[i], a, rx) implies a == rx_ip by {
        lemma_plan_addresses(tx, rx, tx_ip, rx_ip, rx_ns, i, a, rx);
    }
}

proof fn lemma_plan_addresses(
    tx: Seq<char>,
    rx: Seq<char>,
    tx_ip: Seq<char>,
    rx_ip: Seq<char>,
    rx_ns: Option<Seq<char>>,
    i: int,
    a: Seq<char>,
    dev: Seq<char>,
)
    requires
        tx != rx,
        ({
            let plan = shaped_cleanup_plan(tx, rx_ns) + shaped_setup_plan(tx, rx, tx_ip, rx_ip, rx_ns);
            0 <= i < plan.len() && assigns_address(plan[i], a, dev)
        }),
    ensures
        dev == tx ==> a == tx_ip,
        dev == rx ==> a == rx_ip,
{
    reveal_strlit("addr");
    reveal_strlit("add");
    reveal_strlit("dev");
    reveal_strlit("link");
    reveal_strlit("netns");
    reveal_strlit("qdisc");
    reveal_strlit("set");
    reveal_strlit("del");
    reveal_strlit("type");
    reveal_strlit("-n");
    reveal_strlit("ip");
    reveal_strlit("tc");
    reveal_strlit("up");
    reveal_strlit("name");
    let c = shaped_cleanup_plan(tx, rx_ns);
    let plan = c + shaped_setup_plan(tx, rx, tx_ip, rx_ip, rx_ns);
    let k = c.len() as int;
    if i < k {
        assert(plan[i] == c[i]);
        assert("addr"@[0] != "link"@[0]);
    } else {
        let j = i - k;
        let sp = shaped_setup_plan(tx, rx, tx_ip, rx_ip, rx_ns);
        assert(plan[i] == sp[j]);
        assert("addr"@[0] != "link"@[0] && "addr"@[0] != "netns"@[0] && "addr"@[0] != "-n"@[0]);
        assert("dev"@[0] != "name"@[0] && "type"@[0] != "addr"@[0] && "set"@[0] != "addr"@[0]);
    }
}

/// The commands that create the pair of `config`: the best-effort cleanup
/// of leftovers, then the setup; the shaping of the sending end follows.
pub fn shaped_creation_commands(config: &ShapedVethConfig) -> (plan: Vec<PlannedCommand>)
    ensures
        command_views(plan@) == shaped_cleanup_plan(
            config.tx_interface@,
            opt_view(config.rx_namespace),
        ) + shaped_setup_plan(
            config.tx_interface@,
            config.rx_interface@,
            config.tx_ip@,
            config.rx_ip@,
            opt_view(config.rx_namespace),
        ),
{
    let mut plan = shaped_cleanup_commands(config);
    let ghost before = command_views(plan@);
    let tx = config.tx_interface.as_str();
    let rx = config.rx_interface.as_str();
    let tx_ip = config.tx_ip.as_str();
    let rx_ip = config.rx_ip.as_str();
    let a = ["link", "add", tx, "type", "veth", "peer", "name", rx];
    assert(word_views(a@) =~= seq!["link"@, "add"@, tx@, "type"@, "veth"@, "peer"@, "name"@, rx@]);
    push_command(&mut plan, ip_words(&a, OnFailure::Fail));
    let b = ["addr", "add", tx_ip, "dev", tx];
    assert(word_views(b@) =~= seq!["addr"@, "add"@, tx_ip@, "dev"@, tx@]);
    push_command(&mut plan, ip_words(&b, OnFailure::Fail));
    let c = ["link", "set", "dev", tx, "up"];
    assert(word_views(c@) =~= seq!["link"@, "set"@, "dev"@, tx@, "up"@]);
    push_command(&mut plan, ip_words(&c, OnFailure::Fail));
    match &config.rx_namespace {
        Some(n) => {
            let n = n.as_str();
            let d = ["netns", "add", n];
            assert(word_views(d@) =~= seq!["netns"@, "add"@, n@]);
            push_command(&mut plan, ip_words(&d, OnFailure::Fail));
            let e = ["link", "set", "dev", rx, "netns", n];
            assert(word_views(e@) =~= seq!["link"@, "set"@, "dev"@, rx@, "netns"@, n@]);
            push_command(&mut plan, ip_words(&e, OnFailure::Fail));
            let f = ["-n", n, "addr", "add", rx_ip, "dev", rx];
            assert(word_views(f@) =~= seq!["-n"@, n@, "addr"@, "add"@, rx_ip@, "dev"@, rx@]);
            push_command(&mut plan, ip_words(&f, OnFailure::Fail));
            let g = ["-n", n, "link", "set", "dev", rx, "up"];
            assert(word_views(g@) =~= seq!["-n"@, n@, "link"@, "set"@, "dev"@, rx@, "up"@]);
            push_command(&mut plan, ip_words(&g, OnFailure::Fail));
            let h = ["-n", n, "link", "set", "dev", "lo", "up"];
            assert(word_views(h@) =~= seq!["-n"@, n@, "link"@, "set"@, "dev"@, "lo"@, "up"@]);
            push_command(&mut plan, ip_words(&h, OnFailure::Fail));
        },
        None => {
            let d = ["addr", "add", rx_ip, "dev", rx];
            assert(word_views(d@) =~= seq!["addr"@, "add"@, rx_ip@, "dev"@, rx@]);
            push_command(&mut plan, ip_words(&d, OnFailure::Fail));
            let e = ["link", "set", "dev", rx, "up"];
            assert(word_views(e@) =~= seq!["link"@, "set"@, "dev"@, rx@, "up"@]);
            push_command(&mut plan, ip_words(&e, OnFailure::Fail));
        },
    }
    assert(command_views(plan@) =~= before + shaped_setup_plan(
        tx@,
        rx@,
        tx_ip@,
        rx_ip@,
        opt_view(config.rx_namespace),
    ));
    plan
}

/// The best-effort commands that remove the pair of `config`.
pub fn shaped_cleanup_commands(config: &ShapedVethConfig) -> (plan: Vec<PlannedCommand>)
    ensures
        command_views(plan@) == shaped_cleanup_plan(
            config.tx_interface@,
            opt_view(config.rx_namespace),
        ),
{
    let tx = config.tx_interface.as_str();
    let mut plan: Vec<PlannedCommand> = Vec::new();
    let a = ["qdisc", "del", "dev", tx, "root"];
    assert(word_views(a@) =~= seq!["qdisc"@, "del"@, "dev"@, tx@, "root"@]);
    push_command(&mut plan, tc_words(&a, OnFailure::Ignore));
    if let Some(n) = &config.rx_namespace {
        let n = n.as_str();
        let b = ["netns", "del", n];
        assert(word_views(b@) =~= seq!["netns"@, "del"@, n@]);
        push_command(&mut plan, ip_words(&b, OnFailure::Ignore));
    }
    let c = ["link", "del", "dev", tx];
    assert(word_views(c@) =~= seq!["link"@, "del"@, "dev"@, tx@]);
    push_command(&mut plan, ip_words(&c, OnFailure::Ignore));
    assert(command_views(plan@) =~= shaped_cleanup_plan(tx@, opt_view(config.rx_namespace)));
    plan
}

/// `prefix` followed by `middle` and the decimal digits of `i`.
pub open spec fn numbered_name(prefix: Seq<char>, middle: Seq<char>, i: nat) -> Seq<char> {
    prefix + middle + decimal(i)
}

/// The address `10.<100+i>.1.<host>/30`.
pub open spec fn test_link_ip(i: nat, host: Seq<char>) -> Seq<char> {
    "10."@ + decimal(100 + i) + ".1."@ + host + "/30"@
}

fn numbered(prefix: &str, middle: &str, i: u64) -> (r: String)
    ensures
        r@ == numbered_name(prefix@, middle@, i as nat),
{
    let mut s = lit(prefix);
    push_str(&mut s, middle);
    let d = u64_to_decimal(i);
    push_str(&mut s, d.as_str());
    s
}

fn link_ip(i: u64, host: &str) -> (r: String)
    requires
        i + 100 <= u64::MAX,
    ensures
        r@ == test_link_ip(i as nat, host@),
{
    let mut s = lit("10.");
    let d = u64_to_decimal(i + 100);
    push_str(&mut s, d.as_str());
    push_str(&mut s, ".1.");
    push_str(&mut s, host);
    push_str(&mut s, "/30");
    s
}

/// The configuration of test link number `i` of a set named `base_name`:
/// interfaces `<base>tx<i>` and `<base>rx<i>`, addresses `10.<100+i>.1.1/30`
/// and `10.<100+i>.1.2/30`, and the receiving end in namespace `<base>ns<i>`.
pub fn rist_test_link_config(base_name: &str, i: u64) -> (c: ShapedVethConfig)
    requires
        i + 100 <= u64::MAX,
    ensures
        c.tx_interface@ == numbered_name(base_name@, "tx"@, i as nat),
        c.rx_interface@ == numbered_name(base_name@, "rx"@, i as nat),
        c.tx_ip@ == test_link_ip(i as nat, "1"@),
        c.rx_ip@ == test_link_ip(i as nat, "2"@),
        opt_view(c.rx_namespace) == Some(numbered_name(base_name@, "ns"@, i as nat)),
{
    ShapedVethConfig {
        tx_interface: numbered(base_name, "tx", i),
        rx_interface: numbered(base_name, "rx", i),
        tx_ip: link_ip(i, "1"),
        rx_ip: link_ip(i, "2"),
        rx_namespace: Some(numbered(base_name, "ns", i)),
    }
}

/// The part of `s` before its first `/` (all of `s` when it has none).
pub open spec fn before_slash(s: Seq<char>) -> Seq<char>
    decreases s.len(),
{
    if s.len() == 0 {
        s
    } else if s[0] == '/' {
        Seq::empty()
    } else {
        seq![s[0]] + before_slash(s.drop_first())
    }
}

/// The address part of an address with prefix length: it is a prefix of
/// the text holding no `/`, the whole text when there is no `/`, and
/// otherwise it is followed by the first `/`.
pub proof fn lemma_before_slash(s: Seq<char>)
    ensures
        before_slash(s).len() <= s.len(),
        before_slash(s) == s.take(before_slash(s).len() as int),
        !before_slash(s).contains('/'),
        !s.contains('/') ==> before_slash(s) == s,
        s.contains('/') ==> s[before_slash(s).len() as int] == '/',
    decreases s.len(),
{
    if s.len() > 0 && s[0] != '/' {
        let t = s.drop_first();
        lemma_before_slash(t);
        let b = before_slash(s);
        assert(b == seq![s[0]] + before_slash(t));
        assert(b =~= s.take(b.len() as int)) by {
            assert forall|k: int| 0 <= k < b.len() implies b[k] == s[k] by {
                if k > 0 {
                    assert(b[k] == before_slash(t)[k - 1]);
                    assert(before_slash(t)[k - 1] == t.take(before_slash(t).len() as int)[k - 1]);
                }
            }
        }
        assert(!b.contains('/')) by {
            if b.contains('/') {
                let k = choose|k: int| 0 <= k < b.len() && b[k] == '/';
                if k > 0 {
                    assert(before_slash(t)[k - 1] == '/');
                }
            }
        }
        if !s.contains('/') {
            assert(!t.contains('/')) by {
                if t.contains('/') {
                    let k = choose|k: int| 0 <= k < t.len() && t[k] == '/';
                    assert(s[k + 1] == '/');
                }
            }
            assert(b =~= s);
        }
        if s.contains('/') {
            assert(t.contains('/')) by {
                let k = choose|k: int| 0 <= k < s.len() && s[k] == '/';
                assert(k > 0);
                assert(t[k - 1] == '/');
            }
            let bt = before_slash(t);
            assert(bt.len() < t.len()) by {
                if bt.len() == t.len() {
                    assert(bt =~= t);
                }
            }
            assert(b.len() == bt.len() + 1);
            assert(s[b.len() as int] == t[bt.len() as int]);
        }
    } else if s.len() > 0 {
        assert(before_slash(s) =~= Seq::<char>::empty());
        assert(s.take(0) =~= Seq::<char>::empty());
        assert(s.contains('/')) by {
            assert(s[0] == '/');
        }
    } else {
        assert(s.take(0) =~= s);
    }
}

fn before_slash_exec(s: &str) -> (r: String)
    ensures
        r@ == before_slash(s@),
{
    let cs = str_chars(s);
    let mut out: Vec<char> = Vec::new();
    let mut i: usize = 0;
    assert(cs@.skip(0) =~= cs@);
    assert(out@ + before_slash(cs@) =~= before_slash(cs@));
    while i < cs.len() && cs[i] != '/'
        invariant
            i <= cs.len(),
            cs@ == s@,
            out@ + before_slash(cs@.skip(i as int)) == before_slash(s@),
        decreases cs.len() - i,
    {
        proof {
            assert(cs@.skip(i as int).drop_first() =~= cs@.skip(i as int + 1));
            assert(out@.push(cs@[i as int]) + before_slash(cs@.skip(i as int + 1)) =~= out@ + (
            seq![cs@[i as int]] + before_slash(cs@.skip(i as int + 1))));
        }
        out.push(cs[i]);
        i = i + 1;
    }
    proof {
        assert(out@ + before_slash(cs@.skip(i as int)) =~= out@);
    }
    string_from_chars(&out)
}

/// The addresses of both ends of `config` without their prefix lengths.
pub fn get_connection_ips(config: &ShapedVethConfig) -> (r: (String, String))
    ensures
        r.0@ == before_slash(config.tx_ip@),
        r.1@ == before_slash(config.rx_ip@),
{
    (before_slash_exec(config.tx_ip.as_str()), before_slash_exec(config.rx_ip.as_str()))
}

/// How a command runs in the receiving namespace of `config`: through
/// `ip netns exec <ns>` when there is one, otherwise directly. Gives the
/// program and its arguments.
pub fn rx_namespace_invocation(config: &ShapedVethConfig, command: &str, args: &[&str]) -> (r: (
    String,
    Vec<String>,
))
    ensures
        config.rx_namespace matches Some(n) ==> r.0@ == "ip"@ && string_views(r.1@) == seq![
            "netns"@,
            "exec"@,
            n@,
            command@,
        ] + word_views(args@),
        config.rx_namespace is None ==> r.0@ == command@ && string_views(r.1@) == word_views(
            args@,
        ),
{
    let rest = crate::network_sim::command::words(args);
    match &config.rx_namespace {
        Some(n) => {
            let mut v: Vec<String> = Vec::new();
            push_arg(&mut v, lit("netns"));
            push_arg(&mut v, lit("exec"));
            push_arg(&mut v, lit(n.as_str()));
            push_arg(&mut v, lit(command));
            let mut i: usize = 0;
            let ghost head = string_views(v@);
            while i < rest.len()
                invariant
                    i <= rest.len(),
                    string_views(v@) == head + string_views(rest@).take(i as int),
                decreases rest.len() - i,
            {
                push_arg(&mut v, lit(rest[i].as_str()));
                assert(string_views(rest@).take(i as int + 1) =~= string_views(rest@).take(
                    i as int,
                ).push(rest@[i as int]@));
                i = i + 1;
            }
            assert(string_views(rest@).take(rest.len() as int) =~= string_views(rest@));
            (lit("ip"), v)
        },
        None => (lit(command), rest),
    }
}

} // verus!
