//! A container-friendly test network: the steps that set up two namespaces
//! joined to the root namespace by veth pairs, the `ip` arguments of each
//! step, what a failed step means, and the bookkeeping of what was created
//! so that it can be removed again.

use vstd::prelude::*;
use vstd::string::*;

use crate::network_sim::command::{word_views, words};
use crate::network_sim::qdisc::{lit, push_arg, string_views};
use crate::text::{push_str, seq_contains, str_contains};

verus! {

/// Errors of the test network.
#[derive(Debug)]
pub enum DockerNetworkError {
    /// A command could not be run.
    CommandFailed(String),
    /// A namespace operation failed.
    NamespaceError(String),
    /// An interface operation failed.
    InterfaceError(String),
}

/// The message of an error.
pub open spec fn docker_error_message(e: DockerNetworkError) -> Seq<char> {
    match e {
        DockerNetworkError::CommandFailed(m) => m@,
        DockerNetworkError::NamespaceError(m) => m@,
        DockerNetworkError::InterfaceError(m) => m@,
    }
}

/// One step of setting up the test network.
#[derive(Debug)]
pub enum SetupStep {
    CreateNamespace { name: String },
    CreateVethPair { if1: String, if2: String },
    MoveInterface { interface: String, namespace: String },
    ConfigureInterface { interface: String, addr: String },
    ConfigureInterfaceInNamespace { namespace: String, interface: String, addr: String },
    BringUpInterface { interface: String },
    BringUpInterfaceInNamespace { namespace: String, interface: String },
}

/// The content of a `SetupStep`.
pub enum StepView {
    CreateNamespace { name: Seq<char> },
    CreateVethPair { if1: Seq<char>, if2: Seq<char> },
    MoveInterface { interface: Seq<char>, namespace: Seq<char> },
    ConfigureInterface { interface: Seq<char>, addr: Seq<char> },
    ConfigureInterfaceInNamespace { namespace: Seq<char>, interface: Seq<char>, addr: Seq<char> },
    BringUpInterface { interface: Seq<char> },
    BringUpInterfaceInNamespace { namespace: Seq<char>, interface: Seq<char> },
}

impl View for SetupStep {
    type V = StepView;

    open spec fn view(&self) -> StepView {
        match self {
            SetupStep::CreateNamespace { name } => StepView::CreateNamespace { name: name@ },
            SetupStep::CreateVethPair { if1, if2 } => StepView::CreateVethPair {
                if1: if1@,
                if2: if2@,
            },
            SetupStep::MoveInterface { interface, namespace } => StepView::MoveInterface {
                interface: interface@,
                namespace: namespace@,
            },
            SetupStep::ConfigureInterface { interface, addr } => StepView::ConfigureInterface {
                interface: interface@,
                addr: addr@,
            },
            SetupStep::ConfigureInterfaceInNamespace {
                namespace,
                interface,
                addr,
            } => StepView::ConfigureInterfaceInNamespace {
                namespace: namespace@,
                interface: interface@,
                addr: addr@,
            },
            SetupStep::BringUpInterface { interface } => StepView::BringUpInterface {
                interface: interface@,
            },
            SetupStep::BringUpInterfaceInNamespace {
                namespace,
                interface,
            } => StepView::BringUpInterfaceInNamespace {
                namespace: namespace@,
                interface: interface@,
            },
        }
    }
}

/// The contents of a sequence of steps.
pub open spec fn step_views(v: Seq<SetupStep>) -> Seq<StepView> {
    v.map_values(|s: SetupStep| s@)
}

/// The `ip` arguments of a step.
pub open spec fn step_args_spec(s: StepView) -> Seq<Seq<char>> {
    match s {
        StepView::CreateNamespace { name } => seq!["netns"@, "add"@, name],
        StepView::CreateVethPair { if1, if2 } => seq![
            "link"@,
            "add"@,
            if1,
            "type"@,
            "veth"@,
            "peer"@,
            "name"@,
            if2,
        ],
        StepView::MoveInterface { interface, namespace } => seq![
            "link"@,
            "set"@,
            interface,
            "netns"@,
            namespace,
        ],
        StepView::ConfigureInterface { interface, addr } => seq![
            "addr"@,
            "add"@,
            addr,
            "dev"@,
            interface,
        ],
        StepView::ConfigureInterfaceInNamespace { namespace, interface, addr } => seq![
            "netns"@,
            "exec"@,
            namespace,
            "ip"@,
            "addr"@,
            "add"@,
            addr,
            "dev"@,
            interface,
        ],
        StepView::BringUpInterface { interface } => seq!["link"@, "set"@, interface, "up"@],
        StepView::BringUpInterfaceInNamespace { namespace, interface } => seq![
            "netns"@,
            "exec"@,
            namespace,
            "ip"@,
            "link"@,
            "set"@,
            interface,
            "up"@,
        ],
    }
}

/// Whether a failed step is accepted when the object exists already.
pub open spec fn tolerates_existing(s: StepView) -> bool {
    match s {
        StepView::CreateNamespace { .. } => true,
        StepView::CreateVethPair { .. } => true,
        StepView::ConfigureInterface { .. } => true,
        StepView::ConfigureInterfaceInNamespace { .. } => true,
        _ => false,
    }
}

/// The message of a step whose command ran and failed with `stderr`.
pub open spec fn step_failure_message(s: StepView, stderr: Seq<char>) -> Seq<char> {
    match s {
        StepView::CreateNamespace { name } => "Failed to create namespace "@ + name + ": "@
            + stderr,
        StepView::CreateVethPair { if1, if2 } => "Failed to create veth pair "@ + if1 + "-"@ + if2
            + ": "@ + stderr,
        StepView::MoveInterface { interface, namespace } => "Failed to move interface "@
            + interface + " to namespace "@ + namespace + ": "@ + stderr,
        StepView::ConfigureInterface { interface, addr } => "Failed to configure interface "@
            + interface + " with "@ + addr + ": "@ + stderr,
        StepView::ConfigureInterfaceInNamespace { namespace, interface, addr } =>
            "Failed to configure interface "@ + interface + " in namespace "@ + namespace
            + " with "@ + addr + ": "@ + stderr,
        StepView::BringUpInterface { interface } => "Failed to bring up interface "@ + interface
            + ": "@ + stderr,
        StepView::BringUpInterfaceInNamespace { namespace, interface } =>
            "Failed to bring up interface "@ + interface + " in namespace "@ + namespace + ": "@
            + stderr,
    }
}

/// The message of a step whose command could not be run; `reason` is the
/// text of the error.
pub open spec fn step_spawn_message(s: StepView, reason: Seq<char>) -> Seq<char> {
    match s {
        StepView::CreateNamespace { name } => "Failed to create namespace "@ + name + ": "@
            + reason,
        StepView::CreateVethPair { .. } => "Failed to create veth pair: "@ + reason,
        StepView::MoveInterface { .. } => "Failed to move interface: "@ + reason,
        StepView::ConfigureInterface { .. } => "Failed to configure interface: "@ + reason,
        StepView::ConfigureInterfaceInNamespace { .. } =>
            "Failed to configure interface in namespace: "@ + reason,
        StepView::BringUpInterface { .. } => "Failed to bring up interface: "@ + reason,
        StepView::BringUpInterfaceInNamespace { .. } =>
            "Failed to bring up interface in namespace: "@ + reason,
    }
}

/// The steps of the basic test network: namespaces `test_ns1` and
/// `test_ns2`, veth pairs `veth_test0`/`veth_test1` and
/// `veth_test2`/`veth_test3` with the odd ends moved into the namespaces,
/// addresses in `192.168.100.0/24` and `192.168.101.0/24`, and all ends up.
pub open spec fn basic_network_plan() -> Seq<StepView> {
    seq![
        StepView::CreateNamespace { name: "test_ns1"@ },
        StepView::CreateNamespace { name: "test_ns2"@ },
        StepView::CreateVethPair { if1: "veth_test0"@, if2: "veth_test1"@ },
        StepView::CreateVethPair { if1: "veth_test2"@, if2: "veth_test3"@ },
        StepView::MoveInterface { interface: "veth_test1"@, namespace: "test_ns1"@ },
        StepView::MoveInterface { interface: "veth_test3"@, namespace: "test_ns2"@ },
        StepView::ConfigureInterface { interface: "veth_test0"@, addr: "192.168.100.1/24"@ },
        StepView::ConfigureInterface { interface: "veth_test2"@, addr: "192.168.101.1/24"@ },
        StepView::ConfigureInterfaceInNamespace {
            namespace: "test_ns1"@,
            interface: "veth_test1"@,
            addr: "192.168.100.2/24"@,
        },
        StepView::ConfigureInterfaceInNamespace {
            namespace: "test_ns2"@,
            interface: "veth_test3"@,
            addr: "192.168.101.2/24"@,
        },
        StepView::BringUpInterface { interface: "veth_test0"@ },
        StepView::BringUpInterface { interface: "veth_test2"@ },
        StepView::BringUpInterfaceInNamespace { namespace: "test_ns1"@, interface: "veth_test1"@ },
        StepView::BringUpInterfaceInNamespace { namespace: "test_ns2"@, interface: "veth_test3"@ },
    ]
}

fn push_step(v: &mut Vec<SetupStep>, s: SetupStep)
    ensures
        step_views(final(v)@) == step_views(old(v)@).push(s@),
{
    let ghost before = v@;
    v.push(s);
    assert(step_views(v@) =~= step_views(before).push(s@));
}

/// The steps of the basic test network, in order.
pub fn basic_network_steps() -> (v: Vec<SetupStep>)
    ensures
        step_views(v@) == basic_network_plan(),
{
    let mut v: Vec<SetupStep> = Vec::new();
    push_step(&mut v, SetupStep::CreateNamespace { name: lit("test_ns1") });
    push_step(&mut v, SetupStep::CreateNamespace { name: lit("test_ns2") });
    push_step(&mut v, SetupStep::CreateVethPair { if1: lit("veth_test0"), if2: lit("veth_test1") });
    push_step(&mut v, SetupStep::CreateVethPair { if1: lit("veth_test2"), if2: lit("veth_test3") });
    push_step(
        &mut v,
        SetupStep::MoveInterface { interface: lit("veth_test1"), namespace: lit("test_ns1") },
    );
    push_step(
        &mut v,
        SetupStep::MoveInterface { interface: lit("veth_test3"), namespace: lit("test_ns2") },
    );
    push_step(
        &mut v,
        SetupStep::ConfigureInterface { interface: lit("veth_test0"), addr: lit("192.168.100.1/24") },
    );
    push_step(
        &mut v,
        SetupStep::ConfigureInterface { interface: lit("veth_test2"), addr: lit("192.168.101.1/24") },
    );
    push_step(
        &mut v,
        SetupStep::ConfigureInterfaceInNamespace {
            namespace: lit("test_ns1"),
            interface: lit("veth_test1"),
            addr: lit("192.168.100.2/24"),
        },
    );
    push_step(
        &mut v,
        SetupStep::ConfigureInterfaceInNamespace {
            namespace: lit("test_ns2"),
            interface: lit("veth_test3"),
            addr: lit("192.168.101.2/24"),
        },
    );
    push_step(&mut v, SetupStep::BringUpInterface { interface: lit("veth_test0") });
    push_step(&mut v, SetupStep::BringUpInterface { interface: lit("veth_test2") });
    push_step(
        &mut v,
        SetupStep::BringUpInterfaceInNamespace { namespace: lit("test_ns1"), interface: lit("veth_test1") },
    );
    push_step(
        &mut v,
        SetupStep::BringUpInterfaceInNamespace { namespace: lit("test_ns2"), interface: lit("veth_test3") },
    );
    assert(step_views(v@) =~= basic_network_plan());
    v
}

/// The `ip` arguments of a step.
pub fn step_args(s: &SetupStep) -> (args: Vec<String>)
    ensures
        string_views(args@) == step_args_spec(s@),
{
    match s {
        SetupStep::CreateNamespace { name } => {
            let n = name.as_str();
            let a = ["netns", "add", n];
            assert(word_views(a@) =~= step_args_spec(s@));
            words(&a)
        },
        SetupStep::CreateVethPair { if1, if2 } => {
            let x = if1.as_str();
            let y = if2.as_str();
            let a = ["link", "add", x, "type", "veth", "peer", "name", y];
            assert(word_views(a@) =~= step_args_spec(s@));
            words(&a)
        },
        SetupStep::MoveInterface { interface, namespace } => {
            let i = interface.as_str();
            let n = namespace.as_str();
            let a = ["link", "set", i, "netns", n];
            assert(word_views(a@) =~= step_args_spec(s@));
            words(&a)
        },
        SetupStep::ConfigureInterface { interface, addr } => {
            let i = interface.as_str();
            let d = addr.as_str();
            let a = ["addr", "add", d, "dev", i];
            assert(word_views(a@) =~= step_args_spec(s@));
            words(&a)
        },
        SetupStep::ConfigureInterfaceInNamespace { namespace, interface, addr } => {
            let n = namespace.as_str();
            let i = interface.as_str();
            let d = addr.as_str();
            let a = ["netns", "exec", n, "ip", "addr", "add", d, "dev", i];
            assert(word_views(a@) =~= step_args_spec(s@));
            words(&a)
        },
        SetupStep::BringUpInterface { interface } => {
            let i = interface.as_str();
            let a = ["link", "set", i, "up"];
            assert(word_views(a@) =~= step_args_spec(s@));
            words(&a)
        },
        SetupStep::BringUpInterfaceInNamespace { namespace, interface } => {
            let n = namespace.as_str();
            let i = interface.as_str();
            let a = ["netns", "exec", n, "ip", "link", "set", i, "up"];
            assert(word_views(a@) =~= step_args_spec(s@));
            words(&a)
        },
    }
}

fn step_failure_text(s: &SetupStep, stderr: &str) -> (m: String)
    ensures
        m@ == step_failure_message(s@, stderr@),
{
    let mut m: String;
    match s {
        SetupStep::CreateNamespace { name } => {
            m = lit("Failed to create namespace ");
            push_str(&mut m, name.as_str());
        },
        SetupStep::CreateVethPair { if1, if2 } => {
            m = lit("Failed to create veth pair ");
            push_str(&mut m, if1.as_str());
            push_str(&mut m, "-");
            push_str(&mut m, if2.as_str());
        },
        SetupStep::MoveInterface { interface, namespace } => {
            m = lit("Failed to move interface ");
            push_str(&mut m, interface.as_str());
            push_str(&mut m, " to namespace ");
            push_str(&mut m, namespace.as_str());
        },
        SetupStep::ConfigureInterface { interface, addr } => {
            m = lit("Failed to configure interface ");
            push_str(&mut m, interface.as_str());
            push_str(&mut m, " with ");
            push_str(&mut m, addr.as_str());
        },
        SetupStep::ConfigureInterfaceInNamespace { namespace, interface, addr } => {
            m = lit("Failed to configure interface ");
            push_str(&mut m, interface.as_str());
            push_str(&mut m, " in namespace ");
            push_str(&mut m, namespace.as_str());
            push_str(&mut m, " with ");
            push_str(&mut m, addr.as_str());
        },
        SetupStep::BringUpInterface { interface } => {
            m = lit("Failed to bring up interface ");
            push_str(&mut m, interface.as_str());
        },
        SetupStep::BringUpInterfaceInNamespace { namespace, interface } => {
            m = lit("Failed to bring up interface ");
            push_str(&mut m, interface.as_str());
            push_str(&mut m, " in namespace ");
            push_str(&mut m, namespace.as_str());
        },
    }
    push_str(&mut m, ": ");
    push_str(&mut m, stderr);
    m
}

/// The error of a step whose command could not be run; `reason` is the
/// text of the error.
pub fn step_spawn_failure(s: &SetupStep, reason: &str) -> (e: DockerNetworkError)
    ensures
        e is CommandFailed,
        docker_error_message(e) == step_spawn_message(s@, reason@),
{
    let mut m: String;
    match s {
        SetupStep::CreateNamespace { name } => {
            m = lit("Failed to create namespace ");
            push_str(&mut m, name.as_str());
            push_str(&mut m, ": ");
        },
        SetupStep::CreateVethPair { .. } => {
            m = lit("Failed to create veth pair: ");
        },
        SetupStep::MoveInterface { .. } => {
            m = lit("Failed to move interface: ");
        },
        SetupStep::ConfigureInterface { .. } => {
            m = lit("Failed to configure interface: ");
        },
        SetupStep::ConfigureInterfaceInNamespace { .. } => {
            m = lit("Failed to configure interface in namespace: ");
        },
        SetupStep::BringUpInterface { .. } => {
            m = lit("Failed to bring up interface: ");
        },
        SetupStep::BringUpInterfaceInNamespace { .. } => {
            m = lit("Failed to bring up interface in namespace: ");
        },
    }
    push_str(&mut m, reason);
    DockerNetworkError::CommandFailed(m)
}

/// Test network environment: the namespaces and root-namespace interfaces
/// created so far, in creation order.
pub struct DockerNetworkEnv {
    pub namespaces: Vec<String>,
    pub interfaces: Vec<String>,
}

/// What a step records when it goes through: a namespace or both ends of a
/// pair; other steps record nothing.
pub open spec fn recorded_namespaces(ns: Seq<Seq<char>>, s: StepView) -> Seq<Seq<char>> {
    match s {
        StepView::CreateNamespace { name } => ns.push(name),
        _ => ns,
    }
}

/// The interfaces recorded after step `s` went through.
pub open spec fn recorded_interfaces(ifs: Seq<Seq<char>>, s: StepView) -> Seq<Seq<char>> {
    match s {
        StepView::CreateVethPair { if1, if2 } => ifs.push(if1).push(if2),
        _ => ifs,
    }
}

/// `ip` arguments that delete every recorded namespace, then every
/// recorded interface.
pub open spec fn cleanup_plan(ns: Seq<Seq<char>>, ifs: Seq<Seq<char>>) -> Seq<Seq<Seq<char>>> {
    ns.map_values(|n: Seq<char>| seq!["netns"@, "del"@, n]) + ifs.map_values(
        |i: Seq<char>| seq!["link"@, "del"@, i],
    )
}

impl DockerNetworkEnv {
    /// An environment that has created nothing.
    pub fn new() -> (env: Self)
        ensures
            env.namespaces@.len() == 0,
            env.interfaces@.len() == 0,
    {
        DockerNetworkEnv { namespaces: Vec::new(), interfaces: Vec::new() }
    }

    /// Completes a step whose command ran: a success, or a failure that the
    /// step accepts because the object exists already, goes through and is
    /// recorded; any other failure is reported and nothing is recorded.
    pub fn complete_step(&mut self, s: &SetupStep, success: bool, stderr: &str) -> (r: Result<
        (),
        DockerNetworkError,
    >)
        ensures
            (success || (tolerates_existing(s@) && seq_contains(stderr@, "File exists"@))) ==> (
            r is Ok && string_views(final(self).namespaces@) == recorded_namespaces(
                string_views(old(self).namespaces@),
                s@,
            ) && string_views(final(self).interfaces@) == recorded_interfaces(
                string_views(old(self).interfaces@),
                s@,
            )),
            !(success || (tolerates_existing(s@) && seq_contains(stderr@, "File exists"@))) ==> (
            r matches Err(e) && (s@ is CreateNamespace ==> e is NamespaceError) && (
            !(s@ is CreateNamespace) ==> e is InterfaceError) && docker_error_message(e)
                == step_failure_message(s@, stderr@) && final(self).namespaces@ == old(
                self,
            ).namespaces@ && final(self).interfaces@ == old(self).interfaces@),
        // creating a namespace or a veth pair that exists already goes
        // through and records it for cleanup
        (s@ matches StepView::CreateNamespace { name } ==> ((success || seq_contains(
            stderr@,
            "File exists"@,
        )) ==> (r is Ok && string_views(final(self).namespaces@) == string_views(
            old(self).namespaces@,
        ).push(name) && final(self).interfaces@ == old(self).interfaces@))),
        (s@ matches StepView::CreateVethPair { if1, if2 } ==> ((success || seq_contains(
            stderr@,
            "File exists"@,
        )) ==> (r is Ok && string_views(final(self).interfaces@) == string_views(
            old(self).interfaces@,
        ).push(if1).push(if2) && final(self).namespaces@ == old(self).namespaces@))),
        // an address that is already assigned is accepted
        ((s@ is ConfigureInterface || s@ is ConfigureInterfaceInNamespace) && (success
            || seq_contains(stderr@, "File exists"@)) ==> (r is Ok && final(self).namespaces@
            == old(self).namespaces@ && final(self).interfaces@ == old(self).interfaces@)),
        // moving an interface or bringing one up accepts no failure
        ((s@ is MoveInterface || s@ is BringUpInterface || s@ is BringUpInterfaceInNamespace)
            ==> (r is Ok <==> success) && final(self).namespaces@ == old(self).namespaces@
            && final(self).interfaces@ == old(self).interfaces@),
    {
        let tolerant = match s {
            SetupStep::CreateNamespace { .. } => true,
            SetupStep::CreateVethPair { .. } => true,
            SetupStep::ConfigureInterface { .. } => true,
            SetupStep::ConfigureInterfaceInNamespace { .. } => true,
            _ => false,
        };
        if !success && !(tolerant && str_contains(stderr, "File exists")) {
            let m = step_failure_text(s, stderr);
            return match s {
                SetupStep::CreateNamespace { .. } => Err(DockerNetworkError::NamespaceError(m)),
                _ => Err(DockerNetworkError::InterfaceError(m)),
            };
        }
        match s {
            SetupStep::CreateNamespace { name } => {
                let ghost before = self.namespaces@;
                self.namespaces.push(lit(name.as_str()));
                assert(string_views(self.namespaces@) =~= string_views(before).push(name@));
            },
            SetupStep::CreateVethPair { if1, if2 } => {
                let ghost before = self.interfaces@;
                self.interfaces.push(lit(if1.as_str()));
                self.interfaces.push(lit(if2.as_str()));
                assert(string_views(self.interfaces@) =~= string_views(before).push(if1@).push(
                    if2@,
                ));
            },
            _ => {},
        }
        Ok(())
    }

    /// The `ip` arguments that remove everything recorded: each namespace
    /// (which also removes the interfaces inside it), then each interface
    /// left in the root namespace.
    pub fn cleanup_commands(&self) -> (r: Vec<Vec<String>>)
        ensures
            r@.map_values(|a: Vec<String>| string_views(a@)) == cleanup_plan(
                string_views(self.namespaces@),
                string_views(self.interfaces@),
            ),
    {
        let ghost nsv = string_views(self.namespaces@);
        let ghost ifv = string_views(self.interfaces@);
        let mut r: Vec<Vec<String>> = Vec::new();
        let mut i: usize = 0;
        while i < self.namespaces.len()
            invariant
                i <= self.namespaces@.len(),
                nsv == string_views(self.namespaces@),
                r@.map_values(|a: Vec<String>| string_views(a@)) == nsv.take(i as int).map_values(
                    |n: Seq<char>| seq!["netns"@, "del"@, n],
                ),
            decreases self.namespaces.len() - i,
        {
            let n = self.namespaces[i].as_str();
            let a = ["netns", "del", n];
            assert(word_views(a@) =~= seq!["netns"@, "del"@, n@]);
            let ghost before = r@;
            r.push(words(&a));
            assert(r@.map_values(|a: Vec<String>| string_views(a@)) =~= before.map_values(
                |a: Vec<String>| string_views(a@),
            ).push(seq!["netns"@, "del"@, n@]));
            assert(nsv.take(i as int + 1).map_values(|n: Seq<char>| seq!["netns"@, "del"@, n])
                =~= nsv.take(i as int).map_values(|n: Seq<char>| seq!["netns"@, "del"@, n]).push(
                seq!["netns"@, "del"@, n@],
            ));
            i = i + 1;
        }
        assert(nsv.take(nsv.len() as int) =~= nsv);
        let ghost head = r@.map_values(|a: Vec<String>| string_views(a@));
        let mut j: usize = 0;
        while j < self.interfaces.len()
            invariant
                j <= self.interfaces@.len(),
                ifv == string_views(self.interfaces@),
                r@.map_values(|a: Vec<String>| string_views(a@)) == head + ifv.take(
                    j as int,
                ).map_values(|x: Seq<char>| seq!["link"@, "del"@, x]),
            decreases self.interfaces.len() - j,
        {
            let x = self.interfaces[j].as_str();
            let a = ["link", "del", x];
            assert(word_views(a@) =~= seq!["link"@, "del"@, x@]);
            let ghost before = r@;
            r.push(words(&a));
            assert(r@.map_values(|a: Vec<String>| string_views(a@)) =~= before.map_values(
                |a: Vec<String>| string_views(a@),
            ).push(seq!["link"@, "del"@, x@]));
            assert(ifv.take(j as int + 1).map_values(|x: Seq<char>| seq!["link"@, "del"@, x])
                =~= ifv.take(j as int).map_values(|x: Seq<char>| seq!["link"@, "del"@, x]).push(
                seq!["link"@, "del"@, x@],
            ));
            j = j + 1;
        }
        assert(ifv.take(ifv.len() as int) =~= ifv);
        r
    }

    /// Forgets everything recorded, once the cleanup commands have run.
    pub fn clear(&mut self)
        ensures
            final(self).namespaces@.len() == 0,
            final(self).interfaces@.len() == 0,
    {
        self.namespaces.clear();
        self.interfaces.clear();
    }
}

/// `tc` arguments that replace the root qdisc of `interface` by netem with a
/// delay in milliseconds, a loss given as rendered percentage text, and a
/// rate in kbit/s.
pub open spec fn impairment_args_spec(
    interface: Seq<char>,
    delay_ms: u32,
    loss: Seq<char>,
    rate_kbps: u32,
) -> Seq<Seq<char>> {
    seq![
        "qdisc"@,
        "add"@,
        "dev"@,
        interface,
        "root"@,
        "handle"@,
        "1:"@,
        "netem"@,
        "delay"@,
        crate::text::decimal(delay_ms as nat) + "ms"@,
        "loss"@,
        loss + "%"@,
        "rate"@,
        crate::text::decimal(rate_kbps as nat) + "kbit"@,
    ]
}

/// Each impairment reaches netem as its own value on the given interface:
/// `delay` is followed by the delay in milliseconds, `loss` by the loss
/// percentage and `rate` by the rate in kbit/s, and netem replaces the root
/// qdisc of that interface.
pub proof fn lemma_impairment_words(interface: Seq<char>, delay_ms: u32, loss: Seq<char>, rate_kbps: u32)
    ensures
        ({
            let a = impairment_args_spec(interface, delay_ms, loss, rate_kbps);
            &&& a.len() == 14
            &&& a[2] == "dev"@ && a[3] == interface && a[4] == "root"@ && a[7] == "netem"@
            &&& a[8] == "delay"@ && a[9] == crate::text::decimal(delay_ms as nat) + "ms"@
            &&& a[10] == "loss"@ && a[11] == loss + "%"@
            &&& a[12] == "rate"@ && a[13] == crate::text::decimal(rate_kbps as nat) + "kbit"@
        }),
{
}

/// Builds `impairment_args_spec`.
pub fn impairment_args(interface: &str, delay_ms: u32, loss: &str, rate_kbps: u32) -> (args: Vec<
    String,
>)
    ensures
        string_views(args@) == impairment_args_spec(interface@, delay_ms, loss@, rate_kbps),
{
    let mut v: Vec<String> = Vec::new();
    push_arg(&mut v, lit("qdisc"));
    push_arg(&mut v, lit("add"));
    push_arg(&mut v, lit("dev"));
    push_arg(&mut v, lit(interface));
    push_arg(&mut v, lit("root"));
    push_arg(&mut v, lit("handle"));
    push_arg(&mut v, lit("1:"));
    push_arg(&mut v, lit("netem"));
    push_arg(&mut v, lit("delay"));
    let mut d = crate::text::u64_to_decimal(delay_ms as u64);
    push_str(&mut d, "ms");
    push_arg(&mut v, d);
    push_arg(&mut v, lit("loss"));
    let mut l = lit(loss);
    push_str(&mut l, "%");
    push_arg(&mut v, l);
    push_arg(&mut v, lit("rate"));
    let mut k = crate::text::u64_to_decimal(rate_kbps as u64);
    push_str(&mut k, "kbit");
    push_arg(&mut v, k);
    assert(string_views(v@) =~= impairment_args_spec(interface@, delay_ms, loss@, rate_kbps));
    v
}

/// The outcome of applying impairments to `interface`.
pub fn impairment_outcome(interface: &str, success: bool, stderr: &str) -> (r: Result<
    (),
    DockerNetworkError,
>)
    ensures
        success ==> r is Ok,
        !success ==> (r matches Err(DockerNetworkError::InterfaceError(m)) && m@
            == "Failed to apply network impairments to "@ + interface@ + ": "@ + stderr@),
{
    if success {
        Ok(())
    } else {
        let mut m = lit("Failed to apply network impairments to ");
        push_str(&mut m, interface);
        push_str(&mut m, ": ");
        push_str(&mut m, stderr);
        Err(DockerNetworkError::InterfaceError(m))
    }
}

/// `ip` arguments that ping `to_ip` once, waiting one second, from namespace
/// `from_ns`.
pub fn connectivity_args(from_ns: &str, to_ip: &str) -> (args: Vec<String>)
    ensures
        string_views(args@) == seq![
            "netns"@,
            "exec"@,
            from_ns@,
            "ping"@,
            "-c"@,
            "1"@,
            "-W"@,
            "1"@,
            to_ip@,
        ],
{
    let a = ["netns", "exec", from_ns, "ping", "-c", "1", "-W", "1", to_ip];
    assert(word_views(a@) =~= seq![
        "netns"@,
        "exec"@,
        from_ns@,
        "ping"@,
        "-c"@,
        "1"@,
        "-W"@,
        "1"@,
        to_ip@,
    ]);
    words(&a)
}

} // verus!
