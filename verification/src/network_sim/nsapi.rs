//! Named network namespaces: the handle, the commands that create and use a
//! namespace, and where its file lives.

use vstd::prelude::*;
use vstd::string::*;

use crate::network_sim::command::{word_views, words};
use crate::network_sim::qdisc::{lit, push_arg, string_views};
use crate::text::{push_str, seq_contains, str_contains};

verus! {

/// A Linux network namespace, by name.
#[derive(Debug, Clone)]
pub struct Namespace {
    name: String,
}

impl View for Namespace {
    type V = Seq<char>;

    closed spec fn view(&self) -> Seq<char> {
        self.name@
    }
}

/// The error message of a failed `ip netns add`.
pub open spec fn ensure_failure_message(name: Seq<char>, stderr: Seq<char>) -> Seq<char> {
    "ip netns add "@ + name + " failed: "@ + stderr
}

impl Namespace {
    /// A handle for an existing namespace (nothing is created).
    pub fn from_existing(name: String) -> (ns: Self)
        ensures
            ns@ == name@,
    {
        Namespace { name }
    }

    /// The namespace name.
    pub fn name(&self) -> (r: &str)
        ensures
            r@ == self@,
    {
        self.name.as_str()
    }

    /// The arguments of `ip` that create namespace `name`.
    pub fn ensure_args(name: &str) -> (args: Vec<String>)
        ensures
            string_views(args@) == seq!["netns"@, "add"@, name@],
    {
        let a = ["netns", "add", name];
        assert(word_views(a@) =~= seq!["netns"@, "add"@, name@]);
        words(&a)
    }

    /// Creating a namespace succeeds when `ip netns add` succeeded or failed
    /// because the namespace exists already; otherwise the error message
    /// names the command and holds its error output.
    pub fn ensure_outcome(name: String, success: bool, stderr: &str) -> (r: Result<Self, String>)
        ensures
            (success || seq_contains(stderr@, "File exists"@)) ==> (r matches Ok(ns) && ns@
                == name@),
            (!success && !seq_contains(stderr@, "File exists"@)) ==> (r matches Err(m) && m@
                == ensure_failure_message(name@, stderr@)),
    {
        if success || str_contains(stderr, "File exists") {
            Ok(Namespace { name })
        } else {
            let mut m = lit("ip netns add ");
            push_str(&mut m, name.as_str());
            push_str(&mut m, " failed: ");
            push_str(&mut m, stderr);
            Err(m)
        }
    }

    /// The arguments of `ip` that delete this namespace.
    pub fn delete_args(&self) -> (args: Vec<String>)
        ensures
            string_views(args@) == seq!["netns"@, "del"@, self@],
    {
        let n = self.name.as_str();
        let a = ["netns", "del", n];
        assert(word_views(a@) =~= seq!["netns"@, "del"@, n@]);
        words(&a)
    }

    /// The arguments of `ip` that run `cmd` with `args` in this namespace.
    pub fn exec_args(&self, cmd: &str, args: &[&str]) -> (r: Vec<String>)
        ensures
            string_views(r@) == seq!["netns"@, "exec"@, self@, cmd@] + word_views(args@),
    {
        let mut v: Vec<String> = Vec::new();
        push_arg(&mut v, lit("netns"));
        push_arg(&mut v, lit("exec"));
        push_arg(&mut v, lit(self.name.as_str()));
        push_arg(&mut v, lit(cmd));
        let ghost head = string_views(v@);
        let mut i: usize = 0;
        while i < args.len()
            invariant
                i <= args@.len(),
                string_views(v@) == head + word_views(args@.take(i as int)),
            decreases args.len() - i,
        {
            push_arg(&mut v, lit(args[i]));
            assert(word_views(args@.take(i as int + 1)) =~= word_views(args@.take(i as int)).push(
                args@[i as int]@,
            ));
            i = i + 1;
        }
        assert(args@.take(args@.len() as int) =~= args@);
        v
    }

    /// The files that may hold this namespace, in the order they are tried.
    pub fn file_candidates(&self) -> (r: Vec<String>)
        ensures
            string_views(r@) == seq!["/run/netns/"@ + self@, "/var/run/netns/"@ + self@],
    {
        let mut a = lit("/run/netns/");
        push_str(&mut a, self.name.as_str());
        let mut b = lit("/var/run/netns/");
        push_str(&mut b, self.name.as_str());
        let mut v: Vec<String> = Vec::new();
        push_arg(&mut v, a);
        push_arg(&mut v, b);
        assert(string_views(v@) =~= seq!["/run/netns/"@ + self@, "/var/run/netns/"@ + self@]);
        v
    }
}

} // verus!
