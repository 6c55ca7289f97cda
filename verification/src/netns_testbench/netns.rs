//! Network namespace management: the errors, and the table of namespaces a
//! manager created, which decides whether a namespace may be created and
//! which namespaces exist for the manager.

use vstd::prelude::*;
use vstd::string::*;

use crate::network_sim::qdisc::{lit, string_views};
use crate::text::{push_str, str_eq, u64_to_decimal, decimal};

verus! {

/// Errors of network namespace operations.
#[derive(Debug)]
pub enum NetNsError {
    CreateDir(std::io::Error),
    CreateFile(std::io::Error),
    Mount(nix::errno::Errno),
    SetNs(nix::errno::Errno),
    OpenNs(std::io::Error),
    NotFound(String),
    AlreadyExists(String),
    Permission,
}

/// The names of the namespaces a manager created, each once, in creation
/// order.
pub struct NamespaceTable {
    names: Vec<String>,
}

impl View for NamespaceTable {
    type V = Seq<Seq<char>>;

    closed spec fn view(&self) -> Seq<Seq<char>> {
        string_views(self.names@)
    }
}

/// The file through which a process's network namespace is reached.
pub open spec fn proc_net_path(pid: u64) -> Seq<char> {
    "/proc/"@ + decimal(pid as nat) + "/ns/net"@
}

/// Builds `proc_net_path`.
pub fn proc_net_path_of(pid: u64) -> (r: String)
    ensures
        r@ == proc_net_path(pid),
{
    let mut s = lit("/proc/");
    let d = u64_to_decimal(pid);
    push_str(&mut s, d.as_str());
    push_str(&mut s, "/ns/net");
    s
}

impl NamespaceTable {
    /// No name is held twice.
    pub closed spec fn wf(&self) -> bool {
        forall|i: int, j: int|
            0 <= i < self@.len() && 0 <= j < self@.len() && i != j ==> self@[i] != self@[j]
    }

    /// An empty table.
    pub fn new() -> (t: Self)
        ensures
            t.wf(),
            t@ == Seq::<Seq<char>>::empty(),
    {
        let t = NamespaceTable { names: Vec::new() };
        assert(t@ =~= Seq::<Seq<char>>::empty());
        t
    }

    fn position(&self, name: &str) -> (r: Option<usize>)
        ensures
            r matches Some(i) ==> i < self@.len() && self@[i as int] == name@,
            r is None ==> !self@.contains(name@),
    {
        let mut i: usize = 0;
        while i < self.names.len()
            invariant
                i <= self.names@.len(),
                forall|k: int| 0 <= k < i ==> self.names@[k]@ != name@,
            decreases self.names.len() - i,
        {
            if str_eq(self.names[i].as_str(), name) {
                return Some(i);
            }
            i = i + 1;
        }
        assert(!self@.contains(name@)) by {
            if self@.contains(name@) {
                let k = choose|k: int| 0 <= k < self@.len() && self@[k] == name@;
                assert(self.names@[k]@ == name@);
            }
        }
        None
    }

    /// Whether the manager created namespace `name`.
    pub fn namespace_exists(&self, name: &str) -> (r: bool)
        ensures
            r == self@.contains(name@),
    {
        self.position(name).is_some()
    }

    /// The created namespaces.
    pub fn list_namespaces(&self) -> (r: Vec<String>)
        ensures
            string_views(r@) == self@,
    {
        let mut r: Vec<String> = Vec::new();
        let mut i: usize = 0;
        while i < self.names.len()
            invariant
                i <= self.names@.len(),
                string_views(r@) == self@.take(i as int),
            decreases self.names.len() - i,
        {
            let ghost before = r@;
            r.push(lit(self.names[i].as_str()));
            assert(string_views(r@) =~= string_views(before).push(self@[i as int]));
            assert(self@.take(i as int + 1) =~= self@.take(i as int).push(self@[i as int]));
            i = i + 1;
        }
        assert(self@.take(self@.len() as int) =~= self@);
        r
    }

    /// Whether namespace `name` may be created: not when the manager
    /// already created it, nor when its file exists already.
    pub fn check_create(&self, name: &str, file_exists: bool) -> (r: Result<(), NetNsError>)
        ensures
            (self@.contains(name@) || file_exists) ==> (r matches Err(NetNsError::AlreadyExists(n))
                && n@ == name@),
            !(self@.contains(name@) || file_exists) ==> r is Ok,
    {
        if self.namespace_exists(name) || file_exists {
            Err(NetNsError::AlreadyExists(lit(name)))
        } else {
            Ok(())
        }
    }

    /// Records a created namespace.
    pub fn record(&mut self, name: &str)
        requires
            old(self).wf(),
            !old(self)@.contains(name@),
        ensures
            final(self).wf(),
            final(self)@ == old(self)@.push(name@),
    {
        let ghost before = self.names@;
        self.names.push(lit(name));
        assert(self@ =~= string_views(before).push(name@));
        assert forall|i: int, j: int|
            0 <= i < self@.len() && 0 <= j < self@.len() && i != j implies self@[i] != self@[j] by {
            if i == self@.len() - 1 {
                assert(old(self)@.contains(self@[j]) ==> self@[j] != name@);
                assert(self@[j] == old(self)@[j]);
            } else if j == self@.len() - 1 {
                assert(self@[i] == old(self)@[i]);
            } else {
                assert(self@[i] == old(self)@[i]);
                assert(self@[j] == old(self)@[j]);
            }
        }
    }

    /// Whether namespace `name` may be deleted: its file must exist.
    pub fn check_delete(name: &str, file_exists: bool) -> (r: Result<(), NetNsError>)
        ensures
            file_exists ==> r is Ok,
            !file_exists ==> (r matches Err(NetNsError::NotFound(n)) && n@ == name@),
    {
        if file_exists {
            Ok(())
        } else {
            Err(NetNsError::NotFound(lit(name)))
        }
    }

    /// Stops tracking namespace `name`; other names keep their order.
    pub fn forget(&mut self, name: &str)
        requires
            old(self).wf(),
        ensures
            final(self).wf(),
            !final(self)@.contains(name@),
            forall|n: Seq<char>| n != name@ ==> (final(self)@.contains(n) <==> old(self)@.contains(n)),
    {
        match self.position(name) {
            Some(i) => {
                let ghost before = self@;
                self.names.remove(i);
                assert(self@ =~= before.remove(i as int));
                assert forall|a: int, b: int|
                    0 <= a < self@.len() && 0 <= b < self@.len() && a != b implies self@[a]
                    != self@[b] by {
                    let a2 = if a < i { a } else { a + 1 };
                    let b2 = if b < i { b } else { b + 1 };
                    assert(self@[a] == before[a2]);
                    assert(self@[b] == before[b2]);
                }
                assert(!self@.contains(name@)) by {
                    if self@.contains(name@) {
                        let k = choose|k: int| 0 <= k < self@.len() && self@[k] == name@;
                        let k2 = if k < i { k } else { k + 1 };
                        assert(before[k2] == name@);
                    }
                }
                assert forall|n: Seq<char>| n != name@ implies (self@.contains(n) <==> before.contains(n)) by {
                    if before.contains(n) {
                        let k = choose|k: int| 0 <= k < before.len() && before[k] == n;
                        assert(k != i);
                        let k2 = if k < i { k } else { k - 1 };
                        assert(self@[k2] == n);
                    }
                    if self@.contains(n) {
                        let k = choose|k: int| 0 <= k < self@.len() && self@[k] == n;
                        let k2 = if k < i { k } else { k + 1 };
                        assert(before[k2] == n);
                    }
                }
            },
            None => {},
        }
    }

    /// The error for a namespace the manager does not know.
    pub fn lookup(&self, name: &str) -> (r: Result<(), NetNsError>)
        ensures
            self@.contains(name@) ==> r is Ok,
            !self@.contains(name@) ==> (r matches Err(NetNsError::NotFound(n)) && n@ == name@),
    {
        if self.namespace_exists(name) {
            Ok(())
        } else {
            Err(NetNsError::NotFound(lit(name)))
        }
    }
}

/// A namespace that was created is known until it is forgotten, and a
/// second creation of it is refused.
pub proof fn lemma_created_namespace_is_known(t0: NamespaceTable, t1: NamespaceTable, name: Seq<char>)
    requires
        t1@ == t0@.push(name),
    ensures
        t1@.contains(name),
        forall|n: Seq<char>| #[trigger] t0@.contains(n) ==> t1@.contains(n),
{
    assert(t1@[t0@.len() as int] == name);
    assert forall|n: Seq<char>| #[trigger] t0@.contains(n) implies t1@.contains(n) by {
        let k = choose|k: int| 0 <= k < t0@.len() && t0@[k] == n;
        assert(t1@[k] == n);
    }
}

} // verus!
