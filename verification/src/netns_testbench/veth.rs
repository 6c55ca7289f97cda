//! Virtual Ethernet (veth) pairs: interface name rules and the bookkeeping
//! of the pairs a manager created, moved and configured.

use vstd::prelude::*;
use vstd::string::*;

use crate::netns_testbench::netns::NetNsError;
use crate::text::{
    all_ascii, char_utf8_width, lemma_utf8_len_ascii, lemma_utf8_len_take_mono, push_str, str_chars,
    utf8_len,
};

verus! {

/// Errors of veth operations.
#[derive(Debug)]
pub enum VethError {
    Io(std::io::Error),
    Connection(rtnetlink::Error),
    NotFound(String),
    AlreadyExists(String),
    CreateFailed(rtnetlink::Error),
    MoveFailed(rtnetlink::Error),
    SetUpFailed(rtnetlink::Error),
    SetMtuFailed(rtnetlink::Error),
    NetNs(NetNsError),
    InvalidName(String),
}

// ---------------------------------------------------------------------------
// Interface names
// ---------------------------------------------------------------------------

/// Whether `char::is_alphanumeric` holds of a character (Unicode `Alphabetic`
/// or `Numeric`).
pub uninterp spec fn unicode_alphanumeric(c: char) -> bool;

/// `char::is_alphanumeric`. For an ASCII character the result is true
/// exactly for the letters `A`-`Z`, `a`-`z` and the digits `0`-`9`; for
/// other characters the Unicode tables decide and nothing more is stated.
#[verifier::external_body]
fn char_is_alphanumeric(c: char) -> (r: bool)
    ensures
        r == unicode_alphanumeric(c),
        (c as u32) < 0x80 ==> (r <==> ascii_alphanumeric(c)),
{
    c.is_alphanumeric()
}

/// A character allowed in an interface name.
pub open spec fn interface_name_char(c: char) -> bool {
    unicode_alphanumeric(c) || c == '-' || c == '_' || c == '.'
}

/// Linux interface name rules: non-empty, at most 15 bytes, only
/// alphanumeric characters and `-`, `_`, `.`, and not starting with `-`.
pub open spec fn valid_interface_name(name: Seq<char>) -> bool {
    &&& name.len() > 0
    &&& utf8_len(name) <= 15
    &&& forall|i: int| 0 <= i < name.len() ==> interface_name_char(#[trigger] name[i])
    &&& name[0] != '-'
}

/// An ASCII letter or digit.
pub open spec fn ascii_alphanumeric(c: char) -> bool {
    let u = c as u32;
    ||| 'a' as u32 <= u <= 'z' as u32
    ||| 'A' as u32 <= u <= 'Z' as u32
    ||| '0' as u32 <= u <= '9' as u32
}

/// The interface name rules on an ASCII name, where each character is one
/// byte: 1 to 15 characters, each an ASCII letter or digit or one of `-`,
/// `_`, `.`, the first not `-`.
pub open spec fn valid_ascii_interface_name(name: Seq<char>) -> bool {
    &&& 0 < name.len() <= 15
    &&& forall|i: int|
        0 <= i < name.len() ==> {
            let c = #[trigger] name[i];
            ascii_alphanumeric(c) || c == '-' || c == '_' || c == '.'
        }
    &&& name[0] != '-'
}

/// Validates an interface name according to Linux rules.
pub fn is_valid_interface_name(name: &str) -> (r: bool)
    ensures
        r == valid_interface_name(name@),
        all_ascii(name@) ==> (r == valid_ascii_interface_name(name@)),
{
    let cs = str_chars(name);
    proof {
        if all_ascii(name@) {
            lemma_utf8_len_ascii(name@);
        }
    }
    if cs.len() == 0 {
        return false;
    }
    let mut bytes: usize = 0;
    let mut i: usize = 0;
    while i < cs.len()
        invariant
            i <= cs.len(),
            cs@ == name@,
            bytes == utf8_len(cs@.take(i as int)),
            bytes <= 15,
            forall|k: int| 0 <= k < i ==> interface_name_char(#[trigger] cs@[k]),
            forall|k: int|
                0 <= k < i && (cs@[k] as u32) < 0x80 ==> {
                    let c = #[trigger] cs@[k];
                    ascii_alphanumeric(c) || c == '-' || c == '_' || c == '.'
                },
            all_ascii(name@) ==> utf8_len(name@) == name@.len(),
        decreases cs.len() - i,
    {
        let c = cs[i];
        let w = char_utf8_width(c);
        assert(cs@.take(i as int + 1).drop_last() =~= cs@.take(i as int));
        if bytes + w > 15 {
            proof {
                lemma_utf8_len_take_mono(cs@, i as int + 1, cs@.len() as int);
                assert(cs@.take(cs@.len() as int) =~= cs@);
            }
            return false;
        }
        if !(char_is_alphanumeric(c) || c == '-' || c == '_' || c == '.') {
            proof {
                if all_ascii(name@) {
                    assert((cs@[i as int] as u32) < 0x80);
                    assert(!valid_ascii_interface_name(name@)) by {
                        let ch = name@[i as int];
                        assert(!(ascii_alphanumeric(ch) || ch == '-' || ch == '_' || ch == '.'));
                    }
                }
            }
            return false;
        }
        bytes = bytes + w;
        i = i + 1;
    }
    assert(cs@.take(cs@.len() as int) =~= cs@);
    proof {
        if all_ascii(name@) {
            assert forall|k: int| 0 <= k < name@.len() implies {
                let c = #[trigger] name@[k];
                ascii_alphanumeric(c) || c == '-' || c == '_' || c == '.'
            } by {
                assert((cs@[k] as u32) < 0x80);
            }
        }
    }
    cs[0] != '-'
}

// ---------------------------------------------------------------------------
// Pair bookkeeping
// ---------------------------------------------------------------------------

/// Information about a veth interface.
#[derive(Debug)]
pub struct VethInfo {
    pub name: String,
    pub index: u32,
    pub peer_name: String,
    pub peer_index: Option<u32>,
    pub mtu: u32,
    pub namespace: Option<String>,
}

/// The content of a `VethInfo`.
pub struct VethInfoView {
    pub name: Seq<char>,
    pub index: u32,
    pub peer_name: Seq<char>,
    pub peer_index: Option<u32>,
    pub mtu: u32,
    pub namespace: Option<Seq<char>>,
}

/// The content of an optional string.
pub open spec fn opt_view(o: Option<String>) -> Option<Seq<char>> {
    match o {
        Some(s) => Some(s@),
        None => None,
    }
}

impl View for VethInfo {
    type V = VethInfoView;

    open spec fn view(&self) -> VethInfoView {
        VethInfoView {
            name: self.name@,
            index: self.index,
            peer_name: self.peer_name@,
            peer_index: self.peer_index,
            mtu: self.mtu,
            namespace: opt_view(self.namespace),
        }
    }
}

/// Both ends of a veth pair.
#[derive(Debug)]
pub struct VethPair {
    pub left: VethInfo,
    pub right: VethInfo,
}

/// The content of a `VethPair`.
pub struct VethPairView {
    pub left: VethInfoView,
    pub right: VethInfoView,
}

impl View for VethPair {
    type V = VethPairView;

    open spec fn view(&self) -> VethPairView {
        VethPairView { left: self.left@, right: self.right@ }
    }
}

fn copy_opt_string(o: &Option<String>) -> (r: Option<String>)
    ensures
        opt_view(r) == opt_view(*o),
{
    match o {
        Some(s) => Some(s.clone()),
        None => None,
    }
}

impl VethInfo {
    /// A copy of this information.
    pub fn copy(&self) -> (r: VethInfo)
        ensures
            r@ == self@,
    {
        VethInfo {
            name: self.name.clone(),
            index: self.index,
            peer_name: self.peer_name.clone(),
            peer_index: self.peer_index,
            mtu: self.mtu,
            namespace: copy_opt_string(&self.namespace),
        }
    }
}

impl VethPair {
    /// A copy of this pair.
    pub fn copy(&self) -> (r: VethPair)
        ensures
            r@ == self@,
    {
        VethPair { left: self.left.copy(), right: self.right.copy() }
    }
}

/// The pair recorded for both ends `left` and `right` right after creation.
pub open spec fn new_pair_view(
    left: Seq<char>,
    right: Seq<char>,
    left_index: u32,
    right_index: u32,
    left_mtu: u32,
    right_mtu: u32,
) -> VethPairView {
    VethPairView {
        left: VethInfoView {
            name: left,
            index: left_index,
            peer_name: right,
            peer_index: Some(right_index),
            mtu: left_mtu,
            namespace: None,
        },
        right: VethInfoView {
            name: right,
            index: right_index,
            peer_name: left,
            peer_index: Some(left_index),
            mtu: right_mtu,
            namespace: None,
        },
    }
}

/// The end of `p` that an interface name addresses: the left end when it
/// bears the name, otherwise the right end.
pub open spec fn addressed_end(p: VethPairView, name: Seq<char>) -> VethInfoView {
    if p.left.name == name {
        p.left
    } else {
        p.right
    }
}

/// `p` with the end named `name` moved into namespace `ns` (unchanged when
/// neither end bears the name).
pub open spec fn with_namespace(p: VethPairView, name: Seq<char>, ns: Seq<char>) -> VethPairView {
    if p.left.name == name {
        VethPairView { left: VethInfoView { namespace: Some(ns), ..p.left }, ..p }
    } else if p.right.name == name {
        VethPairView { right: VethInfoView { namespace: Some(ns), ..p.right }, ..p }
    } else {
        p
    }
}

/// `p` with the end named `name` given MTU `mtu` (unchanged when neither end
/// bears the name).
pub open spec fn with_mtu(p: VethPairView, name: Seq<char>, mtu: u32) -> VethPairView {
    if p.left.name == name {
        VethPairView { left: VethInfoView { mtu, ..p.left }, ..p }
    } else if p.right.name == name {
        VethPairView { right: VethInfoView { mtu, ..p.right }, ..p }
    } else {
        p
    }
}

/// Lexicographic order of character sequences (the byte order of their
/// UTF-8 encodings, which `String` comparison uses).
pub open spec fn seq_lt(a: Seq<char>, b: Seq<char>) -> bool
    decreases a.len(),
{
    if a.len() == 0 {
        b.len() > 0
    } else if b.len() == 0 {
        false
    } else if (a[0] as u32) != (b[0] as u32) {
        (a[0] as u32) < (b[0] as u32)
    } else {
        seq_lt(a.drop_first(), b.drop_first())
    }
}

/// Veth pair manager: a netlink handle of the host namespace and the
/// pairs it created, recorded under the name of each end.
pub struct PairManager {
    handle: rtnetlink::Handle,
    pairs: Vec<(String, VethPair)>,
}

impl PairManager {
    /// No name is recorded twice.
    pub closed spec fn wf(&self) -> bool {
        forall|i: int, j: int|
            0 <= i < self.pairs@.len() && 0 <= j < self.pairs@.len() && i != j ==> (
            #[trigger] self.pairs@[i]).0@ != (#[trigger] self.pairs@[j]).0@
    }

    /// Position of the record under `name`, if any.
    closed spec fn position(&self, name: Seq<char>) -> Option<int> {
        if exists|i: int| 0 <= i < self.pairs@.len() && self.pairs@[i].0@ == name {
            Some(choose|i: int| 0 <= i < self.pairs@.len() && self.pairs@[i].0@ == name)
        } else {
            None
        }
    }

    /// The pair recorded under interface name `name`, if any.
    pub closed spec fn entry(&self, name: Seq<char>) -> Option<VethPairView> {
        match self.position(name) {
            Some(i) => Some(self.pairs@[i].1@),
            None => None,
        }
    }

    proof fn lemma_position(&self, name: Seq<char>, i: int)
        requires
            self.wf(),
            0 <= i < self.pairs@.len(),
            self.pairs@[i].0@ == name,
        ensures
            self.position(name) == Some(i),
            self.entry(name) == Some(self.pairs@[i].1@),
    {
        let j = choose|j: int| 0 <= j < self.pairs@.len() && self.pairs@[j].0@ == name;
        assert(i == j);
    }

    /// The netlink handle this manager uses.
    pub closed spec fn handle_of(&self) -> rtnetlink::Handle {
        self.handle
    }

    /// A manager using `handle` that has recorded no pair.
    pub fn with_handle(handle: rtnetlink::Handle) -> (m: Self)
        ensures
            m.wf(),
            m.handle_of() == handle,
            forall|n: Seq<char>| m.entry(n) is None,
    {
        PairManager { handle, pairs: Vec::new() }
    }

    /// The netlink handle of the host namespace.
    pub fn handle(&self) -> (h: &rtnetlink::Handle)
        ensures
            *h == self.handle_of(),
    {
        &self.handle
    }

    fn find(&self, name: &str) -> (r: Option<usize>)
        requires
            self.wf(),
        ensures
            r matches Some(i) ==> i < self.pairs@.len() && self.pairs@[i as int].0@ == name@
                && self.position(name@) == Some(i as int),
            r is None ==> self.position(name@) is None && self.entry(name@) is None,
    {
        let target = str_chars(name);
        let mut i: usize = 0;
        while i < self.pairs.len()
            invariant
                self.wf(),
                i <= self.pairs@.len(),
                target@ == name@,
                forall|k: int| 0 <= k < i ==> self.pairs@[k].0@ != name@,
            decreases self.pairs.len() - i,
        {
            let key = str_chars(self.pairs[i].0.as_str());
            if crate::text::chars_eq(&key, &target) {
                proof {
                    self.lemma_position(name@, i as int);
                }
                return Some(i);
            }
            i = i + 1;
        }
        None
    }

    /// Checks that a pair with ends `left` and `right` may be created:
    /// neither name is recorded yet and both are valid interface names.
    pub fn check_new_pair(&self, left: &str, right: &str) -> (r: Result<(), VethError>)
        requires
            self.wf(),
        ensures
            (self.entry(left@) is Some || self.entry(right@) is Some) ==> (r matches Err(
                VethError::AlreadyExists(m),
            ) && m@ == left@ + "/"@ + right@),
            (self.entry(left@) is None && self.entry(right@) is None && !valid_interface_name(
                left@,
            )) ==> (r matches Err(VethError::InvalidName(m)) && m@ == left@),
            (self.entry(left@) is None && self.entry(right@) is None && valid_interface_name(
                left@,
            ) && !valid_interface_name(right@)) ==> (r matches Err(VethError::InvalidName(m))
                && m@ == right@),
            (self.entry(left@) is None && self.entry(right@) is None && valid_interface_name(
                left@,
            ) && valid_interface_name(right@)) ==> r is Ok,
    {
        if self.find(left).is_some() || self.find(right).is_some() {
            let mut m = String::from_str(left);
            m.append("/");
            m.append(right);
            return Err(VethError::AlreadyExists(m));
        }
        if !is_valid_interface_name(left) {
            return Err(VethError::InvalidName(String::from_str(left)));
        }
        if !is_valid_interface_name(right) {
            return Err(VethError::InvalidName(String::from_str(right)));
        }
        Ok(())
    }

    /// Records `pair` under `name`, replacing a record under that name.
    fn insert(&mut self, name: &str, pair: VethPair)
        requires
            old(self).wf(),
        ensures
            final(self).wf(),
            final(self).entry(name@) == Some(pair@),
            forall|n: Seq<char>| n != name@ ==> final(self).entry(n) == old(self).entry(n),
    {
        let ghost pv = pair@;
        match self.find(name) {
            Some(i) => {
                let ghost before = self.pairs@;
                let key = self.pairs[i].0.clone();
                self.pairs.set(i, (key, pair));
                proof {
                    assert(self.wf()) by {
                        assert forall|a: int, b: int|
                            0 <= a < self.pairs@.len() && 0 <= b < self.pairs@.len() && a != b
                                implies (#[trigger] self.pairs@[a]).0@ != (
                            #[trigger] self.pairs@[b]).0@ by {
                            assert(self.pairs@[a].0@ == before[a].0@);
                            assert(self.pairs@[b].0@ == before[b].0@);
                            assert(before[a].0@ != before[b].0@);
                        }
                    }
                    self.lemma_position(name@, i as int);
                    assert forall|n: Seq<char>| n != name@ implies self.entry(n) == old(self).entry(
                        n,
                    ) by {
                        if exists|k: int| 0 <= k < before.len() && before[k].0@ == n {
                            let k = choose|k: int| 0 <= k < before.len() && before[k].0@ == n;
                            old(self).lemma_position(n, k);
                            assert(k != i);
                            self.lemma_position(n, k);
                        } else {
                            assert(!exists|k: int|
                                0 <= k < self.pairs@.len() && self.pairs@[k].0@ == n) by {
                                if exists|k: int|
                                    0 <= k < self.pairs@.len() && self.pairs@[k].0@ == n {
                                    let k = choose|k: int|
                                        0 <= k < self.pairs@.len() && self.pairs@[k].0@ == n;
                                    assert(before[k].0@ == n);
                                }
                            }
                        }
                    }
                }
            },
            None => {
                let ghost before = self.pairs@;
                let key = String::from_str(name);
                self.pairs.push((key, pair));
                proof {
                    let last = before.len() as int;
                    assert(self.wf()) by {
                        assert forall|a: int, b: int|
                            0 <= a < self.pairs@.len() && 0 <= b < self.pairs@.len() && a != b
                                implies (#[trigger] self.pairs@[a]).0@ != (
                            #[trigger] self.pairs@[b]).0@ by {
                            if a != last && b != last {
                                assert(self.pairs@[a] == before[a]);
                                assert(self.pairs@[b] == before[b]);
                            } else if a == last {
                                assert(self.pairs@[b] == before[b]);
                            } else {
                                assert(self.pairs@[a] == before[a]);
                            }
                        }
                    }
                    self.lemma_position(name@, last);
                    assert forall|n: Seq<char>| n != name@ implies self.entry(n) == old(self).entry(
                        n,
                    ) by {
                        if exists|k: int| 0 <= k < before.len() && before[k].0@ == n {
                            let k = choose|k: int| 0 <= k < before.len() && before[k].0@ == n;
                            old(self).lemma_position(n, k);
                            assert(self.pairs@[k] == before[k]);
                            self.lemma_position(n, k);
                        } else {
                            assert(!exists|k: int|
                                0 <= k < self.pairs@.len() && self.pairs@[k].0@ == n) by {
                                if exists|k: int|
                                    0 <= k < self.pairs@.len() && self.pairs@[k].0@ == n {
                                    let k = choose|k: int|
                                        0 <= k < self.pairs@.len() && self.pairs@[k].0@ == n;
                                    if k < last {
                                        assert(self.pairs@[k] == before[k]);
                                    }
                                }
                            }
                        }
                    }
                }
            },
        }
    }

    /// Records a freshly created pair under the names of both ends and
    /// returns it.
    pub fn record_pair(
        &mut self,
        left: &str,
        right: &str,
        left_index: u32,
        right_index: u32,
        left_mtu: u32,
        right_mtu: u32,
    ) -> (pair: VethPair)
        requires
            old(self).wf(),
        ensures
            final(self).wf(),
            pair@ == new_pair_view(left@, right@, left_index, right_index, left_mtu, right_mtu),
            final(self).entry(left@) == Some(pair@),
            final(self).entry(right@) == Some(pair@),
            forall|n: Seq<char>|
                n != left@ && n != right@ ==> final(self).entry(n) == old(self).entry(n),
    {
        let pair = VethPair {
            left: VethInfo {
                name: String::from_str(left),
                index: left_index,
                peer_name: String::from_str(right),
                peer_index: Some(right_index),
                mtu: left_mtu,
                namespace: None,
            },
            right: VethInfo {
                name: String::from_str(right),
                index: right_index,
                peer_name: String::from_str(left),
                peer_index: Some(left_index),
                mtu: right_mtu,
                namespace: None,
            },
        };
        self.insert(left, pair.copy());
        self.insert(right, pair.copy());
        pair
    }

    /// The namespace of the end addressed by `name` in the pair recorded
    /// under `name`, if that pair is recorded and the end was moved.
    pub fn interface_namespace(&self, name: &str) -> (r: Option<String>)
        requires
            self.wf(),
        ensures
            self.entry(name@) is None ==> r is None,
            self.entry(name@) matches Some(p) ==> opt_view(r) == addressed_end(p, name@).namespace,
    {
        match self.find(name) {
            Some(i) => {
                let pair = &self.pairs[i].1;
                let left = str_chars(pair.left.name.as_str());
                let target = str_chars(name);
                if crate::text::chars_eq(&left, &target) {
                    copy_opt_string(&pair.left.namespace)
                } else {
                    copy_opt_string(&pair.right.namespace)
                }
            },
            None => None,
        }
    }

    /// Records that the end named `name` was moved into namespace `ns`: the
    /// record under `name` is updated, records under other names are not.
    pub fn record_namespace(&mut self, name: &str, ns: &str)
        requires
            old(self).wf(),
        ensures
            final(self).wf(),
            old(self).entry(name@) is None ==> final(self).entry(name@) is None,
            old(self).entry(name@) matches Some(p) ==> final(self).entry(name@) == Some(
                with_namespace(p, name@, ns@),
            ),
            forall|n: Seq<char>| n != name@ ==> final(self).entry(n) == old(self).entry(n),
    {
        match self.find(name) {
            Some(i) => {
                let mut pair = self.pairs[i].1.copy();
                let left = str_chars(pair.left.name.as_str());
                let right = str_chars(pair.right.name.as_str());
                let target = str_chars(name);
                if crate::text::chars_eq(&left, &target) {
                    pair.left.namespace = Some(String::from_str(ns));
                } else if crate::text::chars_eq(&right, &target) {
                    pair.right.namespace = Some(String::from_str(ns));
                }
                self.insert(name, pair);
            },
            None => {},
        }
    }

    /// Records that the end named `name` was given MTU `mtu`: the record
    /// under `name` is updated, records under other names are not.
    pub fn record_mtu(&mut self, name: &str, mtu: u32)
        requires
            old(self).wf(),
        ensures
            final(self).wf(),
            old(self).entry(name@) is None ==> final(self).entry(name@) is None,
            old(self).entry(name@) matches Some(p) ==> final(self).entry(name@) == Some(
                with_mtu(p, name@, mtu),
            ),
            forall|n: Seq<char>| n != name@ ==> final(self).entry(n) == old(self).entry(n),
    {
        match self.find(name) {
            Some(i) => {
                let mut pair = self.pairs[i].1.copy();
                let left = str_chars(pair.left.name.as_str());
                let right = str_chars(pair.right.name.as_str());
                let target = str_chars(name);
                if crate::text::chars_eq(&left, &target) {
                    pair.left.mtu = mtu;
                } else if crate::text::chars_eq(&right, &target) {
                    pair.right.mtu = mtu;
                }
                self.insert(name, pair);
            },
            None => {},
        }
    }

    /// Removes the record under `name`, if any.
    fn remove(&mut self, name: &str) -> (r: Option<VethPair>)
        requires
            old(self).wf(),
        ensures
            final(self).wf(),
            old(self).entry(name@) is None ==> r is None,
            old(self).entry(name@) matches Some(p) ==> (r matches Some(q) && q@ == p),
            final(self).entry(name@) is None,
            forall|n: Seq<char>| n != name@ ==> final(self).entry(n) == old(self).entry(n),
    {
        match self.find(name) {
            Some(i) => {
                let ghost before = self.pairs@;
                let (_key, pair) = self.pairs.remove(i);
                proof {
                    assert(self.wf()) by {
                        assert forall|a: int, b: int|
                            0 <= a < self.pairs@.len() && 0 <= b < self.pairs@.len() && a != b
                                implies (#[trigger] self.pairs@[a]).0@ != (
                            #[trigger] self.pairs@[b]).0@ by {
                            let a2 = if a < i {
                                a
                            } else {
                                a + 1
                            };
                            let b2 = if b < i {
                                b
                            } else {
                                b + 1
                            };
                            assert(self.pairs@[a] == before[a2]);
                            assert(self.pairs@[b] == before[b2]);
                        }
                    }
                    assert(!exists|k: int|
                        0 <= k < self.pairs@.len() && self.pairs@[k].0@ == name@) by {
                        if exists|k: int| 0 <= k < self.pairs@.len() && self.pairs@[k].0@ == name@ {
                            let k = choose|k: int|
                                0 <= k < self.pairs@.len() && self.pairs@[k].0@ == name@;
                            let k2 = if k < i {
                                k
                            } else {
                                k + 1
                            };
                            assert(self.pairs@[k] == before[k2]);
                        }
                    }
                    assert forall|n: Seq<char>| n != name@ implies self.entry(n) == old(self).entry(
                        n,
                    ) by {
                        if exists|k: int| 0 <= k < before.len() && before[k].0@ == n {
                            let k = choose|k: int| 0 <= k < before.len() && before[k].0@ == n;
                            old(self).lemma_position(n, k);
                            assert(k != i);
                            let k2 = if k < i {
                                k
                            } else {
                                k - 1
                            };
                            assert(self.pairs@[k2] == before[k]);
                            self.lemma_position(n, k2);
                        } else {
                            assert(!exists|k: int|
                                0 <= k < self.pairs@.len() && self.pairs@[k].0@ == n) by {
                                if exists|k: int|
                                    0 <= k < self.pairs@.len() && self.pairs@[k].0@ == n {
                                    let k = choose|k: int|
                                        0 <= k < self.pairs@.len() && self.pairs@[k].0@ == n;
                                    let k2 = if k < i {
                                        k
                                    } else {
                                        k + 1
                                    };
                                    assert(self.pairs@[k] == before[k2]);
                                }
                            }
                        }
                    }
                }
                Some(pair)
            },
            None => None,
        }
    }

    /// Stops tracking the pair recorded under `name`: the record under
    /// `name` and the record under the name of the other end are removed and
    /// the pair is returned. An unrecorded name is reported as not found.
    pub fn take_pair(&mut self, name: &str) -> (r: Result<VethPair, VethError>)
        requires
            old(self).wf(),
        ensures
            final(self).wf(),
            old(self).entry(name@) is None ==> (r matches Err(VethError::NotFound(m)) && m@
                == name@),
            old(self).entry(name@) is None ==> (forall|n: Seq<char>|
                final(self).entry(n) == old(self).entry(n)),
            old(self).entry(name@) matches Some(p) ==> (r matches Ok(q) && q@ == p),
            old(self).entry(name@) matches Some(p) ==> final(self).entry(name@) is None
                && final(self).entry(other_end(p, name@)) is None,
            old(self).entry(name@) matches Some(p) ==> (forall|n: Seq<char>|
                n != name@ && n != other_end(p, name@) ==> final(self).entry(n) == old(
                    self,
                ).entry(n)),
    {
        match self.remove(name) {
            Some(pair) => {
                let left = str_chars(pair.left.name.as_str());
                let target = str_chars(name);
                let other = if crate::text::chars_eq(&left, &target) {
                    pair.right.name.clone()
                } else {
                    pair.left.name.clone()
                };
                let _ = self.remove(other.as_str());
                Ok(pair)
            },
            None => {
                let mut m = String::new();
                push_str(&mut m, name);
                Err(VethError::NotFound(m))
            },
        }
    }

    /// The recorded pairs, one per left-end name, ordered by left-end name.
    /// Each is the record under some name; every recorded left-end name is
    /// listed.
    pub fn list_pairs(&self) -> (r: Vec<VethPair>)
        requires
            self.wf(),
        ensures
            forall|a: int, b: int|
                0 <= a < b < r@.len() ==> seq_lt(r@[a]@.left.name, r@[b]@.left.name),
            forall|a: int|
                0 <= a < r@.len() ==> exists|n: Seq<char>| self.entry(n) == Some(#[trigger] r@[a]@),
            forall|n: Seq<char>|
                #![trigger self.entry(n)]
                self.entry(n) is Some ==> exists|a: int|
                    0 <= a < r@.len() && r@[a]@.left.name == self.entry(n).unwrap().left.name,
    {
        // insertion of each record into a sorted list without repeated left names
        let mut out: Vec<VethPair> = Vec::new();
        let mut i: usize = 0;
        while i < self.pairs.len()
            invariant
                self.wf(),
                i <= self.pairs@.len(),
                forall|a: int, b: int|
                    0 <= a < b < out@.len() ==> seq_lt(out@[a]@.left.name, out@[b]@.left.name),
                forall|a: int|
                    0 <= a < out@.len() ==> exists|k: int|
                        0 <= k < self.pairs@.len() && self.pairs@[k].1@ == #[trigger] out@[a]@,
                forall|k: int|
                    0 <= k < i ==> exists|a: int|
                        0 <= a < out@.len() && out@[a]@.left.name == (
                        #[trigger] self.pairs@[k]).1@.left.name,
            decreases self.pairs.len() - i,
        {
            let p = self.pairs[i].1.copy();
            insert_sorted(&mut out, p);
            i = i + 1;
        }
        proof {
            assert forall|a: int| 0 <= a < out@.len() implies exists|n: Seq<char>|
                self.entry(n) == Some(#[trigger] out@[a]@) by {
                let k = choose|k: int| 0 <= k < self.pairs@.len() && self.pairs@[k].1@ == out@[a]@;
                self.lemma_position(self.pairs@[k].0@, k);
                assert(self.entry(self.pairs@[k].0@) == Some(out@[a]@));
            }
            assert forall|n: Seq<char>| #[trigger] self.entry(n) is Some implies exists|a: int|
                0 <= a < out@.len() && out@[a]@.left.name == self.entry(n).unwrap().left.name by {
                let k = self.position(n).unwrap();
                assert(self.pairs@[k].0@ == n);
                assert(0 <= k < self.pairs@.len());
            }
        }
        out
    }
}

proof fn lemma_seq_lt_total(a: Seq<char>, b: Seq<char>)
    ensures
        a == b || seq_lt(a, b) || seq_lt(b, a),
        !(seq_lt(a, b) && seq_lt(b, a)),
        !seq_lt(a, a),
    decreases a.len(),
{
    if a.len() > 0 && b.len() > 0 {
        lemma_seq_lt_total(a.drop_first(), b.drop_first());
        if (a[0] as u32) == (b[0] as u32) && a.drop_first() == b.drop_first() {
            vstd::utf8::char_u32_cast(a[0], a[0] as u32);
            vstd::utf8::char_u32_cast(b[0], b[0] as u32);
            assert(a[0] == b[0]);
            assert(a =~= seq![a[0]] + a.drop_first());
            assert(b =~= seq![b[0]] + b.drop_first());
        }
    } else if a.len() == 0 && b.len() == 0 {
        assert(a =~= b);
    }
    if a.len() > 0 {
        lemma_seq_lt_total(a.drop_first(), a.drop_first());
    }
}

proof fn lemma_seq_lt_trans(a: Seq<char>, b: Seq<char>, c: Seq<char>)
    requires
        seq_lt(a, b),
        seq_lt(b, c),
    ensures
        seq_lt(a, c),
    decreases a.len(),
{
    if a.len() > 0 && b.len() > 0 && c.len() > 0 {
        if (a[0] as u32) == (b[0] as u32) && (b[0] as u32) == (c[0] as u32) {
            lemma_seq_lt_trans(a.drop_first(), b.drop_first(), c.drop_first());
        }
    }
}

/// `a` orders before `b` (by character scalar values).
fn chars_lt(a: &Vec<char>, b: &Vec<char>) -> (r: bool)
    ensures
        r == seq_lt(a@, b@),
{
    let mut i: usize = 0;
    assert(a@.skip(0) =~= a@);
    assert(b@.skip(0) =~= b@);
    while i < a.len() && i < b.len() && (a[i] as u32) == (b[i] as u32)
        invariant
            i <= a.len(),
            i <= b.len(),
            seq_lt(a@, b@) == seq_lt(a@.skip(i as int), b@.skip(i as int)),
        decreases a.len() - i,
    {
        proof {
            assert(a@.skip(i as int).drop_first() =~= a@.skip(i as int + 1));
            assert(b@.skip(i as int).drop_first() =~= b@.skip(i as int + 1));
        }
        i = i + 1;
    }
    if i == a.len() {
        i < b.len()
    } else if i == b.len() {
        false
    } else {
        (a[i] as u32) < (b[i] as u32)
    }
}

/// Inserts `p` into `out`, kept ordered by left-end name, unless a pair with
/// the same left-end name is already there.
#[verifier::spinoff_prover]
#[verifier::rlimit(40)]
fn insert_sorted(out: &mut Vec<VethPair>, p: VethPair)
    requires
        forall|a: int, b: int|
            0 <= a < b < old(out)@.len() ==> seq_lt(old(out)@[a]@.left.name, old(out)@[b]@.left.name),
    ensures
        forall|a: int, b: int|
            0 <= a < b < final(out)@.len() ==> seq_lt(
                final(out)@[a]@.left.name,
                final(out)@[b]@.left.name,
            ),
        forall|a: int|
            0 <= a < final(out)@.len() ==> (#[trigger] final(out)@[a]@ == p@ || exists|b: int|
                0 <= b < old(out)@.len() && old(out)@[b]@ == final(out)@[a]@),
        exists|a: int| 0 <= a < final(out)@.len() && final(out)@[a]@.left.name == p@.left.name,
        forall|b: int|
            0 <= b < old(out)@.len() ==> exists|a: int|
                0 <= a < final(out)@.len() && final(out)@[a]@.left.name == (#[trigger] old(
                    out,
                )@[b])@.left.name,
{
    let key = str_chars(p.left.name.as_str());
    let mut i: usize = 0;
    while i < out.len()
        invariant
            key@ == p@.left.name,
            i <= out@.len(),
            out@ == old(out)@,
            forall|a: int| 0 <= a < i ==> seq_lt(#[trigger] out@[a]@.left.name, key@),
        ensures
            key@ == p@.left.name,
            i <= out@.len(),
            out@ == old(out)@,
            forall|a: int| 0 <= a < i ==> seq_lt(#[trigger] out@[a]@.left.name, key@),
            i < out@.len() ==> !seq_lt(out@[i as int]@.left.name, key@),
        decreases out.len() - i,
    {
        let k = str_chars(out[i].left.name.as_str());
        if !chars_lt(&k, &key) {
            break ;
        }
        i = i + 1;
    }
    let ghost before = out@;
    proof {
        lemma_seq_lt_total(key@, key@);
    }
    if i < out.len() {
        let k = str_chars(out[i].left.name.as_str());
        if crate::text::chars_eq(&k, &key) {
            // already listed under this left-end name
            assert(out@[i as int]@.left.name == p@.left.name);
            return ;
        }
    }
    proof {
        if i < before.len() {
            lemma_seq_lt_total(before[i as int]@.left.name, key@);
        }
    }
    out.insert(i, p);
    proof {
        assert forall|a: int, b: int| 0 <= a < b < out@.len() implies seq_lt(
            out@[a]@.left.name,
            out@[b]@.left.name,
        ) by {
            if b < i {
                assert(out@[a] == before[a] && out@[b] == before[b]);
            } else if b == i {
                assert(out@[a] == before[a]);
            } else if a < i {
                assert(out@[a] == before[a] && out@[b] == before[b - 1]);
                if b - 1 > i {
                    lemma_seq_lt_trans(key@, before[i as int]@.left.name, before[b - 1]@.left.name);
                }
                lemma_seq_lt_trans(before[a]@.left.name, key@, before[b - 1]@.left.name);
            } else if a == i {
                assert(out@[b] == before[b - 1]);
                if b - 1 > i {
                    lemma_seq_lt_trans(key@, before[i as int]@.left.name, before[b - 1]@.left.name);
                }
            } else {
                assert(out@[a] == before[a - 1] && out@[b] == before[b - 1]);
            }
        }
        assert forall|a: int| 0 <= a < out@.len() implies (#[trigger] out@[a]@ == p@ || exists|
            b: int,
        | 0 <= b < before.len() && before[b]@ == out@[a]@) by {
            if a < i {
                assert(out@[a] == before[a]);
            } else if a > i {
                assert(out@[a] == before[a - 1]);
            }
        }
        assert(out@[i as int]@.left.name == p@.left.name);
        assert forall|b: int| 0 <= b < before.len() implies exists|a: int|
            0 <= a < out@.len() && out@[a]@.left.name == (#[trigger] before[b])@.left.name by {
            if b < i {
                assert(out@[b] == before[b]);
            } else {
                assert(out@[b + 1] == before[b]);
            }
        }
    }
}

/// The name of the other end of `p`, seen from the end addressed by `name`.
pub open spec fn other_end(p: VethPairView, name: Seq<char>) -> Seq<char> {
    if p.left.name == name {
        p.right.name
    } else {
        p.left.name
    }
}

/// Deleting a pair right after creating it undoes the creation: when `m1`
/// is `m0` after recording a pair with ends `left` and `right`, and `m2` is
/// `m1` after taking the pair under `left`, then neither name is recorded in
/// `m2` and every other name has the record it had in `m0`.
pub proof fn lemma_take_undoes_record(
    m0: PairManager,
    m1: PairManager,
    m2: PairManager,
    left: Seq<char>,
    right: Seq<char>,
    p: VethPairView,
)
    requires
        p.left.name == left,
        p.right.name == right,
        m1.entry(left) == Some(p),
        m1.entry(right) == Some(p),
        forall|n: Seq<char>| n != left && n != right ==> m1.entry(n) == m0.entry(n),
        m2.entry(left) is None,
        m2.entry(other_end(p, left)) is None,
        forall|n: Seq<char>| n != left && n != other_end(p, left) ==> m2.entry(n) == m1.entry(n),
    ensures
        m2.entry(left) is None,
        m2.entry(right) is None,
        forall|n: Seq<char>| n != left && n != right ==> m2.entry(n) == m0.entry(n),
{
    if left == right {
        assert(other_end(p, left) == right);
    }
}

} // verus!
