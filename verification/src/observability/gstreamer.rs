//! Which GStreamer bus messages the collector keeps.

use vstd::prelude::*;
use vstd::string::*;

use crate::network_sim::qdisc::{lit, string_views};
use crate::text::str_eq;

verus! {

/// A filter on bus message types.
pub struct BusMessageFilter {
    message_types: Vec<String>,
}

impl View for BusMessageFilter {
    type V = Seq<Seq<char>>;

    closed spec fn view(&self) -> Seq<Seq<char>> {
        string_views(self.message_types@)
    }
}

impl BusMessageFilter {
    /// A filter that keeps the dispatcher's metrics messages.
    pub fn new() -> (f: Self)
        ensures
            f@ == seq!["rist-dispatcher-metrics"@],
    {
        let mut v: Vec<String> = Vec::new();
        v.push(lit("rist-dispatcher-metrics"));
        let f = BusMessageFilter { message_types: v };
        assert(f@ =~= seq!["rist-dispatcher-metrics"@]);
        f
    }

    /// A filter that keeps the given message types.
    pub fn with_message_types(message_types: Vec<String>) -> (f: Self)
        ensures
            f@ == string_views(message_types@),
    {
        BusMessageFilter { message_types }
    }

    /// Whether messages of this type are kept: the type is one of the
    /// filter's types.
    pub fn should_collect(&self, message_type: &str) -> (r: bool)
        ensures
            r == self@.contains(message_type@),
    {
        let mut i: usize = 0;
        while i < self.message_types.len()
            invariant
                i <= self.message_types@.len(),
                forall|k: int| 0 <= k < i ==> self.message_types@[k]@ != message_type@,
            decreases self.message_types.len() - i,
        {
            if str_eq(self.message_types[i].as_str(), message_type) {
                assert(self@[i as int] == message_type@);
                return true;
            }
            i = i + 1;
        }
        assert(!self@.contains(message_type@)) by {
            if self@.contains(message_type@) {
                let k = choose|k: int| 0 <= k < self@.len() && self@[k] == message_type@;
                assert(self.message_types@[k]@ == message_type@);
            }
        }
        false
    }
}

impl Default for BusMessageFilter {
    fn default() -> (f: Self)
        ensures
            f@ == seq!["rist-dispatcher-metrics"@],
    {
        BusMessageFilter::new()
    }
}

} // verus!
