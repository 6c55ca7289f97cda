//! Traffic-control (tc/netem) decisions: the argument lists handed to `tc`,
//! the reading of `tc -s qdisc show` counters, the naming of IFB devices for
//! ingress shaping, and the interpretation of failed `tc`/`ip` runs.

use vstd::prelude::*;
use vstd::string::*;

use crate::text::{
    decimal, occurs_at, u64_to_decimal, str_contains, utf8_width, char_utf8_width, char_views, chars_contain, chars_eq, lemma_utf8_len_take_mono, parse_u64,
    parse_u64_spec, seq_contains, split_whitespace, split_ws, str_chars, string_from_chars, utf8_len,
};

verus! {

/// Errors of traffic-control operations.
#[derive(Debug)]
pub enum QdiscError {
    /// The command could not be run at all.
    Command(std::io::Error),
    /// The interface does not exist.
    InterfaceNotFound(String),
    /// The command was refused for lack of privileges.
    PermissionDenied,
    /// The command ran and failed; holds its error output.
    CommandFailed(String),
    /// The arguments were rejected.
    InvalidArgs(String),
}

/// Manager for qdisc traffic control.
pub struct QdiscManager {}

impl QdiscManager {
    /// A qdisc manager.
    pub fn new() -> (m: Self)
        ensures
            m == (QdiscManager {  }),
    {
        QdiscManager {  }
    }

    /// The IFB device used for ingress shaping of `interface`: `ifb-`
    /// followed by the interface name with `/` replaced by `-`, cut to its
    /// first 15 bytes when longer.
    ///
    /// The cut is made on a byte count; a name whose 15-byte cut would split
    /// a character is not accepted.
    pub fn ingress_ifb_name(&self, interface: &str) -> (name: String)
        requires
            ifb_cut_on_char_boundary(interface@),
        ensures
            name@.len() <= ifb_base(interface@).len(),
            name@ == ifb_base(interface@).take(name@.len() as int),
            utf8_len(ifb_base(interface@)) <= 15 ==> name@ == ifb_base(interface@),
            utf8_len(ifb_base(interface@)) > 15 ==> utf8_len(name@) == 15,
    {
        let src = str_chars(interface);
        let mut base: Vec<char> = Vec::new();
        base.push('i');
        base.push('f');
        base.push('b');
        base.push('-');
        proof {
            reveal_strlit("ifb-");
        }
        assert(base@ =~= "ifb-"@);
        let mut i: usize = 0;
        while i < src.len()
            invariant
                i <= src.len(),
                src@ == interface@,
                base@ == "ifb-"@ + replace_slash(src@.take(i as int)),
            decreases src.len() - i,
        {
            let c = src[i];
            let d = if c == '/' {
                '-'
            } else {
                c
            };
            base.push(d);
            assert(replace_slash(src@.take(i as int + 1)) =~= replace_slash(src@.take(i as int)).push(
                d,
            ));
            i = i + 1;
        }
        assert(src@.take(src.len() as int) =~= src@);
        assert(base@ == ifb_base(interface@));
        // keep characters while the byte count stays within 15
        let mut k: usize = 0;
        let mut bytes: usize = 0;
        while k < base.len()
            invariant
                k <= base.len(),
                bytes == utf8_len(base@.take(k as int)),
                bytes <= 15,
            ensures
                k <= base.len(),
                bytes == utf8_len(base@.take(k as int)),
                bytes <= 15,
                k < base.len() ==> bytes + utf8_width(base@[k as int]) > 15,
            decreases base.len() - k,
        {
            let w = char_utf8_width(base[k]);
            if bytes + w > 15 {
                break ;
            }
            assert(base@.take(k as int + 1).drop_last() =~= base@.take(k as int));
            bytes = bytes + w;
            k = k + 1;
        }
        let ghost b = base@;
        proof {
            if k < b.len() {
                // the next character would pass 15 bytes
                assert(b.take(k as int + 1).drop_last() =~= b.take(k as int));
                assert(b.take(k as int + 1).last() == b[k as int]);
                assert(utf8_len(b.take(k as int + 1)) > 15);
                if utf8_len(b) > 15 {
                    let j = choose|j: int| 0 <= j <= b.len() && utf8_len(b.take(j)) == 15;
                    if j <= k {
                        lemma_utf8_len_take_mono(b, j, k as int);
                        assert(utf8_len(b.take(j)) + (k - j) <= bytes);
                    } else {
                        lemma_utf8_len_take_mono(b, k as int + 1, j);
                    }
                    assert(bytes == 15);
                } else {
                    lemma_utf8_len_take_mono(b, k as int + 1, b.len() as int);
                    assert(b.take(b.len() as int) =~= b);
                }
            } else {
                assert(b.take(k as int) =~= b);
            }
        }
        let mut out: Vec<char> = Vec::new();
        let mut m: usize = 0;
        while m < k
            invariant
                k <= base.len(),
                m <= k,
                out@ == base@.take(m as int),
            decreases k - m,
        {
            out.push(base[m]);
            assert(base@.take(m as int + 1) =~= base@.take(m as int).push(base@[m as int]));
            m = m + 1;
        }
        string_from_chars(&out)
    }
}

impl Default for QdiscManager {
    fn default() -> (m: Self)
        ensures
            m == (QdiscManager {  }),
    {
        QdiscManager::new()
    }
}

/// Replaces every `/` by `-`.
pub open spec fn replace_slash(s: Seq<char>) -> Seq<char> {
    s.map_values(|c: char| if c == '/' { '-' } else { c })
}

/// The IFB device name before the 15-byte cut.
pub open spec fn ifb_base(interface: Seq<char>) -> Seq<char> {
    "ifb-"@ + replace_slash(interface)
}

/// A name longer than 15 bytes can be cut at byte 15 without splitting a
/// character.
pub open spec fn ifb_cut_on_char_boundary(interface: Seq<char>) -> bool {
    utf8_len(ifb_base(interface)) > 15 ==> exists|j: int|
        0 <= j <= ifb_base(interface).len() && #[trigger] utf8_len(ifb_base(interface).take(j))
            == 15
}

// ---------------------------------------------------------------------------
// netem arguments
// ---------------------------------------------------------------------------

/// Shaping settings of an interface: a rate limit (shaped by HTB, none
/// when zero) and the impairments that netem adds.
///
/// The four percentages are carried as the decimal text that `tc` receives,
/// and are present only when the percentage is positive.
#[derive(Clone, Debug)]
pub struct NetemConfig {
    pub delay_us: u32,
    pub jitter_us: u32,
    pub loss_percent: Option<String>,
    pub loss_correlation: Option<String>,
    pub reorder_percent: Option<String>,
    pub duplicate_percent: Option<String>,
    pub rate_bps: u64,
}

/// The character sequences held by a sequence of strings.
pub open spec fn string_views(v: Seq<String>) -> Seq<Seq<char>> {
    v.map_values(|x: String| x@)
}

/// A percentage argument: the number followed by `%`.
pub open spec fn pct(t: String) -> Seq<char> {
    t@ + "%"@
}

/// The shaping rate in kbit/s: the configured rate rounded down, at least 1.
pub open spec fn rate_kbit(c: NetemConfig) -> nat {
    if c.rate_bps / 1000 >= 1 {
        (c.rate_bps / 1000) as nat
    } else {
        1
    }
}

/// `delay <d>us [<jitter>us]` when a delay is set.
pub open spec fn netem_delay_part(c: NetemConfig) -> Seq<Seq<char>> {
    if c.delay_us > 0 {
        seq!["delay"@, decimal(c.delay_us as nat) + "us"@] + if c.jitter_us > 0 {
            seq![decimal(c.jitter_us as nat) + "us"@]
        } else {
            seq![]
        }
    } else {
        seq![]
    }
}

/// `loss <p>% [<corr>%]` when a loss is set.
pub open spec fn netem_loss_part(c: NetemConfig) -> Seq<Seq<char>> {
    match c.loss_percent {
        Some(l) => seq!["loss"@, pct(l)] + match c.loss_correlation {
            Some(k) => seq![pct(k)],
            None => seq![],
        },
        None => seq![],
    }
}

/// `<keyword> <p>%` when the percentage is set.
pub open spec fn netem_pct_part(keyword: Seq<char>, p: Option<String>) -> Seq<Seq<char>> {
    match p {
        Some(v) => seq![keyword, pct(v)],
        None => seq![],
    }
}

/// The netem options: delay/jitter, loss/correlation, reorder and
/// duplicate, each only when set. The rate is shaped by HTB, not by netem.
pub open spec fn netem_options(c: NetemConfig) -> Seq<Seq<char>> {
    netem_delay_part(c) + netem_loss_part(c) + netem_pct_part("reorder"@, c.reorder_percent)
        + netem_pct_part("duplicate"@, c.duplicate_percent)
}

/// Whether option word `w` is a value rather than a keyword: a percentage
/// (ending in `%`) or a time in microseconds (digits then `us`).
spec fn value_word(w: Seq<char>) -> bool {
    w.len() > 0 && w.last() == '%' || w.len() >= 3 && w[w.len() - 2] == 'u' && w.last() == 's'
}

proof fn lemma_option_words(c: NetemConfig)
    ensures
        forall|i: int|
            0 <= i < netem_options(c).len() ==> value_word(#[trigger] netem_options(c)[i])
                || netem_options(c)[i] == "delay"@ || netem_options(c)[i] == "loss"@
                || netem_options(c)[i] == "reorder"@ || netem_options(c)[i] == "duplicate"@,
{
    reveal_strlit("us");
    reveal_strlit("%");
    if c.delay_us > 0 {
        crate::text::lemma_decimal_digits(c.delay_us as nat);
    }
    if c.jitter_us > 0 {
        crate::text::lemma_decimal_digits(c.jitter_us as nat);
    }
}

/// Each netem setting is given by its keyword followed by its own value:
/// `delay` by the delay (then the jitter, when set), `loss` by the loss
/// (then its correlation, when set), `reorder` and `duplicate` by their
/// percentages; a setting that is not set has no keyword at all.
pub proof fn lemma_netem_options_carry_their_values(c: NetemConfig)
    ensures
        ({
            let o = netem_options(c);
            &&& c.delay_us > 0 ==> exists|i: int|
                0 <= i && i + 1 < o.len() && #[trigger] o[i] == "delay"@ && o[i + 1] == decimal(
                    c.delay_us as nat,
                ) + "us"@ && (c.jitter_us > 0 ==> i + 2 < o.len() && o[i + 2] == decimal(
                    c.jitter_us as nat,
                ) + "us"@)
            &&& c.delay_us == 0 ==> !o.contains("delay"@)
            &&& (c.loss_percent matches Some(l) ==> exists|i: int|
                0 <= i && i + 1 < o.len() && #[trigger] o[i] == "loss"@ && o[i + 1] == l@ + "%"@
                    && (c.loss_correlation matches Some(k) ==> i + 2 < o.len() && o[i + 2] == k@
                    + "%"@))
            &&& c.loss_percent is None ==> !o.contains("loss"@)
            &&& (c.reorder_percent matches Some(r) ==> exists|i: int|
                0 <= i && i + 1 < o.len() && #[trigger] o[i] == "reorder"@ && o[i + 1] == r@ + "%"@)
            &&& c.reorder_percent is None ==> !o.contains("reorder"@)
            &&& (c.duplicate_percent matches Some(d) ==> exists|i: int|
                0 <= i && i + 1 < o.len() && #[trigger] o[i] == "duplicate"@ && o[i + 1] == d@
                    + "%"@)
            &&& c.duplicate_percent is None ==> !o.contains("duplicate"@)
        }),
{
    reveal_strlit("delay");
    reveal_strlit("loss");
    reveal_strlit("reorder");
    reveal_strlit("duplicate");
    reveal_strlit("us");
    reveal_strlit("%");
    lemma_option_words(c);
    let o = netem_options(c);
    let d = netem_delay_part(c);
    let l = netem_loss_part(c);
    let r = netem_pct_part("reorder"@, c.reorder_percent);
    let u = netem_pct_part("duplicate"@, c.duplicate_percent);
    assert(o =~= d + l + r + u);
    if c.delay_us > 0 {
        assert(o[0] == "delay"@);
    }
    if c.loss_percent is Some {
        assert(o[d.len() as int] == "loss"@);
    }
    if c.reorder_percent is Some {
        assert(o[(d.len() + l.len()) as int] == "reorder"@);
    }
    if c.duplicate_percent is Some {
        assert(o[(d.len() + l.len() + r.len()) as int] == "duplicate"@);
    }
    // keywords are told apart from each other and from values by their ends
    assert("delay"@.last() == 'y' && "loss"@.last() == 's' && "loss"@["loss"@.len() - 2] == 's');
    assert("reorder"@.last() == 'r' && "duplicate"@.last() == 'e');
    assert(!value_word("delay"@) && !value_word("loss"@) && !value_word("reorder"@)
        && !value_word("duplicate"@));
    if c.delay_us == 0 {
        assert forall|i: int| 0 <= i < o.len() implies o[i] != "delay"@ by {
            if i < l.len() {
                assert(o[i] == l[i]);
            }
        }
    }
    if c.loss_percent is None {
        assert forall|i: int| 0 <= i < o.len() implies o[i] != "loss"@ by {}
    }
    if c.reorder_percent is None {
        assert forall|i: int| 0 <= i < o.len() implies o[i] != "reorder"@ by {}
    }
    if c.duplicate_percent is None {
        assert forall|i: int| 0 <= i < o.len() implies o[i] != "duplicate"@ by {}
    }
}

/// `tc` arguments of the root HTB qdisc (handle `1:`, default class 10).
pub open spec fn htb_root_args(interface: Seq<char>) -> Seq<Seq<char>> {
    seq!["qdisc"@, "add"@, "dev"@, interface, "root"@, "handle"@, "1:"@, "htb"@, "default"@, "10"@]
}

/// `tc` arguments of HTB class `1:10`, whose rate and ceiling are the
/// shaping rate.
pub open spec fn htb_class_args(interface: Seq<char>, c: NetemConfig) -> Seq<Seq<char>> {
    seq![
        "class"@,
        "add"@,
        "dev"@,
        interface,
        "parent"@,
        "1:"@,
        "classid"@,
        "1:10"@,
        "htb"@,
        "rate"@,
        decimal(rate_kbit(c)) + "kbit"@,
        "ceil"@,
        decimal(rate_kbit(c)) + "kbit"@,
    ]
}

/// `tc` arguments of netem (handle `10:`) under HTB class `1:10`.
pub open spec fn netem_child_args(interface: Seq<char>, c: NetemConfig) -> Seq<Seq<char>> {
    seq!["qdisc"@, "add"@, "dev"@, interface, "parent"@, "1:10"@, "handle"@, "10:"@, "netem"@]
        + netem_options(c)
}

/// `tc` arguments of netem (handle `10:`) as root qdisc.
pub open spec fn netem_root_args(interface: Seq<char>, c: NetemConfig) -> Seq<Seq<char>> {
    seq!["qdisc"@, "add"@, "dev"@, interface, "root"@, "handle"@, "10:"@, "netem"@]
        + netem_options(c)
}

/// The `tc` commands that shape `interface`, in order. With a rate: a root
/// HTB qdisc, its class at the rate, and netem under the class for delay,
/// loss, reorder and duplication. Without a rate there is nothing to limit,
/// and netem alone is the root qdisc.
pub open spec fn shaping_plan(interface: Seq<char>, c: NetemConfig) -> Seq<Seq<Seq<char>>> {
    if c.rate_bps > 0 {
        seq![htb_root_args(interface), htb_class_args(interface, c), netem_child_args(interface, c)]
    } else {
        seq![netem_root_args(interface, c)]
    }
}

/// A rate limit is enforced by HTB and never by netem: with a rate, the
/// plan installs a root HTB qdisc, then its class at the rate (as rate and
/// ceiling), then netem under that class, and no netem argument is `rate`.
pub proof fn lemma_rate_shaped_by_htb(interface: Seq<char>, c: NetemConfig)
    ensures
        !netem_options(c).contains("rate"@),
        c.rate_bps > 0 ==> shaping_plan(interface, c) == seq![
            htb_root_args(interface),
            htb_class_args(interface, c),
            netem_child_args(interface, c),
        ],
        c.rate_bps > 0 ==> shaping_plan(interface, c)[0][7] == "htb"@ && shaping_plan(interface, c)[1][10]
            == decimal(rate_kbit(c)) + "kbit"@ && shaping_plan(interface, c)[2][5] == "1:10"@
            && shaping_plan(interface, c)[2][8] == "netem"@,
{
    reveal_strlit("rate");
    reveal_strlit("delay");
    reveal_strlit("loss");
    reveal_strlit("reorder");
    reveal_strlit("duplicate");
    reveal_strlit("us");
    reveal_strlit("%");
    let o = netem_options(c);
    assert forall|i: int| 0 <= i < o.len() implies o[i] != "rate"@ by {
        let w = o[i];
        if w.len() > 0 && (w.last() == 's' || w.last() == '%') {
            assert(w.last() != "rate"@.last());
        } else {
            assert(w == "delay"@ || w == "loss"@ || w == "reorder"@ || w == "duplicate"@);
        }
    }
}

/// `tc` arguments run inside namespace `ns` (`ip netns exec <ns> tc ...`).
pub open spec fn in_netns(ns: Seq<char>, args: Seq<Seq<char>>) -> Seq<Seq<char>> {
    seq!["netns"@, "exec"@, ns, "tc"@] + args
}

/// The `ip` commands that shape `interface` inside namespace `ns`: the same
/// plan, each command run there.
pub open spec fn shaping_plan_in_ns(
    ns: Seq<char>,
    interface: Seq<char>,
    c: NetemConfig,
) -> Seq<Seq<Seq<char>>> {
    shaping_plan(interface, c).map_values(|a: Seq<Seq<char>>| in_netns(ns, a))
}

/// The contents of a sequence of argument lists.
pub open spec fn arg_lists(v: Seq<Vec<String>>) -> Seq<Seq<Seq<char>>> {
    v.map_values(|a: Vec<String>| string_views(a@))
}

/// Appends one argument.
pub(crate) fn push_arg(args: &mut Vec<String>, a: String)
    ensures
        string_views(final(args)@) == string_views(old(args)@).push(a@),
{
    let ghost before = args@;
    args.push(a);
    assert(string_views(args@) =~= string_views(before).push(a@));
}

/// An owned copy of a string slice.
pub(crate) fn lit(s: &str) -> (r: String)
    ensures
        r@ == s@,
{
    String::from_str(s)
}

fn with_suffix(mut a: String, suffix: &str) -> (r: String)
    ensures
        r@ == a@ + suffix@,
{
    a.append(suffix);
    a
}

fn push_delay_part(args: &mut Vec<String>, c: &NetemConfig)
    ensures
        string_views(final(args)@) == string_views(old(args)@) + netem_delay_part(*c),
{
    let ghost a0 = string_views(args@);
    if c.delay_us > 0 {
        push_arg(args, lit("delay"));
        push_arg(args, with_suffix(u64_to_decimal(c.delay_us as u64), "us"));
        if c.jitter_us > 0 {
            push_arg(args, with_suffix(u64_to_decimal(c.jitter_us as u64), "us"));
        }
    }
    assert(string_views(args@) =~= a0 + netem_delay_part(*c));
}

fn push_loss_part(args: &mut Vec<String>, c: &NetemConfig)
    ensures
        string_views(final(args)@) == string_views(old(args)@) + netem_loss_part(*c),
{
    let ghost a0 = string_views(args@);
    match &c.loss_percent {
        Some(l) => {
            push_arg(args, lit("loss"));
            push_arg(args, with_suffix(l.clone(), "%"));
            match &c.loss_correlation {
                Some(k) => {
                    push_arg(args, with_suffix(k.clone(), "%"));
                },
                None => {},
            }
        },
        None => {},
    }
    assert(string_views(args@) =~= a0 + netem_loss_part(*c));
}

fn push_pct_part(args: &mut Vec<String>, keyword: &str, p: &Option<String>)
    ensures
        string_views(final(args)@) == string_views(old(args)@) + netem_pct_part(keyword@, *p),
{
    let ghost a0 = string_views(args@);
    match p {
        Some(v) => {
            push_arg(args, lit(keyword));
            push_arg(args, with_suffix(v.clone(), "%"));
        },
        None => {},
    }
    assert(string_views(args@) =~= a0 + netem_pct_part(keyword@, *p));
}

/// Appends the netem options of `c` to `args`.
pub fn push_netem_options(args: &mut Vec<String>, c: &NetemConfig)
    ensures
        string_views(final(args)@) == string_views(old(args)@) + netem_options(*c),
{
    let ghost a0 = string_views(args@);
    push_delay_part(args, c);
    push_loss_part(args, c);
    push_pct_part(args, "reorder", &c.reorder_percent);
    push_pct_part(args, "duplicate", &c.duplicate_percent);
    assert(string_views(args@) =~= a0 + netem_options(*c));
}

fn words_into(args: &mut Vec<String>, ws: &[&str])
    ensures
        string_views(final(args)@) == string_views(old(args)@) + ws@.map_values(|w: &str| w@),
{
    let ghost a0 = string_views(args@);
    let mut i: usize = 0;
    while i < ws.len()
        invariant
            i <= ws@.len(),
            string_views(args@) == a0 + ws@.take(i as int).map_values(|w: &str| w@),
        decreases ws.len() - i,
    {
        push_arg(args, lit(ws[i]));
        assert(ws@.take(i as int + 1).map_values(|w: &str| w@) =~= ws@.take(i as int).map_values(
            |w: &str| w@,
        ).push(ws@[i as int]@));
        i = i + 1;
    }
    assert(ws@.take(ws@.len() as int) =~= ws@);
}

fn htb_root_command(prefix: &Vec<String>, interface: &str) -> (args: Vec<String>)
    ensures
        string_views(args@) == string_views(prefix@) + htb_root_args(interface@),
{
    let mut args: Vec<String> = Vec::new();
    words_into(&mut args, prefix_words(prefix).as_slice());
    let ghost p = string_views(args@);
    let a = ["qdisc", "add", "dev", interface, "root", "handle", "1:", "htb", "default", "10"];
    words_into(&mut args, &a);
    assert(string_views(args@) =~= p + htb_root_args(interface@));
    args
}

fn htb_class_command(prefix: &Vec<String>, interface: &str, c: &NetemConfig) -> (args: Vec<String>)
    ensures
        string_views(args@) == string_views(prefix@) + htb_class_args(interface@, *c),
{
    let mut args: Vec<String> = Vec::new();
    words_into(&mut args, prefix_words(prefix).as_slice());
    let ghost p = string_views(args@);
    let a = ["class", "add", "dev", interface, "parent", "1:", "classid", "1:10", "htb", "rate"];
    words_into(&mut args, &a);
    let k = c.rate_bps / 1000;
    let kbit: u64 = if k >= 1 {
        k
    } else {
        1
    };
    push_arg(&mut args, with_suffix(u64_to_decimal(kbit), "kbit"));
    push_arg(&mut args, lit("ceil"));
    push_arg(&mut args, with_suffix(u64_to_decimal(kbit), "kbit"));
    assert(string_views(args@) =~= p + htb_class_args(interface@, *c));
    args
}

fn netem_child_command(prefix: &Vec<String>, interface: &str, c: &NetemConfig) -> (args: Vec<
    String,
>)
    ensures
        string_views(args@) == string_views(prefix@) + netem_child_args(interface@, *c),
{
    let mut args: Vec<String> = Vec::new();
    words_into(&mut args, prefix_words(prefix).as_slice());
    let ghost p = string_views(args@);
    let a = ["qdisc", "add", "dev", interface, "parent", "1:10", "handle", "10:", "netem"];
    words_into(&mut args, &a);
    push_netem_options(&mut args, c);
    assert(string_views(args@) =~= p + netem_child_args(interface@, *c));
    args
}

fn netem_root_command(prefix: &Vec<String>, interface: &str, c: &NetemConfig) -> (args: Vec<
    String,
>)
    ensures
        string_views(args@) == string_views(prefix@) + netem_root_args(interface@, *c),
{
    let mut args: Vec<String> = Vec::new();
    words_into(&mut args, prefix_words(prefix).as_slice());
    let ghost p = string_views(args@);
    let a = ["qdisc", "add", "dev", interface, "root", "handle", "10:", "netem"];
    words_into(&mut args, &a);
    push_netem_options(&mut args, c);
    assert(string_views(args@) =~= p + netem_root_args(interface@, *c));
    args
}

fn prefix_words(prefix: &Vec<String>) -> (r: Vec<&str>)
    ensures
        r@.map_values(|w: &str| w@) == string_views(prefix@),
{
    let mut r: Vec<&str> = Vec::new();
    let mut i: usize = 0;
    while i < prefix.len()
        invariant
            i <= prefix@.len(),
            r@.map_values(|w: &str| w@) == string_views(prefix@).take(i as int),
        decreases prefix.len() - i,
    {
        let ghost before = r@;
        r.push(prefix[i].as_str());
        assert(r@.map_values(|w: &str| w@) =~= before.map_values(|w: &str| w@).push(prefix@[i as int]@));
        assert(string_views(prefix@).take(i as int + 1) =~= string_views(prefix@).take(i as int).push(
            prefix@[i as int]@,
        ));
        i = i + 1;
    }
    assert(string_views(prefix@).take(prefix@.len() as int) =~= string_views(prefix@));
    r
}

fn shaping_commands_with(prefix: &Vec<String>, interface: &str, c: &NetemConfig) -> (r: Vec<Vec<String>>)
    ensures
        arg_lists(r@) == shaping_plan(interface@, *c).map_values(
            |a: Seq<Seq<char>>| string_views(prefix@) + a,
        ),
{
    let mut r: Vec<Vec<String>> = Vec::new();
    let ghost pv = string_views(prefix@);
    if c.rate_bps > 0 {
        r.push(htb_root_command(prefix, interface));
        r.push(htb_class_command(prefix, interface, c));
        r.push(netem_child_command(prefix, interface, c));
    } else {
        r.push(netem_root_command(prefix, interface, c));
    }
    assert(arg_lists(r@) =~= shaping_plan(interface@, *c).map_values(
        |a: Seq<Seq<char>>| pv + a,
    ));
    r
}

/// The `tc` argument lists that shape `interface` with settings `c`, in
/// the order they are run.
pub fn shaping_tc_commands(interface: &str, c: &NetemConfig) -> (r: Vec<Vec<String>>)
    ensures
        arg_lists(r@) == shaping_plan(interface@, *c),
{
    let prefix: Vec<String> = Vec::new();
    let r = shaping_commands_with(&prefix, interface, c);
    assert(string_views(prefix@) =~= Seq::<Seq<char>>::empty());
    assert(shaping_plan(interface@, *c).map_values(|a: Seq<Seq<char>>| string_views(prefix@) + a)
        =~= shaping_plan(interface@, *c)) by {
        assert forall|i: int| 0 <= i < shaping_plan(interface@, *c).len() implies
            #[trigger] shaping_plan(interface@, *c)[i] == Seq::<Seq<char>>::empty()
            + shaping_plan(interface@, *c)[i] by {
            assert(Seq::<Seq<char>>::empty() + shaping_plan(interface@, *c)[i] =~= shaping_plan(
                interface@,
                *c,
            )[i]);
        }
    }
    r
}

/// The `ip` argument lists that shape `interface` with settings `c` inside
/// namespace `ns` (`ip netns exec <ns> tc ...`), in the order they are run.
pub fn shaping_tc_commands_in_ns(ns: &str, interface: &str, c: &NetemConfig) -> (r: Vec<
    Vec<String>,
>)
    ensures
        arg_lists(r@) == shaping_plan_in_ns(ns@, interface@, *c),
{
    let mut prefix: Vec<String> = Vec::new();
    push_arg(&mut prefix, lit("netns"));
    push_arg(&mut prefix, lit("exec"));
    push_arg(&mut prefix, lit(ns));
    push_arg(&mut prefix, lit("tc"));
    assert(string_views(prefix@) =~= seq!["netns"@, "exec"@, ns@, "tc"@]);
    shaping_commands_with(&prefix, interface, c)
}

// ---------------------------------------------------------------------------
// Failed tc / ip runs
// ---------------------------------------------------------------------------

/// What the error output of a failed `tc` run on `interface` means:
/// a permission refusal, a missing interface, or another failure.
pub fn tc_failure(stderr: &str, interface: &str) -> (e: QdiscError)
    ensures
        seq_contains(stderr@, "Operation not permitted"@) ==> e is PermissionDenied,
        !seq_contains(stderr@, "Operation not permitted"@) && seq_contains(
            stderr@,
            "Cannot find device"@,
        ) ==> (e matches QdiscError::InterfaceNotFound(n) && n@ == interface@),
        !seq_contains(stderr@, "Operation not permitted"@) && !seq_contains(
            stderr@,
            "Cannot find device"@,
        ) ==> (e matches QdiscError::CommandFailed(m) && m@ == stderr@),
{
    if str_contains(stderr, "Operation not permitted") {
        QdiscError::PermissionDenied
    } else if str_contains(stderr, "Cannot find device") {
        QdiscError::InterfaceNotFound(lit(interface))
    } else {
        QdiscError::CommandFailed(lit(stderr))
    }
}

/// What the error output of a failed `ip` or `tc` run that creates something
/// means: a permission refusal or another failure.
pub fn permission_or_failure(stderr: &str) -> (e: QdiscError)
    ensures
        seq_contains(stderr@, "Operation not permitted"@) ==> e is PermissionDenied,
        !seq_contains(stderr@, "Operation not permitted"@) ==> (e matches QdiscError::CommandFailed(m)
            && m@ == stderr@),
{
    if str_contains(stderr, "Operation not permitted") {
        QdiscError::PermissionDenied
    } else {
        QdiscError::CommandFailed(lit(stderr))
    }
}

/// Whether `ip -o link show dev <iface>` found the interface: a successful
/// run means present, an error output naming a missing device means absent,
/// any other failure is reported.
pub fn interface_presence(success: bool, stderr: &str) -> (r: Result<bool, QdiscError>)
    ensures
        success ==> r matches Ok(true),
        !success && (seq_contains(stderr@, "Cannot find device"@) || seq_contains(
            stderr@,
            "does not exist"@,
        )) ==> r matches Ok(false),
        !success && !seq_contains(stderr@, "Cannot find device"@) && !seq_contains(
            stderr@,
            "does not exist"@,
        ) ==> (r matches Err(QdiscError::CommandFailed(m)) && m@ == stderr@),
{
    if success {
        Ok(true)
    } else if str_contains(stderr, "Cannot find device") || str_contains(stderr, "does not exist") {
        Ok(false)
    } else {
        Err(QdiscError::CommandFailed(lit(stderr)))
    }
}

/// What a failed ingress setup step (ingress qdisc or redirect filter)
/// means: an existing qdisc or filter is accepted, otherwise a permission
/// refusal or another failure.
pub fn ingress_step_failure(stderr: &str) -> (r: Option<QdiscError>)
    ensures
        seq_contains(stderr@, "File exists"@) ==> r is None,
        !seq_contains(stderr@, "File exists"@) && seq_contains(
            stderr@,
            "Operation not permitted"@,
        ) ==> r matches Some(QdiscError::PermissionDenied),
        !seq_contains(stderr@, "File exists"@) && !seq_contains(
            stderr@,
            "Operation not permitted"@,
        ) ==> (r matches Some(QdiscError::CommandFailed(m)) && m@ == stderr@),
{
    let plain = str_contains(stderr, "File exists");
    let long = str_contains(stderr, "RTNETLINK answers: File exists");
    if plain || long {
        proof {
            if long {
                lemma_file_exists_inside(stderr@);
            }
        }
        None
    } else {
        Some(permission_or_failure(stderr))
    }
}

proof fn lemma_file_exists_inside(s: Seq<char>)
    requires
        seq_contains(s, "RTNETLINK answers: File exists"@),
    ensures
        seq_contains(s, "File exists"@),
{
    reveal_strlit("RTNETLINK answers: File exists");
    reveal_strlit("File exists");
    let i = choose|i: int| occurs_at(s, "RTNETLINK answers: File exists"@, i);
    let big = "RTNETLINK answers: File exists"@;
    assert(big.subrange(19, 30) =~= "File exists"@);
    assert(s.subrange(i + 19, i + 30) =~= "File exists"@) by {
        assert(s.subrange(i, i + 30) == big);
        assert forall|m: int| 0 <= m < 11 implies s.subrange(i + 19, i + 30)[m] == "File exists"@[m] by {
            assert(s.subrange(i, i + 30)[19 + m] == big[19 + m]);
        }
    }
    assert(occurs_at(s, "File exists"@, i + 19));
}

/// `tc` arguments that add an ingress qdisc (handle `ffff:`) to `interface`.
pub open spec fn ingress_qdisc_args(interface: Seq<char>) -> Seq<Seq<char>> {
    seq!["qdisc"@, "add"@, "dev"@, interface, "handle"@, "ffff:"@, "ingress"@]
}

/// `tc` arguments of the filter that redirects all ingress traffic of
/// `interface` to device `ifb`.
pub open spec fn ingress_redirect_args(interface: Seq<char>, ifb: Seq<char>) -> Seq<Seq<char>> {
    seq![
        "filter"@,
        "add"@,
        "dev"@,
        interface,
        "parent"@,
        "ffff:"@,
        "protocol"@,
        "all"@,
        "u32"@,
        "match"@,
        "u32"@,
        "0"@,
        "0"@,
        "action"@,
        "mirred"@,
        "egress"@,
        "redirect"@,
        "dev"@,
        ifb,
    ]
}

/// Builds `ingress_qdisc_args`.
pub fn ingress_qdisc_tc_args(interface: &str) -> (args: Vec<String>)
    ensures
        string_views(args@) == ingress_qdisc_args(interface@),
{
    let mut args: Vec<String> = Vec::new();
    push_arg(&mut args, lit("qdisc"));
    push_arg(&mut args, lit("add"));
    push_arg(&mut args, lit("dev"));
    push_arg(&mut args, lit(interface));
    push_arg(&mut args, lit("handle"));
    push_arg(&mut args, lit("ffff:"));
    push_arg(&mut args, lit("ingress"));
    assert(string_views(args@) =~= ingress_qdisc_args(interface@));
    args
}

/// Builds `ingress_redirect_args`.
pub fn ingress_redirect_tc_args(interface: &str, ifb: &str) -> (args: Vec<String>)
    ensures
        string_views(args@) == ingress_redirect_args(interface@, ifb@),
{
    let mut args: Vec<String> = Vec::new();
    push_arg(&mut args, lit("filter"));
    push_arg(&mut args, lit("add"));
    push_arg(&mut args, lit("dev"));
    push_arg(&mut args, lit(interface));
    push_arg(&mut args, lit("parent"));
    push_arg(&mut args, lit("ffff:"));
    push_arg(&mut args, lit("protocol"));
    push_arg(&mut args, lit("all"));
    push_arg(&mut args, lit("u32"));
    push_arg(&mut args, lit("match"));
    push_arg(&mut args, lit("u32"));
    push_arg(&mut args, lit("0"));
    push_arg(&mut args, lit("0"));
    push_arg(&mut args, lit("action"));
    push_arg(&mut args, lit("mirred"));
    push_arg(&mut args, lit("egress"));
    push_arg(&mut args, lit("redirect"));
    push_arg(&mut args, lit("dev"));
    push_arg(&mut args, lit(ifb));
    assert(string_views(args@) =~= ingress_redirect_args(interface@, ifb@));
    args
}

// ---------------------------------------------------------------------------
// Counters of `tc -s qdisc show`
// ---------------------------------------------------------------------------

/// Basic interface statistics derived from `tc -s` output.
#[derive(Clone, Copy, Debug, PartialEq, Eq, Structural)]
pub struct InterfaceStats {
    pub sent_bytes: u64,
    pub sent_packets: u64,
    pub dropped: u64,
}

/// All counters zero.
pub open spec fn zero_stats() -> InterfaceStats {
    InterfaceStats { sent_bytes: 0, sent_packets: 0, dropped: 0 }
}

/// Strips trailing `,` and `)` characters.
pub open spec fn trim_end_commas(t: Seq<char>) -> Seq<char>
    decreases t.len(),
{
    if t.len() > 0 && (t.last() == ',' || t.last() == ')') {
        trim_end_commas(t.drop_last())
    } else {
        t
    }
}

/// The counters after looking at token `i` of a statistics line:
/// the number after `Sent` is the byte count, the number before `pkt` the
/// packet count, and the number after a token containing `dropped` (with
/// trailing `,`/`)` removed) the drop count. A token that is not a number
/// leaves the counter unchanged.
pub open spec fn token_update(st: InterfaceStats, toks: Seq<Seq<char>>, i: int) -> InterfaceStats {
    let t = toks[i];
    let sent_bytes = if t == "Sent"@ && i + 1 < toks.len() {
        match parse_u64_spec(toks[i + 1]) {
            Some(v) => v,
            None => st.sent_bytes,
        }
    } else {
        st.sent_bytes
    };
    let sent_packets = if t == "pkt"@ && i > 0 {
        match parse_u64_spec(toks[i - 1]) {
            Some(v) => v,
            None => st.sent_packets,
        }
    } else {
        st.sent_packets
    };
    let dropped = if seq_contains(t, "dropped"@) && i + 1 < toks.len() {
        match parse_u64_spec(trim_end_commas(toks[i + 1])) {
            Some(v) => v,
            None => st.dropped,
        }
    } else {
        st.dropped
    };
    InterfaceStats { sent_bytes, sent_packets, dropped }
}

/// The counters after the first `n` tokens of a line.
pub open spec fn tokens_update(st: InterfaceStats, toks: Seq<Seq<char>>, n: int) -> InterfaceStats
    decreases n,
{
    if n <= 0 {
        st
    } else {
        token_update(tokens_update(st, toks, n - 1), toks, n - 1)
    }
}

/// A text that lacks the first letter of `w` does not hold `w`.
proof fn lemma_absent_letter(t: Seq<char>, w: Seq<char>)
    requires
        w.len() > 0,
        crate::text::lacks(t, w[0]),
    ensures
        !seq_contains(t, w),
{
    if seq_contains(t, w) {
        let j = choose|j: int| occurs_at(t, w, j);
        assert(t.subrange(j, j + w.len())[0] == t[j]);
    }
}

/// A number, possibly followed by `,` or `)`, holds no letter `d`.
proof fn lemma_number_lacks_d(n: nat, tail: Seq<char>)
    requires
        crate::text::lacks(tail, 'd'),
    ensures
        crate::text::lacks(decimal(n) + tail, 'd'),
{
    crate::text::lemma_decimal_digits(n);
    let e = decimal(n) + tail;
    assert forall|j: int| 0 <= j < e.len() implies #[trigger] e[j] != 'd' by {
        if j < decimal(n).len() {
            assert(crate::text::is_digit(decimal(n)[j]));
        } else {
            assert(e[j] == tail[j - decimal(n).len()]);
        }
    }
}

/// What `tc -s` prints is read back: on the statistics line
/// `Sent <b> bytes <p> pkt (dropped <d>, overlimits <o> requeues <r>)`, the
/// byte count is `b`, the packet count `p` and the drop count `d`, whatever
/// the counters were before.
#[verifier::spinoff_prover]
#[verifier::rlimit(80)]
pub proof fn lemma_stats_line_read_back(st: InterfaceStats, b: u64, p: u64, d: u64, o: u64, r: u64)
    ensures
        tokens_update(
            st,
            seq![
                "Sent"@,
                decimal(b as nat),
                "bytes"@,
                decimal(p as nat),
                "pkt"@,
                "(dropped"@,
                decimal(d as nat) + ","@,
                "overlimits"@,
                decimal(o as nat),
                "requeues"@,
                decimal(r as nat) + ")"@,
            ],
            11,
        ) == (InterfaceStats { sent_bytes: b, sent_packets: p, dropped: d }),
{
    reveal_strlit("Sent");
    reveal_strlit("bytes");
    reveal_strlit("pkt");
    reveal_strlit("(dropped");
    reveal_strlit("dropped");
    reveal_strlit("overlimits");
    reveal_strlit("requeues");
    reveal_strlit(",");
    reveal_strlit(")");
    let toks = seq![
        "Sent"@,
        decimal(b as nat),
        "bytes"@,
        decimal(p as nat),
        "pkt"@,
        "(dropped"@,
        decimal(d as nat) + ","@,
        "overlimits"@,
        decimal(o as nat),
        "requeues"@,
        decimal(r as nat) + ")"@,
    ];
    let dr = "dropped"@;
    crate::text::lemma_decimal_parses_back(b);
    crate::text::lemma_decimal_parses_back(p);
    crate::text::lemma_decimal_parses_back(d);
    crate::text::lemma_decimal_digits(b as nat);
    crate::text::lemma_decimal_digits(p as nat);
    crate::text::lemma_decimal_digits(d as nat);
    crate::text::lemma_decimal_digits(o as nat);
    crate::text::lemma_decimal_digits(r as nat);
    // no token but `(dropped` mentions `dropped`
    assert(dr[0] == 'd');
    assert(crate::text::lacks(Seq::<char>::empty(), 'd'));
    assert(crate::text::lacks(","@, 'd'));
    assert(crate::text::lacks(")"@, 'd'));
    assert(crate::text::lacks("Sent"@, 'd'));
    assert(crate::text::lacks("bytes"@, 'd'));
    assert(crate::text::lacks("pkt"@, 'd'));
    assert(crate::text::lacks("overlimits"@, 'd'));
    assert(crate::text::lacks("requeues"@, 'd'));
    lemma_number_lacks_d(b as nat, Seq::empty());
    lemma_number_lacks_d(p as nat, Seq::empty());
    lemma_number_lacks_d(d as nat, ","@);
    lemma_number_lacks_d(o as nat, Seq::empty());
    lemma_number_lacks_d(r as nat, ")"@);
    assert(decimal(b as nat) + Seq::<char>::empty() =~= decimal(b as nat));
    assert(decimal(p as nat) + Seq::<char>::empty() =~= decimal(p as nat));
    assert(decimal(o as nat) + Seq::<char>::empty() =~= decimal(o as nat));
    lemma_absent_letter(decimal(b as nat), dr);
    lemma_absent_letter(decimal(p as nat), dr);
    lemma_absent_letter(decimal(d as nat) + ","@, dr);
    lemma_absent_letter(decimal(o as nat), dr);
    lemma_absent_letter(decimal(r as nat) + ")"@, dr);
    lemma_absent_letter("Sent"@, dr);
    lemma_absent_letter("bytes"@, dr);
    lemma_absent_letter("pkt"@, dr);
    lemma_absent_letter("overlimits"@, dr);
    lemma_absent_letter("requeues"@, dr);
    assert(occurs_at("(dropped"@, dr, 1)) by {
        assert("(dropped"@.subrange(1, 8) =~= dr);
    }
    // the drop count is read from `<d>,` with the comma removed
    assert(trim_end_commas(decimal(d as nat) + ","@) == decimal(d as nat)) by {
        let dd = decimal(d as nat);
        let e = dd + ","@;
        assert(e.last() == ',');
        assert(e.drop_last() =~= dd);
        assert(crate::text::is_digit(dd[dd.len() - 1]));
        assert(dd.last() != ',' && dd.last() != ')');
        assert(trim_end_commas(dd) == dd);
        assert(trim_end_commas(e) == trim_end_commas(e.drop_last()));
    }
    // numbers are neither `Sent` nor `pkt`
    assert forall|n: nat| #![trigger decimal(n)] decimal(n) != "Sent"@ && decimal(n) != "pkt"@ by {
        crate::text::lemma_decimal_digits(n);
        assert(crate::text::is_digit(decimal(n)[0]));
    }
    assert(decimal(d as nat) + ","@ != "Sent"@ && decimal(d as nat) + ","@ != "pkt"@) by {
        assert(crate::text::is_digit((decimal(d as nat) + ","@)[0]));
    }
    assert(decimal(r as nat) + ")"@ != "Sent"@ && decimal(r as nat) + ")"@ != "pkt"@) by {
        assert(crate::text::is_digit((decimal(r as nat) + ")"@)[0]));
    }
    assert("bytes"@ != "Sent"@ && "bytes"@ != "pkt"@ && "(dropped"@ != "Sent"@ && "(dropped"@
        != "pkt"@ && "overlimits"@ != "Sent"@ && "overlimits"@ != "pkt"@ && "requeues"@ != "Sent"@
        && "requeues"@ != "pkt"@ && "Sent"@ != "pkt"@) by {
        assert("bytes"@.len() != "Sent"@.len());
        assert("bytes"@.len() != "pkt"@.len());
        assert("(dropped"@.len() != "Sent"@.len());
        assert("(dropped"@.len() != "pkt"@.len());
        assert("overlimits"@.len() != "Sent"@.len());
        assert("overlimits"@.len() != "pkt"@.len());
        assert("requeues"@.len() != "Sent"@.len());
        assert("requeues"@.len() != "pkt"@.len());
        assert("Sent"@.len() != "pkt"@.len());
    }
    assert(tokens_update(st, toks, 0) == st);
    let s1 = token_update(st, toks, 0);
    assert(tokens_update(st, toks, 1) == s1);
    assert(s1.sent_bytes == b);
    let s2 = token_update(s1, toks, 1);
    assert(tokens_update(st, toks, 2) == s2);
    let s3 = token_update(s2, toks, 2);
    assert(tokens_update(st, toks, 3) == s3);
    let s4 = token_update(s3, toks, 3);
    assert(tokens_update(st, toks, 4) == s4);
    let s5 = token_update(s4, toks, 4);
    assert(tokens_update(st, toks, 5) == s5);
    assert(s5.sent_packets == p && s5.sent_bytes == b);
    let s6 = token_update(s5, toks, 5);
    assert(tokens_update(st, toks, 6) == s6);
    assert(s6.dropped == d);
    let s7 = token_update(s6, toks, 6);
    assert(tokens_update(st, toks, 7) == s7);
    let s8 = token_update(s7, toks, 7);
    assert(tokens_update(st, toks, 8) == s8);
    let s9 = token_update(s8, toks, 8);
    assert(tokens_update(st, toks, 9) == s9);
    let s10 = token_update(s9, toks, 9);
    assert(tokens_update(st, toks, 10) == s10);
    let s11 = token_update(s10, toks, 10);
    assert(tokens_update(st, toks, 11) == s11);
}

/// A statistics line mentions `Sent`, `bytes` and `pkt`.
pub open spec fn is_sent_line(line: Seq<char>) -> bool {
    seq_contains(line, "Sent"@) && seq_contains(line, "bytes"@) && seq_contains(line, "pkt"@)
}

/// The counters after one line: only a statistics line changes them,
/// token by token.
pub open spec fn line_update(st: InterfaceStats, line: Seq<char>) -> InterfaceStats {
    if is_sent_line(line) {
        tokens_update(st, split_ws(line), split_ws(line).len() as int)
    } else {
        st
    }
}

/// Left-to-right scan of the output: counters after the completed lines,
/// and the line being read (lines end at `\n`).
pub open spec fn stats_scan(s: Seq<char>) -> (InterfaceStats, Seq<char>)
    decreases s.len(),
{
    if s.len() == 0 {
        (zero_stats(), Seq::empty())
    } else {
        let (st, cur) = stats_scan(s.drop_last());
        if s.last() == '\n' {
            (line_update(st, cur), Seq::empty())
        } else {
            (st, cur.push(s.last()))
        }
    }
}

/// The counters that `tc -s qdisc show` output `s` reports: every line is
/// read in order, starting from zero, and a later statistics line overrides
/// an earlier one.
pub open spec fn interface_stats_spec(s: Seq<char>) -> InterfaceStats {
    let (st, cur) = stats_scan(s);
    line_update(st, cur)
}

fn trim_end_commas_exec(t: &Vec<char>) -> (r: Vec<char>)
    ensures
        r@ == trim_end_commas(t@),
{
    let mut n: usize = t.len();
    assert(t@.take(n as int) =~= t@);
    while n > 0 && (t[n - 1] == ',' || t[n - 1] == ')')
        invariant
            n <= t.len(),
            trim_end_commas(t@) == trim_end_commas(t@.take(n as int)),
        decreases n,
    {
        assert(t@.take(n as int).drop_last() =~= t@.take(n - 1));
        n = n - 1;
    }
    let mut r: Vec<char> = Vec::new();
    let mut i: usize = 0;
    while i < n
        invariant
            n <= t.len(),
            i <= n,
            r@ == t@.take(i as int),
        decreases n - i,
    {
        r.push(t[i]);
        assert(t@.take(i as int + 1) =~= t@.take(i as int).push(t@[i as int]));
        i = i + 1;
    }
    r
}

fn token_update_exec(
    st: InterfaceStats,
    toks: &Vec<Vec<char>>,
    i: usize,
    sent: &Vec<char>,
    pkt: &Vec<char>,
    dropped: &Vec<char>,
) -> (r: InterfaceStats)
    requires
        i < toks.len(),
        sent@ == "Sent"@,
        pkt@ == "pkt"@,
        dropped@ == "dropped"@,
    ensures
        r == token_update(st, char_views(toks@), i as int),
{
    let ghost tv = char_views(toks@);
    let mut r = st;
    if chars_eq(&toks[i], sent) && i + 1 < toks.len() {
        match parse_u64(&toks[i + 1]) {
            Some(v) => {
                r.sent_bytes = v;
            },
            None => {},
        }
    }
    if chars_eq(&toks[i], pkt) && i > 0 {
        match parse_u64(&toks[i - 1]) {
            Some(v) => {
                r.sent_packets = v;
            },
            None => {},
        }
    }
    if chars_contain(&toks[i], dropped) && i + 1 < toks.len() {
        let cleaned = trim_end_commas_exec(&toks[i + 1]);
        match parse_u64(&cleaned) {
            Some(v) => {
                r.dropped = v;
            },
            None => {},
        }
    }
    r
}

fn line_update_exec(
    st: InterfaceStats,
    line: &Vec<char>,
    sent: &Vec<char>,
    bytes: &Vec<char>,
    pkt: &Vec<char>,
    dropped: &Vec<char>,
) -> (r: InterfaceStats)
    requires
        sent@ == "Sent"@,
        bytes@ == "bytes"@,
        pkt@ == "pkt"@,
        dropped@ == "dropped"@,
    ensures
        r == line_update(st, line@),
{
    if chars_contain(line, sent) && chars_contain(line, bytes) && chars_contain(line, pkt) {
        let toks = split_whitespace(line);
        let ghost tv = char_views(toks@);
        let mut r = st;
        let mut j: usize = 0;
        while j < toks.len()
            invariant
                j <= toks.len(),
                tv == char_views(toks@),
                tv.len() == toks.len(),
                sent@ == "Sent"@,
                pkt@ == "pkt"@,
                dropped@ == "dropped"@,
                r == tokens_update(st, tv, j as int),
            decreases toks.len() - j,
        {
            r = token_update_exec(r, &toks, j, sent, pkt, dropped);
            j = j + 1;
        }
        r
    } else {
        st
    }
}

/// Reads the byte, packet and drop counters from the output of
/// `tc -s qdisc show dev <iface>`.
pub fn interface_stats_from_tc_output(output: &str) -> (st: InterfaceStats)
    ensures
        st == interface_stats_spec(output@),
{
    let cs = str_chars(output);
    let sent = str_chars("Sent");
    let bytes = str_chars("bytes");
    let pkt = str_chars("pkt");
    let dropped = str_chars("dropped");
    let mut st = InterfaceStats { sent_bytes: 0, sent_packets: 0, dropped: 0 };
    let mut line: Vec<char> = Vec::new();
    let mut i: usize = 0;
    while i < cs.len()
        invariant
            i <= cs.len(),
            sent@ == "Sent"@,
            bytes@ == "bytes"@,
            pkt@ == "pkt"@,
            dropped@ == "dropped"@,
            (st, line@) == stats_scan(cs@.take(i as int)),
        decreases cs.len() - i,
    {
        let c = cs[i];
        assert(cs@.take(i as int + 1).drop_last() =~= cs@.take(i as int));
        if c == '\n' {
            st = line_update_exec(st, &line, &sent, &bytes, &pkt, &dropped);
            line = Vec::new();
        } else {
            line.push(c);
        }
        i = i + 1;
    }
    assert(cs@.take(cs.len() as int) =~= cs@);
    line_update_exec(st, &line, &sent, &bytes, &pkt, &dropped)
}

} // verus!
