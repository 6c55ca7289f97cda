//! Decisions of the end-to-end bonding test harness: the checks made before
//! pipelines start inside the link namespaces, the search for a free pair of
//! UDP ports, and the verdict of a validation report.

use vstd::prelude::*;
use vstd::string::*;

use crate::netns_testbench::addr::{p2p_base, AddrError, Configurer};
use crate::text::{decimal, parse_u64, parse_u64_spec, str_chars};

verus! {

/// The outcome of validating bonding behaviour.
#[derive(Clone, Copy, Debug, PartialEq, Eq, Structural)]
pub struct ValidationReport {
    pub adaptive_bitrate_working: bool,
    pub bonding_effective: bool,
    pub load_balancing_working: bool,
}

impl ValidationReport {
    /// A report in which nothing has passed yet.
    pub fn new() -> (r: Self)
        ensures
            !r.adaptive_bitrate_working,
            !r.bonding_effective,
            !r.load_balancing_working,
    {
        ValidationReport {
            adaptive_bitrate_working: false,
            bonding_effective: false,
            load_balancing_working: false,
        }
    }

    /// Whether every check passed.
    pub fn all_passed(&self) -> (r: bool)
        ensures
            r == (self.adaptive_bitrate_working && self.bonding_effective
                && self.load_balancing_working),
    {
        self.adaptive_bitrate_working && self.bonding_effective && self.load_balancing_working
    }
}

// ---------------------------------------------------------------------------
// Pipelines inside the link namespaces
// ---------------------------------------------------------------------------

/// Why the pipelines inside the link namespaces cannot start.
#[derive(Debug)]
pub enum PipelineSetupError {
    /// RIST needs an even RTP port (RTCP takes the next one).
    OddRtpPort(u16),
    /// No link has been started.
    NoActiveLinks,
    /// The first link's id is not `link_<n>` with `n` a `u8`.
    InvalidLinkId(String),
    /// The link number has no point-to-point subnet; the message of the
    /// address configuration error.
    Subnet(String),
}

/// `str::parse::<u8>`: what `parse::<u64>` accepts, when it fits in a byte.
pub open spec fn parse_u8_spec(t: Seq<char>) -> Option<u8> {
    match parse_u64_spec(t) {
        Some(n) => if n <= 255 {
            Some(n as u8)
        } else {
            None
        },
        None => None,
    }
}

/// The number of a link id `link_<n>`, when `<n>` reads as a `u8`.
pub open spec fn link_number(id: Seq<char>) -> Option<u8> {
    if id.len() >= 5 && id.take(5) == "link_"@ {
        parse_u8_spec(id.skip(5))
    } else {
        None
    }
}

/// The checks made before the RIST pipelines start inside the namespaces of
/// the first active link (`link_ids` are the ids of the active links, in
/// order): the RTP port must be even, a link must be active, and the first
/// link's id must be `link_<n>`; the receiver then listens on the address
/// of the second end of link `n`, whose octets are returned.
pub fn netns_receiver_address(rx_port: u16, link_ids: &Vec<String>) -> (r: Result<
    [u8; 4],
    PipelineSetupError,
>)
    ensures
        rx_port % 2 != 0 ==> (r matches Err(PipelineSetupError::OddRtpPort(p)) && p == rx_port),
        rx_port % 2 == 0 && link_ids@.len() == 0 ==> (r matches Err(
            PipelineSetupError::NoActiveLinks,
        )),
        rx_port % 2 == 0 && link_ids@.len() > 0 && link_number(link_ids@[0]@) is None ==> (r matches Err(
            PipelineSetupError::InvalidLinkId(id),
        ) && id@ == link_ids@[0]@),
        rx_port % 2 == 0 && link_ids@.len() > 0 ==> (link_number(link_ids@[0]@) matches Some(n) ==> (
        if n == 0 || p2p_base(n) > 250 {
            r matches Err(PipelineSetupError::Subnet(m)) && (n == 0 ==> m@
                == "Link ID cannot be 0"@) && (n > 0 ==> m@ == "Link ID "@ + decimal(n as nat)
                + " too high"@)
        } else {
            r matches Ok(a) && a@ == seq![10u8, 0u8, 0u8, (p2p_base(n) + 2) as u8]
        })),
{
    if rx_port % 2 != 0 {
        return Err(PipelineSetupError::OddRtpPort(rx_port));
    }
    if link_ids.len() == 0 {
        return Err(PipelineSetupError::NoActiveLinks);
    }
    let id = &link_ids[0];
    let cs = str_chars(id.as_str());
    let prefix = str_chars("link_");
    proof {
        reveal_strlit("link_");
    }
    assert(prefix@.len() == 5);
    let mut has_prefix = cs.len() >= 5;
    let mut i: usize = 0;
    while has_prefix && i < 5
        invariant
            i <= 5,
            prefix@ == "link_"@,
            prefix@.len() == 5,
            has_prefix ==> cs@.len() >= 5 && cs@.take(i as int) == prefix@.take(i as int),
            !has_prefix ==> !(cs@.len() >= 5 && cs@.take(5) == "link_"@),
        decreases 5 - i + if has_prefix {
            1int
        } else {
            0int
        },
    {
        if cs[i] != prefix[i] {
            proof {
                if cs@.len() >= 5 && cs@.take(5) == "link_"@ {
                    assert(cs@.take(5)[i as int] == cs@[i as int]);
                }
            }
            has_prefix = false;
        } else {
            assert(cs@.take(i as int + 1) =~= cs@.take(i as int).push(cs@[i as int]));
            assert(prefix@.take(i as int + 1) =~= prefix@.take(i as int).push(prefix@[i as int]));
            i = i + 1;
        }
    }
    if has_prefix {
        assert(prefix@.take(5) =~= prefix@);
    }
    assert(cs@ == id@);
    if !has_prefix {
        return Err(PipelineSetupError::InvalidLinkId(id.clone()));
    }
    let mut rest: Vec<char> = Vec::new();
    let mut j: usize = 5;
    while j < cs.len()
        invariant
            5 <= j <= cs@.len(),
            rest@ == cs@.subrange(5, j as int),
        decreases cs.len() - j,
    {
        rest.push(cs[j]);
        assert(cs@.subrange(5, j as int + 1) =~= cs@.subrange(5, j as int).push(cs@[j as int]));
        j = j + 1;
    }
    assert(rest@ =~= cs@.skip(5));
    let n = match parse_u64(&rest) {
        Some(v) => if v <= 255 {
            v as u8
        } else {
            return Err(PipelineSetupError::InvalidLinkId(id.clone()));
        },
        None => {
            return Err(PipelineSetupError::InvalidLinkId(id.clone()));
        },
    };
    match Configurer::generate_p2p_subnet(n) {
        Ok((_left, right)) => Ok(right.octets),
        Err(AddrError::InvalidConfig(m)) => Err(PipelineSetupError::Subnet(m)),
        Err(_) => {
            // no other error comes from subnet generation
            proof {
                assert(false);
            }
            Err(PipelineSetupError::NoActiveLinks)
        },
    }
}

/// The message of a setup failure.
pub fn pipeline_setup_message(e: &PipelineSetupError) -> (m: String)
    ensures
        (e matches PipelineSetupError::OddRtpPort(p) ==> m@ == "RIST requires an even RTP port; got "@
            + decimal(p as nat)),
        (e matches PipelineSetupError::NoActiveLinks ==> m@
            == "No active links. Call setup_bonding() first."@),
        (e matches PipelineSetupError::InvalidLinkId(id) ==> m@ == "Invalid link_id format: "@
            + id@),
        (e matches PipelineSetupError::Subnet(reason) ==> m@
            == "Failed to compute link subnet: Invalid network configuration: "@ + reason@),
{
    match e {
        PipelineSetupError::OddRtpPort(p) => {
            let mut m = String::from_str("RIST requires an even RTP port; got ");
            let d = crate::text::u64_to_decimal(*p as u64);
            m.append(d.as_str());
            m
        },
        PipelineSetupError::NoActiveLinks => String::from_str(
            "No active links. Call setup_bonding() first.",
        ),
        PipelineSetupError::InvalidLinkId(id) => {
            let mut m = String::from_str("Invalid link_id format: ");
            m.append(id.as_str());
            m
        },
        PipelineSetupError::Subnet(reason) => {
            let mut m = String::from_str(
                "Failed to compute link subnet: Invalid network configuration: ",
            );
            m.append(reason.as_str());
            m
        },
    }
}

// ---------------------------------------------------------------------------
// Bonding validation
// ---------------------------------------------------------------------------

/// The threshold checks of one test phase, each already decided on the
/// phase's measured (floating point) metrics.
#[derive(Debug)]
pub struct PhaseChecks {
    /// The phase name (`degraded`, `recovery`, `handover`, ...).
    pub phase: String,
    /// The average bitrate is below 1000 kbps.
    pub bitrate_below_1000: bool,
    /// The average bitrate is above 1500 kbps.
    pub bitrate_above_1500: bool,
    /// The packet loss is below 5 %.
    pub loss_below_5: bool,
    /// The primary link carries less than ten times the backup link's load
    /// (the backup's utilization taken as at least 0.01).
    pub utilization_balanced: bool,
}

/// A phase shows the bitrate adapting: lowered while degraded, recovered
/// afterwards; any other phase counts as showing it.
pub open spec fn phase_adapts(p: PhaseChecks) -> bool {
    if p.phase@ == "degraded"@ {
        p.bitrate_below_1000
    } else if p.phase@ == "recovery"@ {
        p.bitrate_above_1500
    } else {
        true
    }
}

/// Validates RIST bonding behaviour over the phases of a test: adaptive
/// bitrate when some phase shows it, bonding effective when every handover
/// phase keeps loss low, load balancing when every phase is balanced.
pub fn validate_bonding_behavior(phases: &Vec<PhaseChecks>) -> (r: ValidationReport)
    ensures
        r.adaptive_bitrate_working == exists|i: int|
            0 <= i < phases@.len() && #[trigger] phase_adapts(phases@[i]),
        r.bonding_effective == forall|i: int|
            0 <= i < phases@.len() && (#[trigger] phases@[i]).phase@ == "handover"@
                ==> phases@[i].loss_below_5,
        r.load_balancing_working == forall|i: int|
            0 <= i < phases@.len() ==> (#[trigger] phases@[i]).utilization_balanced,
{
    let mut report = ValidationReport::new();
    let mut adapted = false;
    let mut i: usize = 0;
    while i < phases.len()
        invariant
            i <= phases@.len(),
            adapted == exists|k: int| 0 <= k < i && #[trigger] phase_adapts(phases@[k]),
        decreases phases.len() - i,
    {
        let p = &phases[i];
        let ok = if crate::text::str_eq(p.phase.as_str(), "degraded") {
            p.bitrate_below_1000
        } else if crate::text::str_eq(p.phase.as_str(), "recovery") {
            p.bitrate_above_1500
        } else {
            true
        };
        assert(ok == phase_adapts(phases@[i as int]));
        if ok {
            adapted = true;
        }
        i = i + 1;
    }
    report.adaptive_bitrate_working = adapted;
    let mut effective = true;
    let mut j: usize = 0;
    while j < phases.len()
        invariant
            j <= phases@.len(),
            effective == forall|k: int|
                0 <= k < j && (#[trigger] phases@[k]).phase@ == "handover"@
                    ==> phases@[k].loss_below_5,
        decreases phases.len() - j,
    {
        let p = &phases[j];
        if crate::text::str_eq(p.phase.as_str(), "handover") && !p.loss_below_5 {
            effective = false;
        }
        j = j + 1;
    }
    report.bonding_effective = effective;
    let mut balanced = true;
    let mut k: usize = 0;
    while k < phases.len()
        invariant
            k <= phases@.len(),
            balanced == forall|m: int| 0 <= m < k ==> (#[trigger] phases@[m]).utilization_balanced,
        decreases phases.len() - k,
    {
        if !phases[k].utilization_balanced {
            balanced = false;
        }
        k = k + 1;
    }
    report.load_balancing_working = balanced;
    report
}

/// Addition saturating at the `u16` maximum.
pub open spec fn sat_add(a: u16, b: u16) -> u16 {
    if a + b > u16::MAX {
        u16::MAX
    } else {
        (a + b) as u16
    }
}

/// The port used when no candidate pair was free.
pub open spec fn fallback_port() -> u16 {
    5600
}

/// The first candidate: `preferred` when even, otherwise the next port.
pub open spec fn first_candidate(preferred: u16) -> u16 {
    if preferred % 2 == 0 {
        preferred
    } else {
        (preferred + 1) as u16
    }
}

/// Candidate number `k`: the first candidate advanced by two, `k` times,
/// saturating at the `u16` maximum.
pub open spec fn candidate(preferred: u16, k: nat) -> u16
    decreases k,
{
    if k == 0 {
        first_candidate(preferred)
    } else {
        sat_add(candidate(preferred, (k - 1) as nat), 2)
    }
}

/// What to do next in the search for a free pair of ports.
#[derive(Clone, Copy, Debug, PartialEq, Eq, Structural)]
pub enum PortProbe {
    /// Try binding `port` and `port + 1` (saturating).
    Try { port: u16, second: u16 },
    /// The search is over with this port.
    Done { port: u16 },
}

/// Search for an even port whose successor is free too, trying at most 50
/// candidates from a preferred port.
#[derive(Clone, Copy, Debug, PartialEq, Eq, Structural)]
pub struct FreePortSearch {
    pub preferred: u16,
    pub attempts: u32,
    pub port: u16,
}

impl FreePortSearch {
    /// The candidate being tried is candidate number `attempts`.
    pub open spec fn wf(&self) -> bool {
        self.attempts <= 50 && self.port == candidate(self.preferred, self.attempts as nat)
    }

    /// Starts a search from `preferred`.
    pub fn start(preferred: u16) -> (r: (Self, PortProbe))
        requires
            preferred < u16::MAX,
        ensures
            r.0.wf(),
            r.0.preferred == preferred,
            r.0.attempts == 0,
            r.1 == (PortProbe::Try {
                port: first_candidate(preferred),
                second: sat_add(first_candidate(preferred), 1),
            }),
    {
        let port = if preferred % 2 == 0 {
            preferred
        } else {
            preferred + 1
        };
        let second = if port == u16::MAX {
            u16::MAX
        } else {
            port + 1
        };
        (FreePortSearch { preferred, attempts: 0, port }, PortProbe::Try { port, second })
    }

    /// Takes the result of trying the current pair: a free pair ends the
    /// search with its first port; otherwise the next candidate is tried,
    /// and after 50 candidates the fallback port is used.
    pub fn next(&mut self, both_free: bool) -> (p: PortProbe)
        requires
            old(self).wf(),
            old(self).attempts < 50,
        ensures
            final(self).preferred == old(self).preferred,
            both_free ==> p == (PortProbe::Done { port: old(self).port }),
            !both_free && old(self).attempts + 1 < 50 ==> final(self).wf() && final(self).attempts
                == old(self).attempts + 1 && p == (PortProbe::Try {
                port: final(self).port,
                second: sat_add(final(self).port, 1),
            }),
            !both_free && old(self).attempts + 1 == 50 ==> p == (PortProbe::Done {
                port: fallback_port(),
            }),
    {
        if both_free {
            return PortProbe::Done { port: self.port };
        }
        let next = if self.port > u16::MAX - 2 {
            u16::MAX
        } else {
            self.port + 2
        };
        self.attempts = self.attempts + 1;
        self.port = next;
        if self.attempts == 50 {
            PortProbe::Done { port: 5600 }
        } else {
            let second = if next == u16::MAX {
                u16::MAX
            } else {
                next + 1
            };
            PortProbe::Try { port: next, second }
        }
    }
}

} // verus!
