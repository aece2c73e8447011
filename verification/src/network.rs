//! The dial race and the choice among address candidates.

use crate::state_machine::TimingProfile;
use crate::text::str_eq;
use vstd::prelude::*;

verus! {

#[derive(Debug, Clone, Copy, PartialEq, Eq, Structural)]
pub enum CandidateKind {
    DirectIpv6,
    DirectLan,
    ServerReflexive,
    Relay,
}

impl CandidateKind {
    /// The rank of a kind of address: the more direct the path, the higher.
    pub open spec fn weight(self) -> u64 {
        match self {
            CandidateKind::DirectIpv6 => 40_000,
            CandidateKind::DirectLan => 30_000,
            CandidateKind::ServerReflexive => 20_000,
            CandidateKind::Relay => 10_000,
        }
    }
}

#[derive(Debug, Clone, PartialEq, Eq)]
pub struct Candidate {
    pub address: String,
    pub priority: u32,
    pub kind: CandidateKind,
}

impl Candidate {
    /// What a candidate is ranked by: the weight of its kind plus its own
    /// priority.
    pub open spec fn weight(self) -> int {
        self.kind.weight() + self.priority
    }
}

#[derive(Debug, Clone, Copy, PartialEq, Eq, Structural)]
pub enum DialPhase {
    Direct,
    HolePunch,
    Relay,
}

/// One stage of the dial race: when it starts, counted from the start of the
/// race, and how long it may run.
#[derive(Debug, Clone, Copy, PartialEq, Eq, Structural)]
pub struct DialPlan {
    pub phase: DialPhase,
    pub start_after_ms: u64,
    pub timeout_ms: u64,
}

#[derive(Debug, Clone, Copy, PartialEq, Eq, Structural)]
pub enum PlannerError {
    EmptyCandidates,
}

/// The kind of path a session runs over, as the wire names it.
#[derive(Debug, Clone, Copy, PartialEq, Eq, Structural)]
pub enum PathType {
    Direct,
    HolePunch,
    Relay,
}

/// The error codes that a failed session is reported with.
#[derive(Debug, Clone, Copy, PartialEq, Eq, Structural)]
pub enum SessionErrorCode {
    DiscoveryTimeout,
    DialTimeout,
    HolePunchFailed,
    RelayUnavailable,
    AuthFailed,
    PermissionDenied,
    Internal,
}

/// The three stages of a dial race under `timing`, in the order in which
/// they start.
pub open spec fn dial_race(timing: TimingProfile) -> Seq<DialPlan> {
    seq![
        DialPlan { phase: DialPhase::Direct, start_after_ms: 0, timeout_ms: timing.direct_dial_budget_ms },
        DialPlan { phase: DialPhase::HolePunch, start_after_ms: 200, timeout_ms: timing.punch_budget_ms },
        DialPlan { phase: DialPhase::Relay, start_after_ms: 1600, timeout_ms: timing.relay_dial_timeout_ms },
    ]
}

/// Lays out the dial race: direct at once, hole punching after 200 ms, the
/// relay after 1600 ms, each with its budget from the timing profile.
pub fn plan_dial_race(timing: &TimingProfile) -> (plan: [DialPlan; 3])
    ensures
        plan@ == dial_race(*timing),
{
    let plan: [DialPlan; 3] = [
        DialPlan {
            phase: DialPhase::Direct,
            start_after_ms: 0,
            timeout_ms: timing.direct_dial_budget_ms,
        },
        DialPlan {
            phase: DialPhase::HolePunch,
            start_after_ms: 200,
            timeout_ms: timing.punch_budget_ms,
        },
        DialPlan {
            phase: DialPhase::Relay,
            start_after_ms: 1600,
            timeout_ms: timing.relay_dial_timeout_ms,
        },
    ];
    assert(plan@ =~= dial_race(*timing));
    plan
}

/// Whether the candidate at `index` is the one to dial first: none weighs
/// more, and of those that weigh as much it stands last.
pub open spec fn is_primary(candidates: Seq<Candidate>, index: int) -> bool {
    &&& 0 <= index < candidates.len()
    &&& forall|j: int|
        0 <= j < candidates.len() ==> (#[trigger] candidates[j]).weight()
            <= candidates[index].weight()
    &&& forall|j: int|
        index < j < candidates.len() ==> (#[trigger] candidates[j]).weight()
            < candidates[index].weight()
}

fn candidate_weight(candidate: &Candidate) -> (weight: u64)
    ensures
        weight == candidate.weight(),
{
    let kind_weight: u64 = match candidate.kind {
        CandidateKind::DirectIpv6 => 40_000,
        CandidateKind::DirectLan => 30_000,
        CandidateKind::ServerReflexive => 20_000,
        CandidateKind::Relay => 10_000,
    };
    kind_weight + candidate.priority as u64
}

/// Picks the candidate to dial first.
///
/// An empty list is refused. Otherwise the heaviest candidate is returned,
/// the last of them where several weigh the same.
pub fn select_primary_candidate(candidates: &[Candidate]) -> (result: Result<
    &Candidate,
    PlannerError,
>)
    ensures
        candidates@.len() == 0 ==> result == Err::<&Candidate, PlannerError>(
            PlannerError::EmptyCandidates,
        ),
        candidates@.len() > 0 ==> result is Ok,
        result matches Ok(best) ==> exists|index: int|
            is_primary(candidates@, index) && *best == candidates@[index],
{
    if candidates.len() == 0 {
        return Err(PlannerError::EmptyCandidates);
    }
    let mut best: usize = 0;
    let mut best_weight: u64 = candidate_weight(&candidates[0]);
    let mut i: usize = 1;
    while i < candidates.len()
        invariant
            1 <= i <= candidates@.len(),
            best < i,
            best_weight == candidates@[best as int].weight(),
            forall|j: int|
                0 <= j < i ==> (#[trigger] candidates@[j]).weight() <= best_weight,
            forall|j: int|
                best < j < i ==> (#[trigger] candidates@[j]).weight() < best_weight,
        decreases candidates@.len() - i,
    {
        let weight: u64 = candidate_weight(&candidates[i]);
        if weight >= best_weight {
            best = i;
            best_weight = weight;
        }
        i += 1;
    }
    assert(is_primary(candidates@, best as int));
    Ok(&candidates[best])
}

impl DialPhase {
    /// The path type that a phase of the dial race leads to.
    pub open spec fn path_type(self) -> PathType {
        match self {
            DialPhase::Direct => PathType::Direct,
            DialPhase::HolePunch => PathType::HolePunch,
            DialPhase::Relay => PathType::Relay,
        }
    }
}

/// The path type that a phase of the dial race is reported as.
pub fn path_type_to_proto(path: DialPhase) -> (path_type: PathType)
    ensures
        path_type == path.path_type(),
{
    match path {
        DialPhase::Direct => PathType::Direct,
        DialPhase::HolePunch => PathType::HolePunch,
        DialPhase::Relay => PathType::Relay,
    }
}

/// The error code that a failure tag stands for; a tag that is not known
/// stands for `Internal`.
pub open spec fn error_code_of(code: Seq<char>) -> SessionErrorCode {
    if code == "discovery_timeout"@ {
        SessionErrorCode::DiscoveryTimeout
    } else if code == "dial_timeout"@ {
        SessionErrorCode::DialTimeout
    } else if code == "punch_failed"@ {
        SessionErrorCode::HolePunchFailed
    } else if code == "relay_unavailable"@ {
        SessionErrorCode::RelayUnavailable
    } else if code == "auth_failed"@ {
        SessionErrorCode::AuthFailed
    } else if code == "permission_denied"@ {
        SessionErrorCode::PermissionDenied
    } else {
        SessionErrorCode::Internal
    }
}

/// The error code that the name of a failure stands for.
pub fn classify_failure_to_error_code(code: &str) -> (error_code: SessionErrorCode)
    ensures
        error_code == error_code_of(code@),
{
    if str_eq(code, "discovery_timeout") {
        SessionErrorCode::DiscoveryTimeout
    } else if str_eq(code, "dial_timeout") {
        SessionErrorCode::DialTimeout
    } else if str_eq(code, "punch_failed") {
        SessionErrorCode::HolePunchFailed
    } else if str_eq(code, "relay_unavailable") {
        SessionErrorCode::RelayUnavailable
    } else if str_eq(code, "auth_failed") {
        SessionErrorCode::AuthFailed
    } else if str_eq(code, "permission_denied") {
        SessionErrorCode::PermissionDenied
    } else {
        SessionErrorCode::Internal
    }
}

} // verus!
