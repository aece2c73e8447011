use aetherlink::network::{
    classify_failure_to_error_code, path_type_to_proto, plan_dial_race, select_primary_candidate,
    Candidate, CandidateKind, DialPhase, DialPlan, PathType, PlannerError, SessionErrorCode,
};
use aetherlink::state_machine::TimingProfile;

#[test]
fn prefers_direct_ipv6_over_relay() {
    let candidates = [
        Candidate {
            address: "relay://x".to_string(),
            priority: 500,
            kind: CandidateKind::Relay,
        },
        Candidate {
            address: "/ip6/::1/udp/9000/quic-v1".to_string(),
            priority: 1,
            kind: CandidateKind::DirectIpv6,
        },
    ];
    let best = select_primary_candidate(&candidates).unwrap();
    assert!(best.address.contains("/ip6/"));
}

#[test]
fn dial_plan_has_expected_stages() {
    let plan = plan_dial_race(&TimingProfile::default());
    assert_eq!(plan[0].phase, DialPhase::Direct);
    assert_eq!(plan[1].phase, DialPhase::HolePunch);
    assert_eq!(plan[2].phase, DialPhase::Relay);
}

#[test]
fn dial_plan_exact() {
    let plan = plan_dial_race(&TimingProfile::default());
    assert_eq!(
        plan,
        [
            DialPlan { phase: DialPhase::Direct, start_after_ms: 0, timeout_ms: 1_500 },
            DialPlan { phase: DialPhase::HolePunch, start_after_ms: 200, timeout_ms: 2_200 },
            DialPlan { phase: DialPhase::Relay, start_after_ms: 1_600, timeout_ms: 2_500 },
        ]
    );
}

fn candidate(address: &str, priority: u32, kind: CandidateKind) -> Candidate {
    Candidate { address: address.to_string(), priority, kind }
}

#[test]
fn empty_candidate_list_is_refused() {
    assert_eq!(select_primary_candidate(&[]), Err(PlannerError::EmptyCandidates));
}

#[test]
fn last_of_equally_heavy_candidates_wins() {
    let candidates = [
        candidate("a", 10_000, CandidateKind::ServerReflexive),
        candidate("b", 0, CandidateKind::DirectLan),
        candidate("c", 20_000, CandidateKind::Relay),
        candidate("d", 5, CandidateKind::Relay),
    ];
    assert_eq!(select_primary_candidate(&candidates).unwrap().address, "c");
}

#[test]
fn priority_can_outweigh_kind() {
    let candidates = [
        candidate("lan", 1, CandidateKind::DirectLan),
        candidate("relay", u32::MAX, CandidateKind::Relay),
        candidate("v6", 2, CandidateKind::DirectIpv6),
    ];
    assert_eq!(select_primary_candidate(&candidates).unwrap().address, "relay");
}

#[test]
fn phases_map_to_path_types() {
    assert_eq!(path_type_to_proto(DialPhase::Direct), PathType::Direct);
    assert_eq!(path_type_to_proto(DialPhase::HolePunch), PathType::HolePunch);
    assert_eq!(path_type_to_proto(DialPhase::Relay), PathType::Relay);
}

#[test]
fn failure_tags_map_to_error_codes() {
    assert_eq!(classify_failure_to_error_code("discovery_timeout"), SessionErrorCode::DiscoveryTimeout);
    assert_eq!(classify_failure_to_error_code("dial_timeout"), SessionErrorCode::DialTimeout);
    assert_eq!(classify_failure_to_error_code("punch_failed"), SessionErrorCode::HolePunchFailed);
    assert_eq!(classify_failure_to_error_code("relay_unavailable"), SessionErrorCode::RelayUnavailable);
    assert_eq!(classify_failure_to_error_code("auth_failed"), SessionErrorCode::AuthFailed);
    assert_eq!(classify_failure_to_error_code("permission_denied"), SessionErrorCode::PermissionDenied);
    assert_eq!(classify_failure_to_error_code("Auth_failed"), SessionErrorCode::Internal);
    assert_eq!(classify_failure_to_error_code(""), SessionErrorCode::Internal);
}
