use aetherlink::state_machine::{
    ConnectionState, ConnectionStateMachine, FailureReason, StateMachineError, TimerKind,
    TimingProfile, Trigger,
};

#[test]
fn happy_path_direct_to_active() {
    let mut sm = ConnectionStateMachine::default();

    sm.apply(Trigger::StartConnect).unwrap();
    sm.apply(Trigger::CandidatesFound).unwrap();
    sm.apply(Trigger::DirectConnected).unwrap();
    sm.apply(Trigger::HandshakeOk).unwrap();

    assert_eq!(sm.state(), &ConnectionState::Active);
    assert_eq!(sm.reconnect_attempts(), 0);
    assert_eq!(sm.reconnect_elapsed_ms(), 0);
}

#[test]
fn reconnect_budget_resets_after_successful_handshake() {
    let mut sm = ConnectionStateMachine::new(TimingProfile {
        reconnect_budget_ms: 500,
        reconnect_backoff_start_ms: 200,
        reconnect_backoff_max_ms: 300,
        ..TimingProfile::default()
    });

    sm.apply(Trigger::StartConnect).unwrap();
    sm.apply(Trigger::CandidatesFound).unwrap();
    sm.apply(Trigger::DirectConnected).unwrap();
    sm.apply(Trigger::HandshakeOk).unwrap();
    assert_eq!(sm.state(), &ConnectionState::Active);

    sm.apply(Trigger::PathLost).unwrap();
    assert_eq!(sm.state(), &ConnectionState::Reconnecting);
    assert!(sm.has_reconnect_budget());
    assert_eq!(sm.reconnect_elapsed_ms(), 200);

    sm.apply(Trigger::RetryBudgetAvailable).unwrap();
    assert_eq!(sm.state(), &ConnectionState::DialingDirect);

    // Successful handshake resets reconnect budget counters.
    sm.apply(Trigger::DirectConnected).unwrap();
    sm.apply(Trigger::HandshakeOk).unwrap();
    assert_eq!(sm.reconnect_attempts(), 0);
    assert_eq!(sm.reconnect_elapsed_ms(), 0);
}

#[test]
fn invalid_transition_is_rejected() {
    let mut sm = ConnectionStateMachine::default();
    let err = sm.apply(Trigger::HandshakeOk).unwrap_err();
    assert!(matches!(
        err,
        StateMachineError::InvalidTransition {
            from: ConnectionState::Idle,
            trigger: Trigger::HandshakeOk
        }
    ));
}

#[test]
fn invalid_transition_leaves_machine_unchanged() {
    let mut sm = ConnectionStateMachine::default();
    sm.apply(Trigger::StartConnect).unwrap();
    let err = sm.apply(Trigger::PathLost).unwrap_err();
    assert_eq!(
        err,
        StateMachineError::InvalidTransition {
            from: ConnectionState::Discovering,
            trigger: Trigger::PathLost
        }
    );
    assert_eq!(sm.state(), &ConnectionState::Discovering);
    assert_eq!(sm.reconnect_attempts(), 0);
    assert_eq!(sm.reconnect_elapsed_ms(), 0);
}

fn active_machine(timing: TimingProfile) -> ConnectionStateMachine {
    let mut sm = ConnectionStateMachine::new(timing);
    sm.apply(Trigger::StartConnect).unwrap();
    sm.apply(Trigger::CandidatesFound).unwrap();
    sm.apply(Trigger::DirectConnected).unwrap();
    sm.apply(Trigger::HandshakeOk).unwrap();
    sm
}

#[test]
fn every_transition_arms_the_timer_of_its_target() {
    let timing = TimingProfile::default();
    let mut sm = ConnectionStateMachine::new(timing);
    let t = sm.apply(Trigger::StartConnect).unwrap();
    assert_eq!(t.from, ConnectionState::Idle);
    assert_eq!(t.to, ConnectionState::Discovering);
    assert_eq!(t.arm_timer, Some((TimerKind::Discovery, 2_500)));
    let t = sm.apply(Trigger::CandidatesFound).unwrap();
    assert_eq!(t.arm_timer, Some((TimerKind::DirectDial, 1_500)));
    let t = sm.apply(Trigger::DirectNoSuccess).unwrap();
    assert_eq!(t.to, ConnectionState::HolePunching);
    assert_eq!(t.arm_timer, Some((TimerKind::HolePunch, 2_200)));
    let t = sm.apply(Trigger::PunchTimeout).unwrap();
    assert_eq!(t.to, ConnectionState::RelayDialing);
    assert_eq!(t.arm_timer, Some((TimerKind::RelayDial, 2_500)));
    let t = sm.apply(Trigger::RelayConnected).unwrap();
    assert_eq!(t.to, ConnectionState::SecureHandshake);
    assert_eq!(t.arm_timer, Some((TimerKind::Handshake, 1_200)));
    let t = sm.apply(Trigger::HandshakeOk).unwrap();
    assert_eq!(t.to, ConnectionState::Active);
    assert_eq!(t.arm_timer, None);
    let t = sm.apply(Trigger::UserHangup).unwrap();
    assert_eq!(t.to, ConnectionState::Closed);
    assert_eq!(t.arm_timer, None);
    assert!(sm.apply(Trigger::UserRetry).is_err());
}

#[test]
fn failures_name_their_reason_and_retry_leads_to_idle() {
    let mut sm = ConnectionStateMachine::default();
    sm.apply(Trigger::StartConnect).unwrap();
    let t = sm.apply(Trigger::DiscoveryTimeout).unwrap();
    assert_eq!(t.to, ConnectionState::Failed(FailureReason::DiscoveryTimeout));
    assert!(sm.apply(Trigger::UserHangup).is_err());
    let t = sm.apply(Trigger::UserRetry).unwrap();
    assert_eq!(t.to, ConnectionState::Idle);
    assert_eq!(t.arm_timer, None);

    let mut sm = ConnectionStateMachine::default();
    sm.apply(Trigger::StartConnect).unwrap();
    sm.apply(Trigger::CandidatesFound).unwrap();
    sm.apply(Trigger::DirectConnected).unwrap();
    let t = sm.apply(Trigger::VersionMismatch).unwrap();
    assert_eq!(t.to, ConnectionState::Failed(FailureReason::VersionMismatch));

    let mut sm = ConnectionStateMachine::default();
    sm.apply(Trigger::StartConnect).unwrap();
    sm.apply(Trigger::CandidatesFound).unwrap();
    sm.apply(Trigger::DirectConnected).unwrap();
    let t = sm.apply(Trigger::AuthFailed).unwrap();
    assert_eq!(t.to, ConnectionState::Failed(FailureReason::AuthFailed));

    let mut sm = ConnectionStateMachine::default();
    sm.apply(Trigger::StartConnect).unwrap();
    sm.apply(Trigger::CandidatesFound).unwrap();
    sm.apply(Trigger::DirectNoSuccess).unwrap();
    sm.apply(Trigger::PunchTimeout).unwrap();
    let t = sm.apply(Trigger::RelayTimeout).unwrap();
    assert_eq!(t.to, ConnectionState::Failed(FailureReason::RelayTimeout));
}

#[test]
fn backoff_doubles_and_is_capped() {
    let mut sm = active_machine(TimingProfile::default());
    assert_eq!(sm.next_backoff_ms(), 200);
    let t = sm.apply(Trigger::PathLost).unwrap();
    assert_eq!(t.arm_timer, Some((TimerKind::ReconnectBackoff, 200)));
    assert_eq!(sm.reconnect_attempts(), 1);
    assert_eq!(sm.reconnect_elapsed_ms(), 200);
    assert_eq!(sm.next_backoff_ms(), 400);
    sm.register_backoff_wait(400);
    assert_eq!(sm.next_backoff_ms(), 800);
    sm.register_backoff_wait(800);
    assert_eq!(sm.next_backoff_ms(), 1_600);
    sm.register_backoff_wait(1_600);
    assert_eq!(sm.next_backoff_ms(), 2_000);
    assert_eq!(sm.reconnect_elapsed_ms(), 3_000);
    assert_eq!(sm.reconnect_attempts(), 4);
}

#[test]
fn backoff_saturates_for_huge_values() {
    let mut sm = active_machine(TimingProfile {
        reconnect_backoff_start_ms: u64::MAX,
        reconnect_backoff_max_ms: u64::MAX,
        ..TimingProfile::default()
    });
    sm.register_backoff_wait(u64::MAX);
    sm.register_backoff_wait(5);
    assert_eq!(sm.reconnect_elapsed_ms(), u64::MAX);
    assert_eq!(sm.next_backoff_ms(), u64::MAX);
    let mut sm = active_machine(TimingProfile {
        reconnect_backoff_start_ms: 3,
        reconnect_backoff_max_ms: u64::MAX,
        ..TimingProfile::default()
    });
    for _ in 0..40 {
        sm.register_backoff_wait(0);
    }
    assert_eq!(sm.next_backoff_ms(), 3 * (1u64 << 31));
}

#[test]
fn retry_budget_exhaustion_ends_in_failure() {
    let mut sm = active_machine(TimingProfile::default());
    sm.apply(Trigger::PathLost).unwrap();
    assert_eq!(sm.state(), &ConnectionState::Reconnecting);
    let mut rounds = 1;
    // every further attempt to come back fails and is charged its backoff
    while sm.has_reconnect_budget() {
        let wait = sm.next_backoff_ms();
        sm.register_backoff_wait(wait);
        rounds += 1;
    }
    // 200 + 400 + 800 + 1600 + 2000 * 6 = 15_000
    assert_eq!(sm.reconnect_elapsed_ms(), 15_000);
    assert_eq!(rounds, 10);
    let t = sm.apply(Trigger::RetryBudgetAvailable).unwrap();
    assert_eq!(t.to, ConnectionState::Failed(FailureReason::RetryBudgetExhausted));
    assert_eq!(t.arm_timer, None);
    assert_eq!(
        sm.state(),
        &ConnectionState::Failed(FailureReason::RetryBudgetExhausted)
    );
}

#[test]
fn exhausted_trigger_fails_even_with_budget_left() {
    let mut sm = active_machine(TimingProfile::default());
    sm.apply(Trigger::PathLost).unwrap();
    assert!(sm.has_reconnect_budget());
    let t = sm.apply(Trigger::RetryBudgetExhausted).unwrap();
    assert_eq!(t.to, ConnectionState::Failed(FailureReason::RetryBudgetExhausted));
}
