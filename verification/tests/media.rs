use aetherlink::media::{
    adaptive_bitrate_step, BitrateLimits, MediaError, NetworkFeedback, VideoProfile,
};

#[test]
fn decreases_bitrate_on_bad_network() {
    let next = adaptive_bitrate_step(
        3_000,
        NetworkFeedback {
            rtt_ms: 260,
            packet_loss_x10000: 1200,
        },
        BitrateLimits::default(),
    )
    .unwrap();
    assert!(next < 3_000);
}

#[test]
fn increases_bitrate_on_good_network() {
    let next = adaptive_bitrate_step(
        1_200,
        NetworkFeedback {
            rtt_ms: 30,
            packet_loss_x10000: 20,
        },
        BitrateLimits::default(),
    )
    .unwrap();
    assert!(next > 1_200);
}

#[test]
fn bitrate_step_exact_values() {
    let limits = BitrateLimits::default();
    let bad = NetworkFeedback { rtt_ms: 260, packet_loss_x10000: 1200 };
    let good = NetworkFeedback { rtt_ms: 30, packet_loss_x10000: 20 };
    let calm = NetworkFeedback { rtt_ms: 100, packet_loss_x10000: 300 };
    assert_eq!(adaptive_bitrate_step(3_000, bad, limits), Ok(2_550));
    assert_eq!(adaptive_bitrate_step(1_200, good, limits), Ok(1_296));
    assert_eq!(adaptive_bitrate_step(1_200, calm, limits), Ok(1_200));
    assert_eq!(adaptive_bitrate_step(100, calm, limits), Ok(600));
    assert_eq!(adaptive_bitrate_step(100, bad, limits), Ok(600));
    assert_eq!(adaptive_bitrate_step(9_000, good, limits), Ok(8_000));
    assert_eq!(adaptive_bitrate_step(9_000, bad, limits), Ok(6_800));
}

#[test]
fn bitrate_step_thresholds() {
    let limits = BitrateLimits::default();
    let at = |rtt_ms, packet_loss_x10000| {
        adaptive_bitrate_step(1_000, NetworkFeedback { rtt_ms, packet_loss_x10000 }, limits)
    };
    assert_eq!(at(200, 800), Ok(1_000));
    assert_eq!(at(201, 0), Ok(850));
    assert_eq!(at(0, 801), Ok(850));
    assert_eq!(at(79, 149), Ok(1_080));
    assert_eq!(at(80, 149), Ok(1_000));
    assert_eq!(at(79, 150), Ok(1_000));
}

#[test]
fn bitrate_step_saturates_before_dividing() {
    let limits = BitrateLimits { floor_kbps: 1, ceil_kbps: u32::MAX };
    let good = NetworkFeedback { rtt_ms: 0, packet_loss_x10000: 0 };
    let bad = NetworkFeedback { rtt_ms: 1_000, packet_loss_x10000: 0 };
    assert_eq!(adaptive_bitrate_step(u32::MAX, good, limits), Ok(u32::MAX / 100));
    assert_eq!(adaptive_bitrate_step(u32::MAX, bad, limits), Ok(u32::MAX / 100));
}

#[test]
fn invalid_limits_are_refused() {
    let calm = NetworkFeedback { rtt_ms: 100, packet_loss_x10000: 300 };
    assert_eq!(
        adaptive_bitrate_step(1, calm, BitrateLimits { floor_kbps: 0, ceil_kbps: 10 }),
        Err(MediaError::InvalidLimits)
    );
    assert_eq!(
        adaptive_bitrate_step(1, calm, BitrateLimits { floor_kbps: 11, ceil_kbps: 10 }),
        Err(MediaError::InvalidLimits)
    );
    assert_eq!(
        adaptive_bitrate_step(1, calm, BitrateLimits { floor_kbps: 10, ceil_kbps: 10 }),
        Ok(10)
    );
}

#[test]
fn default_profiles() {
    assert_eq!(
        VideoProfile::default(),
        VideoProfile { width: 1280, height: 720, fps: 30, bitrate_kbps: 2500 }
    );
    assert_eq!(BitrateLimits::default(), BitrateLimits { floor_kbps: 600, ceil_kbps: 8_000 });
}
