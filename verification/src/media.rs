//! The adaptive bitrate controller of the media path.

use vstd::prelude::*;

verus! {

#[derive(Debug, Clone, Copy, PartialEq, Eq, Structural)]
pub struct VideoProfile {
    pub width: u32,
    pub height: u32,
    pub fps: u32,
    pub bitrate_kbps: u32,
}

impl VideoProfile {
    /// 720p at 30 frames per second and 2.5 Mbit/s.
    pub open spec fn standard() -> VideoProfile {
        VideoProfile { width: 1280, height: 720, fps: 30, bitrate_kbps: 2500 }
    }
}

impl Default for VideoProfile {
    fn default() -> (profile: Self)
        ensures
            profile == VideoProfile::standard(),
    {
        VideoProfile { width: 1280, height: 720, fps: 30, bitrate_kbps: 2500 }
    }
}

/// One measurement of the path: round-trip time, and packet loss in
/// hundredths of a percent.
#[derive(Debug, Clone, Copy, PartialEq, Eq, Structural)]
pub struct NetworkFeedback {
    pub rtt_ms: u32,
    pub packet_loss_x10000: u32,
}

impl NetworkFeedback {
    /// Loss above 8% or a round trip above 200 ms.
    pub open spec fn congested(self) -> bool {
        self.packet_loss_x10000 > 800 || self.rtt_ms > 200
    }

    /// Loss below 1.5% and a round trip below 80 ms.
    pub open spec fn clear(self) -> bool {
        self.packet_loss_x10000 < 150 && self.rtt_ms < 80
    }
}

#[derive(Debug, Clone, Copy, PartialEq, Eq, Structural)]
pub struct BitrateLimits {
    pub floor_kbps: u32,
    pub ceil_kbps: u32,
}

impl BitrateLimits {
    /// 600 kbit/s to 8 Mbit/s.
    pub open spec fn standard() -> BitrateLimits {
        BitrateLimits { floor_kbps: 600, ceil_kbps: 8_000 }
    }

    /// A positive floor that does not exceed the ceiling.
    pub open spec fn valid(self) -> bool {
        self.floor_kbps != 0 && self.floor_kbps <= self.ceil_kbps
    }

    /// `kbps` moved into the limits.
    pub open spec fn clamp(self, kbps: u32) -> u32 {
        if kbps < self.floor_kbps {
            self.floor_kbps
        } else if kbps > self.ceil_kbps {
            self.ceil_kbps
        } else {
            kbps
        }
    }
}

impl Default for BitrateLimits {
    fn default() -> (limits: Self)
        ensures
            limits == BitrateLimits::standard(),
    {
        BitrateLimits { floor_kbps: 600, ceil_kbps: 8_000 }
    }
}

#[derive(Debug, Clone, Copy, PartialEq, Eq, Structural)]
pub enum MediaError {
    InvalidLimits,
}

/// `percent` hundredths of `kbps`, rounded down; the product is held at
/// `u32::MAX` before it is divided.
pub open spec fn scaled(kbps: u32, percent: u32) -> u32 {
    if kbps * percent > u32::MAX {
        (u32::MAX / 100) as u32
    } else {
        ((kbps * percent) / 100) as u32
    }
}

/// The bitrate after one control step: the current rate is brought into the
/// limits, cut to 85% on a congested path or raised to 108% on a clear one,
/// and brought into the limits again.
pub open spec fn next_bitrate(current_kbps: u32, feedback: NetworkFeedback, limits: BitrateLimits) -> u32 {
    let start = limits.clamp(current_kbps);
    let moved = if feedback.congested() {
        scaled(start, 85)
    } else if feedback.clear() {
        scaled(start, 108)
    } else {
        start
    };
    limits.clamp(moved)
}

fn clamp_kbps(kbps: u32, limits: BitrateLimits) -> (clamped: u32)
    ensures
        clamped == limits.clamp(kbps),
{
    if kbps < limits.floor_kbps {
        limits.floor_kbps
    } else if kbps > limits.ceil_kbps {
        limits.ceil_kbps
    } else {
        kbps
    }
}

fn scale_kbps(kbps: u32, percent: u32) -> (result: u32)
    ensures
        result == scaled(kbps, percent),
{
    match kbps.checked_mul(percent) {
        Some(product) => product / 100,
        None => u32::MAX / 100,
    }
}

/// One step of the bitrate controller.
///
/// Limits with a zero floor, or a floor above the ceiling, are refused;
/// otherwise the step always succeeds and its result lies within the limits.
pub fn adaptive_bitrate_step(
    current_kbps: u32,
    feedback: NetworkFeedback,
    limits: BitrateLimits,
) -> (result: Result<u32, MediaError>)
    ensures
        !limits.valid() ==> result == Err::<u32, MediaError>(MediaError::InvalidLimits),
        limits.valid() ==> result == Ok::<u32, MediaError>(
            next_bitrate(current_kbps, feedback, limits),
        ),
        result matches Ok(next) ==> limits.floor_kbps <= next <= limits.ceil_kbps,
{
    if limits.floor_kbps == 0 || limits.floor_kbps > limits.ceil_kbps {
        return Err(MediaError::InvalidLimits);
    }
    let mut next: u32 = clamp_kbps(current_kbps, limits);
    if feedback.packet_loss_x10000 > 800 || feedback.rtt_ms > 200 {
        next = scale_kbps(next, 85);
    } else if feedback.packet_loss_x10000 < 150 && feedback.rtt_ms < 80 {
        next = scale_kbps(next, 108);
    }
    Ok(clamp_kbps(next, limits))
}

/// A congested path never raises the rate: the step leaves the rate, once
/// brought into the limits, where it is or below.
pub proof fn lemma_congested_never_raises(
    current_kbps: u32,
    feedback: NetworkFeedback,
    limits: BitrateLimits,
)
    requires
        limits.valid(),
        feedback.congested(),
    ensures
        next_bitrate(current_kbps, feedback, limits) <= limits.clamp(current_kbps),
{
}

/// A clear path never lowers the rate, as long as 108 times the rate still
/// is a number of 32 bits: the step leaves the rate, once brought into the
/// limits, where it is or above. Beyond that the product is held at the
/// greatest such number, and the step may lower the rate.
pub proof fn lemma_clear_never_lowers(
    current_kbps: u32,
    feedback: NetworkFeedback,
    limits: BitrateLimits,
)
    requires
        limits.valid(),
        feedback.clear(),
        !feedback.congested(),
        limits.clamp(current_kbps) * 108 <= u32::MAX,
    ensures
        next_bitrate(current_kbps, feedback, limits) >= limits.clamp(current_kbps),
{
}

} // verus!
