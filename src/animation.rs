use vstd::prelude::*;

verus! {

/// How long a notification pulse lasts, in milliseconds.
pub const PULSE_DURATION_MS: u64 = 3500;

/// Radius of a pulse when it starts, in thousandths of a pixel at zoom one.
pub const PULSE_BASE_RADIUS: u64 = 4000;

/// Growth of a pulse's radius, in thousandths of a pixel per millisecond.
pub const PULSE_GROWTH: u64 = 40;

/// Opacity is expressed in thousandths: `ALPHA_SCALE` is fully opaque.
pub const ALPHA_SCALE: u32 = 1000;

/// What a notification looks like at some moment.
#[derive(Clone, Copy, Debug, PartialEq, Eq, Structural)]
pub enum DecayState {
    /// Still shown, with a radius in thousandths of a pixel (at zoom one) and
    /// an opacity in thousandths.
    Active { radius: u64, alpha: u32 },
    /// The decay window has elapsed.
    Expired,
}

/// Opacity of a pulse `t` milliseconds after it started: it falls linearly
/// from full to nothing over the decay window.
pub open spec fn pulse_alpha(t: int) -> int {
    if t >= PULSE_DURATION_MS {
        0
    } else {
        ALPHA_SCALE - t * (ALPHA_SCALE as int) / (PULSE_DURATION_MS as int)
    }
}

/// State of a pulse `t` milliseconds after it started.
pub open spec fn pulse_state(t: int) -> DecayState {
    if t < PULSE_DURATION_MS {
        DecayState::Active {
            radius: (PULSE_BASE_RADIUS + PULSE_GROWTH * t) as u64,
            alpha: pulse_alpha(t) as u32,
        }
    } else {
        DecayState::Expired
    }
}

/// Time elapsed from `start` to `now`, zero when `now` comes first.
pub open spec fn elapsed(start: u64, now: u64) -> int {
    if now >= start {
        now - start
    } else {
        0
    }
}

/// State at time `now` of a notification that started at `initial_time`,
/// both in milliseconds.
pub fn pulse(initial_time: u64, now: u64) -> (r: DecayState)
    ensures
        r == pulse_state(elapsed(initial_time, now)),
{
    let t: u64 = now.saturating_sub(initial_time);
    if t < PULSE_DURATION_MS {
        let drop: u64 = t * 1000 / PULSE_DURATION_MS;
        assert(drop <= 1000) by (nonlinear_arith)
            requires
                t < 3500,
                drop == t * 1000 / 3500,
        ;
        DecayState::Active { radius: PULSE_BASE_RADIUS + PULSE_GROWTH * t, alpha: 1000 - drop as u32 }
    } else {
        DecayState::Expired
    }
}

/// A notification starts fully opaque and active, has expired once the decay
/// window has elapsed, and never grows more opaque in between.
pub proof fn lemma_notification_decay(t0: u64, t1: u64, t2: u64)
    requires
        t0 <= t1 <= t2,
    ensures
        pulse_state(elapsed(t0, t0)) == (DecayState::Active {
            radius: PULSE_BASE_RADIUS,
            alpha: ALPHA_SCALE,
        }),
        t0 + PULSE_DURATION_MS <= u64::MAX ==> pulse_state(
            elapsed(t0, (t0 + PULSE_DURATION_MS) as u64),
        ) == DecayState::Expired,
        pulse_alpha(elapsed(t0, t2)) <= pulse_alpha(elapsed(t0, t1)),
{
    let a = elapsed(t0, t1);
    let b = elapsed(t0, t2);
    assert(a <= b);
    if b < PULSE_DURATION_MS {
        assert(a * 1000 / 3500 <= b * 1000 / 3500) by (nonlinear_arith)
            requires
                0 <= a <= b,
        ;
    } else if a < PULSE_DURATION_MS {
        assert(a * 1000 / 3500 <= 1000) by (nonlinear_arith)
            requires
                0 <= a < 3500,
        ;
    }
}

/// Opacity, out of 255, of a marker blinking with a period of 2550 ms.
pub open spec fn marker_alpha_spec(now: int) -> int {
    let phase = (now % 2550) / 5;
    if phase > 255 {
        510 - phase
    } else {
        phase
    }
}

/// Opacity of a blinking marker at time `now` in milliseconds.
pub fn marker_alpha(now: u64) -> (r: u8)
    ensures
        r == marker_alpha_spec(now as int),
{
    let phase: u64 = (now % 2550) / 5;
    if phase > 255 {
        (510 - phase) as u8
    } else {
        phase as u8
    }
}

} // verus!
