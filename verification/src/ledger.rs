//! The per-user mute ledger: a streak of consecutive offenses, the time the
//! streak last changed, and the time the current mute expires. Escalation
//! grows the penalty exponentially; decay retires one streak point for every
//! full six-hour period of quiet.

use vstd::prelude::*;

use vstd::arithmetic::power2::lemma2_to64;
use vstd::arithmetic::power2::lemma2_to64_rest;
use vstd::arithmetic::power2::lemma_pow2_strictly_increases;
use vstd::arithmetic::power2::pow2;
use vstd::bits::lemma_u64_shl_is_mul;

verus! {

/// Seconds in one streak-decay period: six hours.
pub const DECAY_PERIOD_SECS: u64 = 21600;

/// Sentinel mute deadline meaning "not currently muted".
pub const MUTE_CLEARED: u64 = u64::MAX;

/// Largest streak a moderator may set by hand.
pub const MAX_MANUAL_STREAK: u64 = 16;

/// One user's escalation record in one guild. A stored ledger always has
/// `streak >= 1`; a user with no record is clean.
#[derive(Clone, Copy, PartialEq, Eq, Structural, Debug)]
pub struct MuteInfo {
    pub streak: u64,
    pub streak_time: u64,
    pub mute_until: u64,
}

pub open spec fn sat_add64(a: u64, b: u64) -> u64 {
    if a + b <= u64::MAX {
        (a + b) as u64
    } else {
        u64::MAX
    }
}

/// The mute duration attached to the `n`th consecutive offense:
/// `2^(2n - 1)` seconds (2, 8, 32, 128, ...), capped at the machine's word
/// once the exponent leaves it.
pub open spec fn escalate_duration(new_streak: u64) -> u64 {
    if 1 <= new_streak <= 32 {
        pow2((2 * new_streak - 1) as nat) as u64
    } else {
        u64::MAX
    }
}

/// One escalation step: the streak grows by one, the streak clock restarts,
/// and the mute deadline moves to `now` plus the escalated duration.
pub open spec fn escalate_spec(m: MuteInfo, now: u64) -> MuteInfo {
    let new_streak: u64 = if m.streak == u64::MAX {
        u64::MAX
    } else {
        (m.streak + 1) as u64
    };
    MuteInfo {
        streak: new_streak,
        streak_time: now,
        mute_until: sat_add64(now, escalate_duration(new_streak)),
    }
}

/// The streak-decay transition: one streak point is retired for every full
/// six-hour period since the streak last changed, partial periods carried
/// forward through the updated streak time. A streak that reaches zero means
/// the ledger is destroyed (`None`).
pub open spec fn decay_spec(m: MuteInfo, now: u64) -> Option<MuteInfo> {
    if now >= DECAY_PERIOD_SECS && now - DECAY_PERIOD_SECS >= m.streak_time {
        let periods = (now - m.streak_time) / (DECAY_PERIOD_SECS as int);
        if periods >= m.streak {
            None
        } else {
            Some(
                MuteInfo {
                    streak: (m.streak - periods) as u64,
                    streak_time: (m.streak_time + periods * DECAY_PERIOD_SECS) as u64,
                    mute_until: m.mute_until,
                },
            )
        }
    } else {
        Some(m)
    }
}

/// One sweep pass over a single ledger: the unmute check first, against the
/// pre-decay deadline, then the independent streak-decay transition. The
/// first component reports whether the user was unmuted in this pass.
pub open spec fn sweep_entry_spec(m: MuteInfo, now: u64) -> (bool, Option<MuteInfo>) {
    let unmuted = now >= m.mute_until;
    let cleared = if unmuted {
        MuteInfo { mute_until: MUTE_CLEARED, ..m }
    } else {
        m
    };
    (unmuted, decay_spec(cleared, now))
}

impl MuteInfo {
    /// A stored ledger records at least one offense.
    pub open spec fn wf(self) -> bool {
        self.streak >= 1
    }

    /// The record of a user with no history, from which the first escalation
    /// starts.
    pub open spec fn clean() -> MuteInfo {
        MuteInfo { streak: 0, streak_time: 0, mute_until: 0 }
    }

    /// Applies one escalation at time `now`; also returns the duration of
    /// the new mute, for the notification to the offender.
    pub fn escalated(self, now: u64) -> (r: (MuteInfo, u64))
        ensures
            r.0 == escalate_spec(self, now),
            r.1 == escalate_duration(r.0.streak),
            r.0.wf(),
    {
        let new_streak: u64 = if self.streak == u64::MAX {
            u64::MAX
        } else {
            self.streak + 1
        };
        let duration: u64;
        if new_streak <= 32 {
            let e = 2 * new_streak - 1;
            proof {
                lemma2_to64_rest();
                if e < 63 {
                    lemma_pow2_strictly_increases(e as nat, 63);
                }
                lemma_u64_shl_is_mul(1u64, e);
            }
            duration = 1u64 << e;
        } else {
            duration = u64::MAX;
        }
        let mute_until: u64 = if now <= u64::MAX - duration {
            now + duration
        } else {
            u64::MAX
        };
        (MuteInfo { streak: new_streak, streak_time: now, mute_until }, duration)
    }

    /// The first escalation for a user with no prior record.
    pub fn new_mute(now: u64) -> (r: (MuteInfo, u64))
        ensures
            r.0 == escalate_spec(MuteInfo::clean(), now),
            r.1 == escalate_duration(1),
            r.0.wf(),
    {
        MuteInfo { streak: 0, streak_time: 0, mute_until: 0 }.escalated(now)
    }

    /// Applies one sweep pass to this ledger at time `now`.
    pub fn sweep_entry(self, now: u64) -> (r: (bool, Option<MuteInfo>))
        ensures
            r == sweep_entry_spec(self, now),
            self.wf() && r.1 is Some ==> r.1->Some_0.wf(),
    {
        let unmuted = now >= self.mute_until;
        let cleared = if unmuted {
            MuteInfo { mute_until: MUTE_CLEARED, ..self }
        } else {
            self
        };
        if now >= DECAY_PERIOD_SECS && now - DECAY_PERIOD_SECS >= cleared.streak_time {
            let elapsed = now - cleared.streak_time;
            let periods = elapsed / DECAY_PERIOD_SECS;
            proof {
                vstd::arithmetic::div_mod::lemma_fundamental_div_mod(
                    elapsed as int,
                    DECAY_PERIOD_SECS as int,
                );
            }
            if periods >= cleared.streak {
                (unmuted, None)
            } else {
                (
                    unmuted,
                    Some(
                        MuteInfo {
                            streak: cleared.streak - periods,
                            streak_time: cleared.streak_time + periods * DECAY_PERIOD_SECS,
                            mute_until: cleared.mute_until,
                        },
                    ),
                )
            }
        } else {
            (unmuted, Some(cleared))
        }
    }
}

/// From a clean state, consecutive escalations mute for exactly 2, then 8,
/// then 32 seconds: the penalty quadruples with each repeat offense.
pub proof fn lemma_escalation_sequence(t1: u64, t2: u64, t3: u64)
    requires
        t1 + 2 <= u64::MAX,
        t2 + 8 <= u64::MAX,
        t3 + 32 <= u64::MAX,
    ensures
        ({
            let m1 = escalate_spec(MuteInfo::clean(), t1);
            let m2 = escalate_spec(m1, t2);
            let m3 = escalate_spec(m2, t3);
            &&& m1.streak == 1 && m1.mute_until == t1 + 2
            &&& m2.streak == 2 && m2.mute_until == t2 + 8
            &&& m3.streak == 3 && m3.mute_until == t3 + 32
        }),
{
    lemma2_to64();
}

/// The general escalation formula: below the machine cap, escalating a
/// ledger with streak `n` mutes until `now + 2^(2 * (n + 1) - 1)`.
pub proof fn lemma_escalate_formula(m: MuteInfo, now: u64)
    requires
        m.streak <= 31,
        now + pow2((2 * m.streak + 1) as nat) <= u64::MAX,
    ensures
        escalate_spec(m, now).streak == m.streak + 1,
        escalate_spec(m, now).streak_time == now,
        escalate_spec(m, now).mute_until == now + pow2((2 * m.streak + 1) as nat),
{
}

/// Within one mute episode the deadline never moves backwards: escalating
/// again at the same or a later time only extends it.
pub proof fn lemma_mute_until_monotonic(m: MuteInfo, t1: u64, t2: u64)
    requires
        t1 <= t2,
    ensures
        escalate_spec(escalate_spec(m, t1), t2).mute_until >= escalate_spec(m, t1).mute_until,
{
    let n1 = escalate_spec(m, t1).streak;
    let n2 = escalate_spec(escalate_spec(m, t1), t2).streak;
    lemma2_to64_rest();
    if 1 <= n1 && n1 <= 31 {
        lemma_pow2_strictly_increases((2 * n1 - 1) as nat, (2 * n1 + 1) as nat);
        if 2 * n1 + 1 < 63 {
            lemma_pow2_strictly_increases((2 * n1 + 1) as nat, 63);
        }
    } else if n1 == 32 {
        assert(escalate_duration(n2) == u64::MAX);
    }
}

/// Two full decay periods elapsed take a still-muted streak of three down to
/// one in a single sweep pass and advance the streak time by exactly the two
/// periods consumed.
pub proof fn lemma_decay_two_periods(m: MuteInfo, now: u64)
    requires
        now >= 43200,
        m.streak == 3,
        m.streak_time == now - 43200,
        now < m.mute_until,
    ensures
        sweep_entry_spec(m, now).0 == false,
        sweep_entry_spec(m, now).1 == Some(
            MuteInfo { streak: 1, streak_time: now, mute_until: m.mute_until },
        ),
{
    assert(43200int / 21600int == 2);
}

} // verus!
