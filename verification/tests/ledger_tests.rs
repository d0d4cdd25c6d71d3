use stunlock::ledger::MuteInfo;
use stunlock::ledger::DECAY_PERIOD_SECS;
use stunlock::ledger::MUTE_CLEARED;

#[test]
fn escalation_sequence_from_clean() {
    let now: u64 = 1_000_000;
    let (m1, d1) = MuteInfo::new_mute(now);
    assert_eq!(m1.streak, 1);
    assert_eq!(d1, 2);
    assert_eq!(m1.mute_until, now + 2);
    assert_eq!(m1.streak_time, now);

    let (m2, d2) = m1.escalated(now);
    assert_eq!(m2.streak, 2);
    assert_eq!(d2, 8);
    assert_eq!(m2.mute_until, now + 8);

    let (m3, d3) = m2.escalated(now);
    assert_eq!(m3.streak, 3);
    assert_eq!(d3, 32);
    assert_eq!(m3.mute_until, now + 32);

    let (m4, d4) = m3.escalated(now);
    assert_eq!(m4.streak, 4);
    assert_eq!(d4, 128);
    assert_eq!(m4.mute_until, now + 128);
}

#[test]
fn escalation_restarts_streak_clock() {
    let (m1, _) = MuteInfo::new_mute(100);
    let (m2, _) = m1.escalated(500);
    assert_eq!(m2.streak_time, 500);
    assert!(m2.mute_until >= m1.mute_until);
}

#[test]
fn decay_two_full_periods_in_one_pass() {
    let now: u64 = 1_000_000;
    let m = MuteInfo {
        streak: 3,
        streak_time: now - 43200,
        mute_until: u64::MAX,
    };
    let (unmuted, after) = m.sweep_entry(now);
    assert!(!unmuted);
    let after = after.expect("ledger should survive with streak 1");
    assert_eq!(after.streak, 1);
    assert_eq!(after.streak_time, now);
    assert_eq!(after.mute_until, u64::MAX);
}

#[test]
fn partial_period_is_carried_forward() {
    let now: u64 = 1_000_000;
    let m = MuteInfo {
        streak: 3,
        streak_time: now - DECAY_PERIOD_SECS - 100,
        mute_until: u64::MAX,
    };
    let (_, after) = m.sweep_entry(now);
    let after = after.unwrap();
    assert_eq!(after.streak, 2);
    assert_eq!(after.streak_time, now - 100);
}

#[test]
fn no_decay_inside_one_period() {
    let now: u64 = 1_000_000;
    let m = MuteInfo {
        streak: 2,
        streak_time: now - DECAY_PERIOD_SECS + 1,
        mute_until: u64::MAX,
    };
    let (_, after) = m.sweep_entry(now);
    assert_eq!(after.unwrap(), m);
}

#[test]
fn full_decay_retires_the_ledger() {
    let now: u64 = 1_000_000;
    let m = MuteInfo {
        streak: 1,
        streak_time: now - DECAY_PERIOD_SECS,
        mute_until: u64::MAX,
    };
    let (_, after) = m.sweep_entry(now);
    assert!(after.is_none());
}

#[test]
fn expired_mute_is_cleared_without_touching_streak() {
    let now: u64 = 1_000_000;
    let m = MuteInfo {
        streak: 2,
        streak_time: now,
        mute_until: now,
    };
    let (unmuted, after) = m.sweep_entry(now);
    assert!(unmuted);
    let after = after.unwrap();
    assert_eq!(after.streak, 2);
    assert_eq!(after.mute_until, MUTE_CLEARED);
}

#[test]
fn active_mute_is_not_cleared() {
    let now: u64 = 1_000_000;
    let m = MuteInfo {
        streak: 2,
        streak_time: now,
        mute_until: now + 1,
    };
    let (unmuted, after) = m.sweep_entry(now);
    assert!(!unmuted);
    assert_eq!(after.unwrap(), m);
}
