use stunlock::cache::GuildMuteCache;
use stunlock::cache::StorageOp;
use stunlock::cache::StreakSetError;
use stunlock::ledger::DECAY_PERIOD_SECS;
use stunlock::ledger::MuteInfo;

const GUILD: u64 = 11;
const USER: u64 = 22;

#[test]
fn mute_creates_a_ledger_on_first_offense() {
    let mut cache = GuildMuteCache::new();
    assert_eq!(cache.get(GUILD, USER), None);
    let now: u64 = 5000;
    let (info, duration, ops) = cache.mute(GUILD, USER, now);
    assert_eq!(info.streak, 1);
    assert_eq!(duration, 2);
    assert_eq!(info.mute_until, now + 2);
    assert_eq!(
        ops,
        vec![StorageOp::UpsertLedger { guild_id: GUILD, user_id: USER, info }]
    );
    assert_eq!(cache.get(GUILD, USER), Some(info));
}

#[test]
fn repeat_mutes_escalate_the_same_user() {
    let mut cache = GuildMuteCache::new();
    cache.mute(GUILD, USER, 100);
    let (info, duration, _) = cache.mute(GUILD, USER, 200);
    assert_eq!(info.streak, 2);
    assert_eq!(duration, 8);
    assert_eq!(info.mute_until, 208);
    assert_eq!(cache.get(GUILD, USER).unwrap().streak, 2);
}

#[test]
fn ledgers_are_scoped_per_guild_and_user() {
    let mut cache = GuildMuteCache::new();
    cache.mute(GUILD, USER, 100);
    assert_eq!(cache.get(GUILD, USER + 1), None);
    assert_eq!(cache.get(GUILD + 1, USER), None);
    cache.mute(GUILD + 1, USER, 100);
    assert_eq!(cache.get(GUILD + 1, USER).unwrap().streak, 1);
    assert_eq!(cache.get(GUILD, USER).unwrap().streak, 1);
}

#[test]
fn manual_streak_seventeen_is_rejected() {
    let mut cache = GuildMuteCache::new();
    cache.mute(GUILD, USER, 100);
    let r = cache.set_streak(GUILD, USER, 17, 200);
    assert_eq!(r, Err(StreakSetError::OutOfRange));
    assert_eq!(cache.get(GUILD, USER).unwrap().streak, 1);
}

#[test]
fn manual_streak_sixteen_is_accepted() {
    let mut cache = GuildMuteCache::new();
    cache.mute(GUILD, USER, 100);
    let r = cache.set_streak(GUILD, USER, 16, 200);
    assert!(r.is_ok());
    let info = cache.get(GUILD, USER).unwrap();
    assert_eq!(info.streak, 16);
    assert_eq!(info.streak_time, 200);
}

#[test]
fn manual_streak_without_history_is_refused() {
    let mut cache = GuildMuteCache::new();
    let r = cache.set_streak(GUILD, USER, 5, 200);
    assert_eq!(r, Err(StreakSetError::NoHistory));
    assert_eq!(cache.get(GUILD, USER), None);
}

#[test]
fn manual_streak_zero_retires_the_ledger() {
    let mut cache = GuildMuteCache::new();
    cache.mute(GUILD, USER, 100);
    let r = cache.set_streak(GUILD, USER, 0, 200);
    assert_eq!(
        r,
        Ok(vec![StorageOp::DeleteLedger { guild_id: GUILD, user_id: USER }])
    );
    assert_eq!(cache.get(GUILD, USER), None);
}

#[test]
fn sweep_unmutes_expired_users() {
    let mut cache = GuildMuteCache::new();
    let (info, _, _) = cache.mute(GUILD, USER, 100);
    let (events, ops) = cache.sweep(info.mute_until);
    assert_eq!(events.len(), 1);
    assert_eq!(events[0].guild_id, GUILD);
    assert_eq!(events[0].user_id, USER);
    let after = cache.get(GUILD, USER).unwrap();
    assert_eq!(after.mute_until, u64::MAX);
    assert_eq!(after.streak, 1);
    assert_eq!(ops.len(), 1);
    assert_eq!(
        ops[0],
        StorageOp::UpsertLedger { guild_id: GUILD, user_id: USER, info: after }
    );
}

#[test]
fn sweep_retires_fully_decayed_ledgers_from_cache_and_storage() {
    let mut cache = GuildMuteCache::new();
    let now: u64 = 1_000_000;
    cache.mute(GUILD, USER, now);
    let later = now + DECAY_PERIOD_SECS;
    let (_, ops) = cache.sweep(later);
    assert_eq!(cache.get(GUILD, USER), None);
    assert!(ops.contains(&StorageOp::DeleteLedger { guild_id: GUILD, user_id: USER }));
}

#[test]
fn sweep_decays_a_stale_streak() {
    let mut cache = GuildMuteCache::new();
    let now: u64 = 1_000_000;
    cache.mute(GUILD, USER, now);
    cache.mute(GUILD, USER, now);
    cache.mute(GUILD, USER, now);
    assert_eq!(cache.get(GUILD, USER).unwrap().streak, 3);
    let later = now + 2 * DECAY_PERIOD_SECS;
    cache.sweep(later);
    let after = cache.get(GUILD, USER).unwrap();
    assert_eq!(after.streak, 1);
    assert_eq!(after.streak_time, later);
}

#[test]
fn sweep_leaves_untouched_ledgers_alone() {
    let mut cache = GuildMuteCache::new();
    let now: u64 = 1_000_000;
    let (info, _, _) = cache.mute(GUILD, USER, now);
    let (events, ops) = cache.sweep(now + 1);
    assert!(events.is_empty());
    assert!(ops.is_empty());
    assert_eq!(cache.get(GUILD, USER), Some(info));
}

#[test]
fn load_row_rebuilds_but_skips_zero_streaks_and_duplicates() {
    let mut cache = GuildMuteCache::new();
    let a = MuteInfo { streak: 2, streak_time: 10, mute_until: 20 };
    let b = MuteInfo { streak: 5, streak_time: 11, mute_until: 21 };
    let zero = MuteInfo { streak: 0, streak_time: 0, mute_until: 0 };
    cache.load_row(GUILD, USER, a);
    cache.load_row(GUILD, USER, b);
    cache.load_row(GUILD, USER + 1, zero);
    assert_eq!(cache.get(GUILD, USER), Some(a));
    assert_eq!(cache.get(GUILD, USER + 1), None);
}

#[test]
fn full_lifecycle_from_offense_to_clean() {
    let mut cache = GuildMuteCache::new();
    let t0: u64 = 1_000_000;

    // Two offenses in quick succession: streak 2, muted for 8 seconds.
    cache.mute(GUILD, USER, t0);
    let (info, _, _) = cache.mute(GUILD, USER, t0 + 1);
    assert_eq!(info.streak, 2);
    assert_eq!(info.mute_until, t0 + 9);

    // The mute expires: the sweep clears it but keeps the streak.
    let (events, _) = cache.sweep(t0 + 9);
    assert_eq!(events.len(), 1);
    let after = cache.get(GUILD, USER).unwrap();
    assert_eq!(after.streak, 2);
    assert_eq!(after.mute_until, u64::MAX);

    // One quiet decay period retires one streak point.
    cache.sweep(t0 + 1 + DECAY_PERIOD_SECS);
    assert_eq!(cache.get(GUILD, USER).unwrap().streak, 1);

    // A second quiet period retires the ledger: the user is clean again.
    cache.sweep(t0 + 1 + 2 * DECAY_PERIOD_SECS);
    assert_eq!(cache.get(GUILD, USER), None);
}
