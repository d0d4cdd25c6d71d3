use stunlock::cache::GuildMuteCache;
use stunlock::cache::StorageOp;
use stunlock::dispatch::handle_edit;
use stunlock::dispatch::handle_message;
use stunlock::dispatch::mute;
use stunlock::dispatch::unmute_actions;
use stunlock::dispatch::Action;
use stunlock::dispatch::FauxMessage;
use stunlock::registry::DuplicateRegistry;
use stunlock::settings::ChannelWhitelist;

const GUILD: u64 = 1;
const CHANNEL: u64 = 2;
const AUTHOR: u64 = 3;
const SALT: &str = "SECRET-REDACTED";

fn msg(content: &str, id: u64, channel_id: u64) -> FauxMessage {
    FauxMessage {
        content: content.to_string(),
        author_id: AUTHOR,
        author_is_bot: false,
        id,
        channel_id,
        guild_id: GUILD,
    }
}

fn whitelist_with(channel_id: u64) -> ChannelWhitelist {
    let mut w = ChannelWhitelist::new();
    w.toggle(channel_id);
    w
}

#[test]
fn duplicate_in_whitelisted_channel_is_enforced() {
    let mut registry = DuplicateRegistry::new();
    let mut cache = GuildMuteCache::new();
    let whitelist = whitelist_with(CHANNEL);
    let now: u64 = 1_000_000;

    let first = handle_message(
        &mut registry, &mut cache, &msg("SPAM!!", 100, CHANNEL), false, &whitelist, SALT, now,
    );
    assert!(first.actions.is_empty());
    assert!(first.ledger_ops.is_empty());
    assert!(first.registry_op.is_some());
    assert_eq!(cache.get(GUILD, AUTHOR), None);

    let second = handle_message(
        &mut registry, &mut cache, &msg("spam", 101, CHANNEL), false, &whitelist, SALT, now,
    );
    assert!(second.registry_op.is_none());
    let info = cache.get(GUILD, AUTHOR).expect("author should have a ledger");
    assert_eq!(info.streak, 1);
    assert_eq!(info.mute_until, now + 2);
    assert_eq!(
        second.actions,
        vec![
            Action::DeleteMessage { channel_id: CHANNEL, message_id: 101 },
            Action::ApplyMutePermissions { channel_id: CHANNEL, user_id: AUTHOR },
            Action::NotifyStunlock { channel_id: CHANNEL, user_id: AUTHOR, duration: 2, streak: 1 },
        ]
    );
    assert_eq!(
        second.ledger_ops,
        vec![StorageOp::UpsertLedger { guild_id: GUILD, user_id: AUTHOR, info }]
    );
}

#[test]
fn unwhitelisted_channel_is_left_alone_in_private_mode() {
    let mut registry = DuplicateRegistry::new();
    let mut cache = GuildMuteCache::new();
    let whitelist = whitelist_with(CHANNEL);
    let other_channel = CHANNEL + 1;
    let now: u64 = 1_000_000;

    let first = handle_message(
        &mut registry, &mut cache, &msg("SPAM!!", 100, other_channel), false, &whitelist, SALT, now,
    );
    let second = handle_message(
        &mut registry, &mut cache, &msg("spam", 101, other_channel), false, &whitelist, SALT, now,
    );
    for outcome in [first, second] {
        assert!(outcome.actions.is_empty());
        assert!(outcome.ledger_ops.is_empty());
        assert!(outcome.registry_op.is_none());
    }
    assert_eq!(cache.get(GUILD, AUTHOR), None);
}

#[test]
fn global_mode_records_outside_the_whitelist_but_does_not_enforce() {
    let mut registry = DuplicateRegistry::new();
    let mut cache = GuildMuteCache::new();
    let whitelist = whitelist_with(CHANNEL);
    let other_channel = CHANNEL + 1;
    let now: u64 = 1_000_000;

    let first = handle_message(
        &mut registry, &mut cache, &msg("spam", 100, other_channel), true, &whitelist, SALT, now,
    );
    assert!(first.registry_op.is_some());
    let second = handle_message(
        &mut registry, &mut cache, &msg("spam", 101, other_channel), true, &whitelist, SALT, now,
    );
    assert!(second.registry_op.is_none());
    assert!(second.actions.is_empty());
    assert_eq!(cache.get(GUILD, AUTHOR), None);
}

#[test]
fn bot_authors_are_skipped() {
    let mut registry = DuplicateRegistry::new();
    let mut cache = GuildMuteCache::new();
    let whitelist = whitelist_with(CHANNEL);
    let mut m = msg("spam", 100, CHANNEL);
    m.author_is_bot = true;
    let r1 = handle_message(&mut registry, &mut cache, &m, true, &whitelist, SALT, 500);
    let r2 = handle_message(&mut registry, &mut cache, &m, true, &whitelist, SALT, 500);
    assert!(r1.registry_op.is_none());
    assert!(r2.registry_op.is_none());
    assert!(r2.actions.is_empty());
}

#[test]
fn edit_with_unchanged_normalized_content_is_ignored() {
    let mut registry = DuplicateRegistry::new();
    let mut cache = GuildMuteCache::new();
    let whitelist = whitelist_with(CHANNEL);
    let old = "SPAM!!".to_string();
    let r = handle_edit(
        &mut registry, &mut cache, Some(&old), &msg("spam?!", 100, CHANNEL), true, &whitelist,
        SALT, 500,
    );
    assert!(r.actions.is_empty());
    assert!(r.registry_op.is_none());
    assert!(!registry.seen(stunlock::fingerprint::hash("spam")));
}

#[test]
fn substantive_edit_is_moderated_like_a_new_message() {
    let mut registry = DuplicateRegistry::new();
    let mut cache = GuildMuteCache::new();
    let whitelist = whitelist_with(CHANNEL);
    let old = "harmless".to_string();
    let r = handle_edit(
        &mut registry, &mut cache, Some(&old), &msg("now spam", 100, CHANNEL), true, &whitelist,
        SALT, 500,
    );
    assert!(r.registry_op.is_some());
    assert!(registry.seen(stunlock::fingerprint::hash("now spam")));
}

#[test]
fn manual_mute_escalates_and_notifies() {
    let mut cache = GuildMuteCache::new();
    let whitelist = whitelist_with(CHANNEL);
    let now: u64 = 900;
    let (actions, ops) = mute(&mut cache, GUILD, AUTHOR, CHANNEL, &whitelist, now);
    let info = cache.get(GUILD, AUTHOR).unwrap();
    assert_eq!(info.streak, 1);
    assert_eq!(
        actions,
        vec![
            Action::ApplyMutePermissions { channel_id: CHANNEL, user_id: AUTHOR },
            Action::NotifyStunlock { channel_id: CHANNEL, user_id: AUTHOR, duration: 2, streak: 1 },
        ]
    );
    assert_eq!(
        ops,
        vec![StorageOp::UpsertLedger { guild_id: GUILD, user_id: AUTHOR, info }]
    );
}

#[test]
fn unmute_actions_cover_every_whitelisted_channel() {
    let mut cache = GuildMuteCache::new();
    let mut whitelist = ChannelWhitelist::new();
    whitelist.toggle(2);
    whitelist.toggle(9);
    let (info, _, _) = cache.mute(GUILD, AUTHOR, 100);
    let (events, _) = cache.sweep(info.mute_until);
    assert_eq!(events.len(), 1);
    let actions = unmute_actions(&events[0], &whitelist);
    assert_eq!(
        actions,
        vec![
            Action::ClearMutePermissions { channel_id: 2, user_id: AUTHOR },
            Action::ClearMutePermissions { channel_id: 9, user_id: AUTHOR },
            Action::NotifyUnmute { guild_id: GUILD, user_id: AUTHOR },
        ]
    );
}
