//! The moderation dispatcher: on each new or substantively edited message it
//! computes the fingerprint under the guild's dataset mode, checks and
//! records it against the duplicate registry, and when the channel is
//! whitelisted and the content is a repeat, deletes the message and
//! escalates the author's mute. It returns the outward actions and storage
//! effects for the caller to perform; it performs no I/O itself.

use vstd::prelude::*;

use vstd::string::StringSliceAdditionalSpecFns;

use crate::cache::GuildMuteCache;
use crate::cache::StorageOp;
use crate::cache::UnmuteEvent;
use crate::cache::apply_ledger_ops;
use crate::fingerprint::city128_of;
use crate::fingerprint::hash;
use crate::fingerprint::hash_scoped;
use crate::fingerprint::normalize;
use crate::fingerprint::normalize_bytes;
use crate::fingerprint::scoped_input;
use crate::ledger::MuteInfo;
use crate::ledger::escalate_duration;
use crate::ledger::escalate_spec;
use crate::registry::DuplicateRegistry;
use crate::registry::RegistryOp;
use crate::settings::ChannelWhitelist;

verus! {

/// A message as the dispatcher sees it, reduced to plain values.
pub struct FauxMessage {
    pub content: String,
    pub author_id: u64,
    pub author_is_bot: bool,
    pub id: u64,
    pub channel_id: u64,
    pub guild_id: u64,
}

/// An outward action the caller performs against the chat platform. Each is
/// a fallible remote call; a failure is logged and abandoned for that
/// attempt without affecting the others.
#[derive(Clone, Copy, PartialEq, Eq, Structural, Debug)]
pub enum Action {
    /// Delete the offending message.
    DeleteMessage { channel_id: u64, message_id: u64 },
    /// Deny sending and reacting to the user in this channel.
    ApplyMutePermissions { channel_id: u64, user_id: u64 },
    /// Restore the user's permissions in this channel.
    ClearMutePermissions { channel_id: u64, user_id: u64 },
    /// Announce in the channel that the user was stunlocked, for how long,
    /// and at what streak.
    NotifyStunlock { channel_id: u64, user_id: u64, duration: u64, streak: u64 },
    /// Direct-message the user that the mute in this guild ended.
    NotifyUnmute { guild_id: u64, user_id: u64 },
}

/// The UTF-8 bytes of message text, which fingerprinting works on.
pub open spec fn content_bytes(s: Seq<char>) -> Seq<u8> {
    vstd::utf8::encode_utf8(s)
}

/// The fingerprint the dispatcher computes under the guild's dataset mode:
/// global mode hashes the normalized text alone; private mode salts and
/// scopes it by guild and channel.
pub open spec fn fingerprint_spec(
    content: Seq<u8>,
    global_mode: bool,
    salt: Seq<u8>,
    guild_id: u64,
    channel_id: u64,
) -> u128 {
    if global_mode {
        city128_of(normalize_bytes(content))
    } else {
        city128_of(scoped_input(salt, content, guild_id, channel_id))
    }
}

/// The actions one escalation triggers: a permission overwrite denying
/// send/react in every whitelisted channel of the guild, then the stunlock
/// announcement in the channel of the offense.
pub open spec fn mute_actions_spec(
    channels: Seq<u64>,
    user_id: u64,
    notify_channel_id: u64,
    duration: u64,
    streak: u64,
) -> Seq<Action> {
    channels.map_values(|c: u64| Action::ApplyMutePermissions { channel_id: c, user_id })
        + seq![Action::NotifyStunlock { channel_id: notify_channel_id, user_id, duration, streak }]
}

fn push_mute_permissions(actions: &mut Vec<Action>, channels: &Vec<u64>, user_id: u64)
    ensures
        final(actions)@ == old(actions)@ + channels@.map_values(
            |c: u64| Action::ApplyMutePermissions { channel_id: c, user_id },
        ),
{
    let mut i: usize = 0;
    while i < channels.len()
        invariant
            i <= channels@.len(),
            actions@.len() == old(actions)@.len() + i,
            forall|j: int| 0 <= j < old(actions)@.len() ==> actions@[j] == old(actions)@[j],
            forall|j: int|
                0 <= j < i ==> actions@[old(actions)@.len() + j] == (Action::ApplyMutePermissions {
                    channel_id: channels@[j],
                    user_id,
                }),
        decreases channels@.len() - i,
    {
        actions.push(Action::ApplyMutePermissions { channel_id: channels[i], user_id });
        i += 1;
    }
    proof {
        assert(actions@ =~= old(actions)@ + channels@.map_values(
            |c: u64| Action::ApplyMutePermissions { channel_id: c, user_id },
        ));
    }
}

/// Everything one dispatch decides: the platform actions to perform, the
/// ledger writes that keep the durable table in step with the cache, and
/// the registry write if the fingerprint was new.
pub struct Moderation {
    pub actions: Vec<Action>,
    pub ledger_ops: Vec<StorageOp>,
    pub registry_op: Option<RegistryOp>,
}

/// What a dispatch of one message does, relating the registry and cache
/// before and after to the returned decisions.
pub open spec fn dispatch_post(
    reg0: Set<u128>,
    reg1: Set<u128>,
    cache0: Map<(u64, u64), MuteInfo>,
    cache1: Map<(u64, u64), MuteInfo>,
    msg: FauxMessage,
    global_mode: bool,
    whitelist: Seq<u64>,
    salt: Seq<u8>,
    now: u64,
    r: Moderation,
) -> bool {
    let whitelisted = whitelist.contains(msg.channel_id);
    let fp = fingerprint_spec(
        content_bytes(msg.content@),
        global_mode,
        salt,
        msg.guild_id,
        msg.channel_id,
    );
    let key = (msg.guild_id, msg.author_id);
    if msg.author_is_bot || (!global_mode && !whitelisted) {
        // Automated authors are skipped; in private mode a message outside
        // the whitelist is not even recorded.
        &&& reg1 == reg0
        &&& cache1 == cache0
        &&& r.actions@ == Seq::<Action>::empty()
        &&& r.ledger_ops@ == Seq::<StorageOp>::empty()
        &&& r.registry_op is None
    } else {
        &&& reg1 == reg0.insert(fp)
        &&& (r.registry_op is Some <==> !reg0.contains(fp))
        &&& if whitelisted && reg0.contains(fp) {
            let prev = if cache0.contains_key(key) {
                cache0[key]
            } else {
                MuteInfo::clean()
            };
            let info = escalate_spec(prev, now);
            &&& cache1 == cache0.insert(key, info)
            &&& r.actions@ == seq![
                Action::DeleteMessage { channel_id: msg.channel_id, message_id: msg.id },
            ] + mute_actions_spec(
                whitelist,
                msg.author_id,
                msg.channel_id,
                escalate_duration(info.streak),
                info.streak,
            )
            &&& r.ledger_ops@ == seq![
                StorageOp::UpsertLedger {
                    guild_id: msg.guild_id,
                    user_id: msg.author_id,
                    info,
                },
            ]
        } else {
            &&& cache1 == cache0
            &&& r.actions@ == Seq::<Action>::empty()
            &&& r.ledger_ops@ == Seq::<StorageOp>::empty()
        }
    }
}

/// Moderates one new message: skips automated authors, fingerprints the
/// content under the guild's dataset mode, records it, and when the channel
/// is whitelisted and the content was already seen, deletes the message and
/// escalates the author's mute.
pub fn handle_message(
    registry: &mut DuplicateRegistry,
    cache: &mut GuildMuteCache,
    msg: &FauxMessage,
    global_mode: bool,
    whitelist: &ChannelWhitelist,
    salt: &str,
    now: u64,
) -> (r: Moderation)
    requires
        old(cache).wf(),
        whitelist.wf(),
    ensures
        final(cache).wf(),
        dispatch_post(
            old(registry)@,
            final(registry)@,
            old(cache)@,
            final(cache)@,
            *msg,
            global_mode,
            whitelist@,
            salt.spec_bytes(),
            now,
            r,
        ),
        apply_ledger_ops(old(cache)@, r.ledger_ops@) == final(cache)@,
{
    if msg.author_is_bot {
        return Moderation { actions: Vec::new(), ledger_ops: Vec::new(), registry_op: None };
    }
    let whitelisted = whitelist.contains(msg.channel_id);
    let fp: u128;
    if global_mode {
        fp = hash(msg.content.as_str());
    } else if whitelisted {
        fp = hash_scoped(salt, msg.content.as_str(), msg.guild_id, msg.channel_id);
    } else {
        return Moderation { actions: Vec::new(), ledger_ops: Vec::new(), registry_op: None };
    }
    let infringing = registry.seen(fp);
    let registry_op = registry.record(fp);
    if whitelisted && infringing {
        let mut actions: Vec<Action> = Vec::new();
        actions.push(Action::DeleteMessage { channel_id: msg.channel_id, message_id: msg.id });
        let ghost head = actions@;
        let (info, duration, ledger_ops) = cache.mute(msg.guild_id, msg.author_id, now);
        push_mute_permissions(&mut actions, whitelist.channels(), msg.author_id);
        actions.push(
            Action::NotifyStunlock {
                channel_id: msg.channel_id,
                user_id: msg.author_id,
                duration,
                streak: info.streak,
            },
        );
        proof {
            assert(head =~= seq![
                Action::DeleteMessage { channel_id: msg.channel_id, message_id: msg.id },
            ]);
            assert(actions@ =~= seq![
                Action::DeleteMessage { channel_id: msg.channel_id, message_id: msg.id },
            ] + mute_actions_spec(
                whitelist@,
                msg.author_id,
                msg.channel_id,
                duration,
                info.streak,
            ));
        }
        Moderation { actions, ledger_ops, registry_op }
    } else {
        Moderation { actions: Vec::new(), ledger_ops: Vec::new(), registry_op }
    }
}

fn bytes_eq(a: &Vec<u8>, b: &Vec<u8>) -> (r: bool)
    ensures
        r == (a@ == b@),
{
    if a.len() != b.len() {
        return false;
    }
    let mut i: usize = 0;
    while i < a.len()
        invariant
            i <= a@.len(),
            a@.len() == b@.len(),
            forall|j: int| 0 <= j < i ==> a@[j] == b@[j],
        decreases a@.len() - i,
    {
        if a[i] != b[i] {
            return false;
        }
        i += 1;
    }
    proof {
        assert(a@ =~= b@);
    }
    true
}

/// Moderates one edited message: an edit whose normalized content matches
/// the old text is ignored, since punctuation-only edits change nothing the
/// detector cares about; any other edit is moderated like a new message.
pub fn handle_edit(
    registry: &mut DuplicateRegistry,
    cache: &mut GuildMuteCache,
    old_content: Option<&String>,
    msg: &FauxMessage,
    global_mode: bool,
    whitelist: &ChannelWhitelist,
    salt: &str,
    now: u64,
) -> (r: Moderation)
    requires
        old(cache).wf(),
        whitelist.wf(),
    ensures
        final(cache).wf(),
        ({
            let ignored = match old_content {
                Some(o) => normalize_bytes(content_bytes(o@)) == normalize_bytes(
                    content_bytes(msg.content@),
                ),
                None => false,
            };
            if ignored {
                &&& final(registry)@ == old(registry)@
                &&& final(cache)@ == old(cache)@
                &&& r.actions@ == Seq::<Action>::empty()
                &&& r.ledger_ops@ == Seq::<StorageOp>::empty()
                &&& r.registry_op is None
            } else {
                dispatch_post(
                    old(registry)@,
                    final(registry)@,
                    old(cache)@,
                    final(cache)@,
                    *msg,
                    global_mode,
                    whitelist@,
                    salt.spec_bytes(),
                    now,
                    r,
                )
            }
        }),
        apply_ledger_ops(old(cache)@, r.ledger_ops@) == final(cache)@,
{
    match old_content {
        Some(o) => {
            let old_norm = normalize(o.as_str());
            let new_norm = normalize(msg.content.as_str());
            if bytes_eq(&old_norm, &new_norm) {
                return Moderation {
                    actions: Vec::new(),
                    ledger_ops: Vec::new(),
                    registry_op: None,
                };
            }
        },
        None => {},
    }
    handle_message(registry, cache, msg, global_mode, whitelist, salt, now)
}

/// A moderator's manual mute: one escalation for the user, with the same
/// mechanics and actions as an automatic one. The announcement goes to the
/// channel the command was issued in; no message is deleted.
pub fn mute(
    cache: &mut GuildMuteCache,
    guild_id: u64,
    user_id: u64,
    notify_channel_id: u64,
    whitelist: &ChannelWhitelist,
    now: u64,
) -> (r: (Vec<Action>, Vec<StorageOp>))
    requires
        old(cache).wf(),
        whitelist.wf(),
    ensures
        final(cache).wf(),
        ({
            let prev = if old(cache)@.contains_key((guild_id, user_id)) {
                old(cache)@[(guild_id, user_id)]
            } else {
                MuteInfo::clean()
            };
            let info = escalate_spec(prev, now);
            &&& final(cache)@ == old(cache)@.insert((guild_id, user_id), info)
            &&& r.0@ == mute_actions_spec(
                whitelist@,
                user_id,
                notify_channel_id,
                escalate_duration(info.streak),
                info.streak,
            )
            &&& apply_ledger_ops(old(cache)@, r.1@) == final(cache)@
        }),
{
    let (info, duration, ledger_ops) = cache.mute(guild_id, user_id, now);
    let mut actions: Vec<Action> = Vec::new();
    push_mute_permissions(&mut actions, whitelist.channels(), user_id);
    actions.push(
        Action::NotifyStunlock {
            channel_id: notify_channel_id,
            user_id,
            duration,
            streak: info.streak,
        },
    );
    proof {
        assert(actions@ =~= mute_actions_spec(
            whitelist@,
            user_id,
            notify_channel_id,
            duration,
            info.streak,
        ));
    }
    (actions, ledger_ops)
}

/// The actions that reverse a mute for one user the sweep unmuted: a
/// permission restore in every whitelisted channel of the guild, then the
/// direct message telling the user the mute ended.
pub fn unmute_actions(event: &UnmuteEvent, whitelist: &ChannelWhitelist) -> (r: Vec<Action>)
    ensures
        r@ == whitelist@.map_values(
            |c: u64|
                (Action::ClearMutePermissions { channel_id: c, user_id: event.user_id }),
        ) + seq![
            Action::NotifyUnmute { guild_id: event.guild_id, user_id: event.user_id },
        ],
{
    let mut actions: Vec<Action> = Vec::new();
    let channels = whitelist.channels();
    let mut i: usize = 0;
    while i < channels.len()
        invariant
            i <= channels@.len(),
            channels@ == whitelist@,
            actions@.len() == i,
            forall|j: int|
                0 <= j < i ==> actions@[j] == (Action::ClearMutePermissions {
                    channel_id: channels@[j],
                    user_id: event.user_id,
                }),
        decreases channels@.len() - i,
    {
        actions.push(
            Action::ClearMutePermissions { channel_id: channels[i], user_id: event.user_id },
        );
        i += 1;
    }
    actions.push(Action::NotifyUnmute { guild_id: event.guild_id, user_id: event.user_id });
    proof {
        assert(actions@ =~= whitelist@.map_values(
            |c: u64|
                (Action::ClearMutePermissions { channel_id: c, user_id: event.user_id }),
        ) + seq![
            Action::NotifyUnmute { guild_id: event.guild_id, user_id: event.user_id },
        ]);
    }
    actions
}

} // verus!
