//! The guild mute cache: the in-memory mapping from (guild, user) to that
//! user's mute ledger, mirrored to durable storage. Every mutation returns
//! the storage effects that make the durable table agree with the cache
//! again, so call sites cannot update one and forget the other.

use vstd::prelude::*;

use crate::ledger::MuteInfo;
use crate::ledger::escalate_duration;
use crate::ledger::escalate_spec;
use crate::ledger::sweep_entry_spec;
use crate::ledger::DECAY_PERIOD_SECS;
use crate::ledger::MAX_MANUAL_STREAK;

verus! {

/// A storage effect on the durable ledger table, keyed by guild and user.
/// An upsert inserts the row or overwrites an existing one.
#[derive(Clone, Copy, PartialEq, Eq, Structural, Debug)]
pub enum StorageOp {
    UpsertLedger { guild_id: u64, user_id: u64, info: MuteInfo },
    DeleteLedger { guild_id: u64, user_id: u64 },
}

pub open spec fn op_key(op: StorageOp) -> (u64, u64) {
    match op {
        StorageOp::UpsertLedger { guild_id, user_id, info } => (guild_id, user_id),
        StorageOp::DeleteLedger { guild_id, user_id } => (guild_id, user_id),
    }
}

/// What one storage effect does to the durable ledger table.
pub open spec fn apply_ledger_op(
    table: Map<(u64, u64), MuteInfo>,
    op: StorageOp,
) -> Map<(u64, u64), MuteInfo> {
    match op {
        StorageOp::UpsertLedger { guild_id, user_id, info } => table.insert(
            (guild_id, user_id),
            info,
        ),
        StorageOp::DeleteLedger { guild_id, user_id } => table.remove((guild_id, user_id)),
    }
}

/// What a batch of storage effects, applied in order, does to the durable
/// ledger table.
pub open spec fn apply_ledger_ops(
    table: Map<(u64, u64), MuteInfo>,
    ops: Seq<StorageOp>,
) -> Map<(u64, u64), MuteInfo>
    decreases ops.len(),
{
    if ops.len() == 0 {
        table
    } else {
        apply_ledger_op(apply_ledger_ops(table, ops.drop_last()), ops.last())
    }
}

/// One cached ledger row.
#[derive(Clone, Copy, PartialEq, Eq, Structural, Debug)]
pub struct CacheEntry {
    pub guild_id: u64,
    pub user_id: u64,
    pub info: MuteInfo,
}

pub open spec fn entry_key(e: CacheEntry) -> (u64, u64) {
    (e.guild_id, e.user_id)
}

/// The mapping a sequence of cached rows represents.
pub open spec fn entries_map(s: Seq<CacheEntry>) -> Map<(u64, u64), MuteInfo>
    decreases s.len(),
{
    if s.len() == 0 {
        Map::empty()
    } else {
        entries_map(s.drop_last()).insert(entry_key(s.last()), s.last().info)
    }
}

pub open spec fn distinct_keys(s: Seq<CacheEntry>) -> bool {
    forall|i: int, j: int| 0 <= i < j < s.len() ==> entry_key(s[i]) != entry_key(s[j])
}

proof fn lemma_entries_map(s: Seq<CacheEntry>)
    requires
        distinct_keys(s),
    ensures
        forall|k: (u64, u64)| #[trigger]
            entries_map(s).contains_key(k) ==> exists|i: int|
                0 <= i < s.len() && entry_key(s[i]) == k,
        forall|i: int|
            0 <= i < s.len() ==> entries_map(s).contains_key(#[trigger] entry_key(s[i]))
                && entries_map(s)[entry_key(s[i])] == s[i].info,
    decreases s.len(),
{
    if s.len() > 0 {
        let dl = s.drop_last();
        assert(forall|i: int| 0 <= i < dl.len() ==> dl[i] == s[i]);
        lemma_entries_map(dl);
        assert forall|i: int| 0 <= i < s.len() implies entries_map(s).contains_key(
            #[trigger] entry_key(s[i]),
        ) && entries_map(s)[entry_key(s[i])] == s[i].info by {
            if i < s.len() - 1 {
                assert(entry_key(s[i]) != entry_key(s.last()));
            }
        }
        assert forall|k: (u64, u64)| #[trigger] entries_map(s).contains_key(k) implies exists|
            i: int,
        | 0 <= i < s.len() && entry_key(s[i]) == k by {
            if k == entry_key(s.last()) {
                assert(entry_key(s[s.len() - 1]) == k);
            } else {
                assert(entries_map(dl).contains_key(k));
                let i = choose|i: int| 0 <= i < dl.len() && entry_key(dl[i]) == k;
                assert(entry_key(s[i]) == k);
            }
        }
    }
}

proof fn lemma_entries_map_push(s: Seq<CacheEntry>, e: CacheEntry)
    requires
        distinct_keys(s),
        forall|i: int| 0 <= i < s.len() ==> entry_key(s[i]) != entry_key(e),
    ensures
        entries_map(s.push(e)) == entries_map(s).insert(entry_key(e), e.info),
        distinct_keys(s.push(e)),
{
    assert(s.push(e).drop_last() =~= s);
    assert(forall|i: int| 0 <= i < s.len() ==> s.push(e)[i] == s[i]);
}

proof fn lemma_entries_map_update(s: Seq<CacheEntry>, i: int, e: CacheEntry)
    requires
        distinct_keys(s),
        0 <= i < s.len(),
        entry_key(e) == entry_key(s[i]),
    ensures
        entries_map(s.update(i, e)) == entries_map(s).insert(entry_key(e), e.info),
        distinct_keys(s.update(i, e)),
    decreases s.len(),
{
    let t = s.update(i, e);
    assert(forall|j: int| 0 <= j < s.len() && j != i ==> t[j] == s[j]);
    if i == s.len() - 1 {
        assert(t.drop_last() =~= s.drop_last());
        assert(entries_map(t) =~= entries_map(s).insert(entry_key(e), e.info));
    } else {
        let dl = s.drop_last();
        assert(forall|j: int| 0 <= j < dl.len() ==> dl[j] == s[j]);
        assert(t.drop_last() =~= dl.update(i, e));
        lemma_entries_map_update(dl, i, e);
        assert(t.last() == s.last());
        assert(entry_key(e) != entry_key(s.last()));
        assert(entries_map(t) =~= entries_map(s).insert(entry_key(e), e.info));
    }
}

proof fn lemma_entries_map_remove(s: Seq<CacheEntry>, i: int)
    requires
        distinct_keys(s),
        0 <= i < s.len(),
    ensures
        entries_map(s.remove(i)) == entries_map(s).remove(entry_key(s[i])),
        distinct_keys(s.remove(i)),
    decreases s.len(),
{
    let t = s.remove(i);
    assert(forall|j: int| 0 <= j < i ==> t[j] == s[j]);
    assert(forall|j: int| i <= j < t.len() ==> t[j] == s[j + 1]);
    lemma_entries_map(s);
    if i == s.len() - 1 {
        let dl = s.drop_last();
        assert(t =~= dl);
        assert(!entries_map(dl).contains_key(entry_key(s.last()))) by {
            assert(forall|j: int| 0 <= j < dl.len() ==> dl[j] == s[j]);
            lemma_entries_map(dl);
        }
        assert(entries_map(t) =~= entries_map(s).remove(entry_key(s[i])));
    } else {
        let dl = s.drop_last();
        assert(forall|j: int| 0 <= j < dl.len() ==> dl[j] == s[j]);
        assert(t.drop_last() =~= dl.remove(i));
        lemma_entries_map_remove(dl, i);
        assert(t.last() == s.last());
        assert(entry_key(s[i]) != entry_key(s.last()));
        assert(entries_map(t) =~= entries_map(s).remove(entry_key(s[i])));
    }
}

/// Reasons a manual streak edit is refused.
#[derive(Clone, Copy, PartialEq, Eq, Structural, Debug)]
pub enum StreakSetError {
    /// The requested value is above the manual bound of sixteen.
    OutOfRange,
    /// The user has no ledger: there is no mute history to modify.
    NoHistory,
}

/// The in-memory guild mute cache, the single source of truth for "is this
/// user currently escalating". Rows are keyed by (guild, user); keys are
/// unique and every stored ledger has a streak of at least one.
pub struct GuildMuteCache {
    entries: Vec<CacheEntry>,
}

impl View for GuildMuteCache {
    type V = Map<(u64, u64), MuteInfo>;

    closed spec fn view(&self) -> Map<(u64, u64), MuteInfo> {
        entries_map(self.entries@)
    }
}

impl GuildMuteCache {
    pub closed spec fn wf(&self) -> bool {
        &&& distinct_keys(self.entries@)
        &&& forall|i: int| 0 <= i < self.entries@.len() ==> (#[trigger] self.entries@[i]).info.wf()
    }

    /// Every ledger a well-formed cache holds records at least one offense.
    pub proof fn lemma_wf_values(&self)
        requires
            self.wf(),
        ensures
            forall|k: (u64, u64)| #[trigger] self@.contains_key(k) ==> self@[k].wf(),
    {
        lemma_entries_map(self.entries@);
    }

    /// An empty cache, for a fresh deployment.
    pub fn new() -> (r: Self)
        ensures
            r.wf(),
            r@ == Map::<(u64, u64), MuteInfo>::empty(),
    {
        GuildMuteCache { entries: Vec::new() }
    }

    fn find(&self, guild_id: u64, user_id: u64) -> (r: Option<usize>)
        requires
            self.wf(),
        ensures
            match r {
                Some(i) => i < self.entries@.len() && entry_key(self.entries@[i as int]) == (
                    guild_id,
                    user_id,
                ) && self@.contains_key((guild_id, user_id)) && self@[(guild_id, user_id)]
                    == self.entries@[i as int].info,
                None => !self@.contains_key((guild_id, user_id)),
            },
    {
        proof {
            lemma_entries_map(self.entries@);
        }
        let mut i: usize = 0;
        while i < self.entries.len()
            invariant
                i <= self.entries@.len(),
                forall|j: int| 0 <= j < i ==> entry_key(self.entries@[j]) != (guild_id, user_id),
                self.wf(),
                forall|k: (u64, u64)| #[trigger]
                    self@.contains_key(k) ==> exists|j: int|
                        0 <= j < self.entries@.len() && entry_key(self.entries@[j]) == k,
                forall|j: int|
                    0 <= j < self.entries@.len() ==> self@.contains_key(
                        #[trigger] entry_key(self.entries@[j]),
                    ) && self@[entry_key(self.entries@[j])] == self.entries@[j].info,
            decreases self.entries@.len() - i,
        {
            let e = &self.entries[i];
            if e.guild_id == guild_id && e.user_id == user_id {
                return Some(i);
            }
            i += 1;
        }
        None
    }

    /// The ledger of one user, if any: `None` is the clean state.
    pub fn get(&self, guild_id: u64, user_id: u64) -> (r: Option<MuteInfo>)
        requires
            self.wf(),
        ensures
            r == if self@.contains_key((guild_id, user_id)) {
                Some(self@[(guild_id, user_id)])
            } else {
                Option::<MuteInfo>::None
            },
    {
        match self.find(guild_id, user_id) {
            Some(i) => Some(self.entries[i].info),
            None => None,
        }
    }

    /// Loads one persisted ledger row while rebuilding the cache at startup.
    /// A row with a zero streak, or whose key is already present, is ignored.
    pub fn load_row(&mut self, guild_id: u64, user_id: u64, info: MuteInfo)
        requires
            old(self).wf(),
        ensures
            final(self).wf(),
            final(self)@ == if old(self)@.contains_key((guild_id, user_id)) || !info.wf() {
                old(self)@
            } else {
                old(self)@.insert((guild_id, user_id), info)
            },
    {
        if info.streak == 0 {
            return ;
        }
        match self.find(guild_id, user_id) {
            Some(_) => {},
            None => {
                proof {
                    lemma_entries_map(self.entries@);
                    lemma_entries_map_push(
                        self.entries@,
                        CacheEntry { guild_id, user_id, info },
                    );
                }
                self.entries.push(CacheEntry { guild_id, user_id, info });
            },
        }
    }

    /// One escalation for this user, creating the ledger on a first offense:
    /// the atomic get-or-create-and-escalate of the repository. Returns the
    /// new ledger, the mute duration for the notification, and the storage
    /// effects that keep the durable table in agreement.
    pub fn mute(&mut self, guild_id: u64, user_id: u64, now: u64) -> (r: (
        MuteInfo,
        u64,
        Vec<StorageOp>,
    ))
        requires
            old(self).wf(),
        ensures
            final(self).wf(),
            ({
                let prev = if old(self)@.contains_key((guild_id, user_id)) {
                    old(self)@[(guild_id, user_id)]
                } else {
                    MuteInfo::clean()
                };
                &&& r.0 == escalate_spec(prev, now)
                &&& r.1 == escalate_duration(r.0.streak)
                &&& final(self)@ == old(self)@.insert((guild_id, user_id), r.0)
                &&& r.2@ == seq![StorageOp::UpsertLedger { guild_id, user_id, info: r.0 }]
                &&& apply_ledger_ops(old(self)@, r.2@) == final(self)@
            }),
    {
        let found = self.find(guild_id, user_id);
        let prev = match found {
            Some(i) => self.entries[i].info,
            None => MuteInfo { streak: 0, streak_time: 0, mute_until: 0 },
        };
        let (info, duration) = prev.escalated(now);
        let e = CacheEntry { guild_id, user_id, info };
        match found {
            Some(i) => {
                proof {
                    lemma_entries_map_update(self.entries@, i as int, e);
                }
                self.entries[i] = e;
            },
            None => {
                proof {
                    lemma_entries_map(self.entries@);
                    lemma_entries_map_push(self.entries@, e);
                }
                self.entries.push(e);
            },
        }
        let mut ops: Vec<StorageOp> = Vec::new();
        ops.push(StorageOp::UpsertLedger { guild_id, user_id, info });
        proof {
            assert(ops@ =~= seq![StorageOp::UpsertLedger { guild_id, user_id, info }]);
            assert(ops@.drop_last() =~= Seq::<StorageOp>::empty());
            assert(apply_ledger_ops(old(self)@, Seq::<StorageOp>::empty()) == old(self)@);
        }
        (info, duration, ops)
    }

    /// Removes a user's ledger from the cache, returning the effect that
    /// removes the durable row as well.
    pub fn remove(&mut self, guild_id: u64, user_id: u64) -> (ops: Vec<StorageOp>)
        requires
            old(self).wf(),
        ensures
            final(self).wf(),
            final(self)@ == old(self)@.remove((guild_id, user_id)),
            apply_ledger_ops(old(self)@, ops@) == final(self)@,
            ops@ == if old(self)@.contains_key((guild_id, user_id)) {
                seq![StorageOp::DeleteLedger { guild_id, user_id }]
            } else {
                Seq::<StorageOp>::empty()
            },
    {
        let mut ops: Vec<StorageOp> = Vec::new();
        match self.find(guild_id, user_id) {
            Some(i) => {
                proof {
                    lemma_entries_map_remove(self.entries@, i as int);
                }
                self.entries.remove(i);
                ops.push(StorageOp::DeleteLedger { guild_id, user_id });
                proof {
                    assert(ops@ =~= seq![StorageOp::DeleteLedger { guild_id, user_id }]);
                    assert(ops@.drop_last() =~= Seq::<StorageOp>::empty());
                    assert(apply_ledger_ops(old(self)@, Seq::<StorageOp>::empty()) == old(self)@);
                }
            },
            None => {
                proof {
                    assert(ops@ =~= Seq::<StorageOp>::empty());
                    assert(apply_ledger_ops(old(self)@, Seq::<StorageOp>::empty()) == old(self)@);
                    assert(old(self)@ =~= old(self)@.remove((guild_id, user_id)));
                }
            },
        }
        ops
    }

    /// A moderator's manual streak edit: sets the streak and restarts the
    /// streak clock. Values above sixteen are refused; a user with no ledger
    /// has no history to modify and is refused rather than silently created;
    /// setting zero retires the ledger entirely.
    pub fn set_streak(&mut self, guild_id: u64, user_id: u64, value: u64, now: u64) -> (r: Result<
        Vec<StorageOp>,
        StreakSetError,
    >)
        requires
            old(self).wf(),
        ensures
            final(self).wf(),
            value > MAX_MANUAL_STREAK ==> r == Result::<Vec<StorageOp>, StreakSetError>::Err(
                StreakSetError::OutOfRange,
            ) && final(self)@ == old(self)@,
            value <= MAX_MANUAL_STREAK && !old(self)@.contains_key((guild_id, user_id)) ==> r
                == Result::<Vec<StorageOp>, StreakSetError>::Err(StreakSetError::NoHistory)
                && final(self)@ == old(self)@,
            value <= MAX_MANUAL_STREAK && old(self)@.contains_key((guild_id, user_id)) ==> {
                &&& r is Ok
                &&& final(self)@ == if value == 0 {
                    old(self)@.remove((guild_id, user_id))
                } else {
                    old(self)@.insert(
                        (guild_id, user_id),
                        MuteInfo {
                            streak: value,
                            streak_time: now,
                            mute_until: old(self)@[(guild_id, user_id)].mute_until,
                        },
                    )
                }
                &&& apply_ledger_ops(old(self)@, r->Ok_0@) == final(self)@
            },
    {
        if value > MAX_MANUAL_STREAK {
            return Err(StreakSetError::OutOfRange);
        }
        match self.find(guild_id, user_id) {
            None => Err(StreakSetError::NoHistory),
            Some(i) => {
                if value == 0 {
                    let ops = self.remove(guild_id, user_id);
                    Ok(ops)
                } else {
                    let info = MuteInfo {
                        streak: value,
                        streak_time: now,
                        mute_until: self.entries[i].info.mute_until,
                    };
                    let e = CacheEntry { guild_id, user_id, info };
                    proof {
                        lemma_entries_map_update(self.entries@, i as int, e);
                    }
                    self.entries[i] = e;
                    let mut ops: Vec<StorageOp> = Vec::new();
                    ops.push(StorageOp::UpsertLedger { guild_id, user_id, info });
                    proof {
                        assert(ops@ =~= seq![StorageOp::UpsertLedger { guild_id, user_id, info }]);
                        assert(ops@.drop_last() =~= Seq::<StorageOp>::empty());
                    assert(apply_ledger_ops(old(self)@, Seq::<StorageOp>::empty()) == old(self)@);
                    }
                    Ok(ops)
                }
            },
        }
    }
}

/// One user unmuted by a sweep pass: the caller reverses the permission
/// overwrites in the guild's whitelisted channels and notifies the user.
#[derive(Clone, Copy, PartialEq, Eq, Structural, Debug)]
pub struct UnmuteEvent {
    pub guild_id: u64,
    pub user_id: u64,
}

/// The row a sweep pass leaves for one cached entry, if any.
pub open spec fn swept_entry_result(e: CacheEntry, now: u64) -> Option<CacheEntry> {
    match sweep_entry_spec(e.info, now).1 {
        Some(m) => Some(CacheEntry { guild_id: e.guild_id, user_id: e.user_id, info: m }),
        None => None,
    }
}

/// The rows a sweep pass leaves, in order.
pub open spec fn swept_entries(s: Seq<CacheEntry>, now: u64) -> Seq<CacheEntry>
    decreases s.len(),
{
    if s.len() == 0 {
        Seq::empty()
    } else {
        swept_entries(s.drop_last(), now) + (match swept_entry_result(s.last(), now) {
            Some(e) => seq![e],
            None => Seq::<CacheEntry>::empty(),
        })
    }
}

/// The storage effects one swept entry needs: a delete when the ledger is
/// retired, an upsert when it changed, nothing when it did not.
pub open spec fn entry_ops(e: CacheEntry, now: u64) -> Seq<StorageOp> {
    match sweep_entry_spec(e.info, now).1 {
        None => seq![StorageOp::DeleteLedger { guild_id: e.guild_id, user_id: e.user_id }],
        Some(m) => if m != e.info {
            seq![StorageOp::UpsertLedger { guild_id: e.guild_id, user_id: e.user_id, info: m }]
        } else {
            Seq::<StorageOp>::empty()
        },
    }
}

pub open spec fn swept_ops(s: Seq<CacheEntry>, now: u64) -> Seq<StorageOp>
    decreases s.len(),
{
    if s.len() == 0 {
        Seq::empty()
    } else {
        swept_ops(s.drop_last(), now) + entry_ops(s.last(), now)
    }
}

pub open spec fn entry_events(e: CacheEntry, now: u64) -> Seq<UnmuteEvent> {
    if sweep_entry_spec(e.info, now).0 {
        seq![UnmuteEvent { guild_id: e.guild_id, user_id: e.user_id }]
    } else {
        Seq::<UnmuteEvent>::empty()
    }
}

pub open spec fn swept_events(s: Seq<CacheEntry>, now: u64) -> Seq<UnmuteEvent>
    decreases s.len(),
{
    if s.len() == 0 {
        Seq::empty()
    } else {
        swept_events(s.drop_last(), now) + entry_events(s.last(), now)
    }
}

/// Applying a batch of effects is applying its two halves in order.
pub proof fn lemma_apply_ops_concat(
    table: Map<(u64, u64), MuteInfo>,
    a: Seq<StorageOp>,
    b: Seq<StorageOp>,
)
    ensures
        apply_ledger_ops(table, a + b) == apply_ledger_ops(apply_ledger_ops(table, a), b),
    decreases b.len(),
{
    if b.len() == 0 {
        assert(a + b =~= a);
    } else {
        assert((a + b).drop_last() =~= a + b.drop_last());
        assert((a + b).last() == b.last());
        lemma_apply_ops_concat(table, a, b.drop_last());
    }
}

/// Effects that never touch key `k` commute with an insert at `k`.
proof fn lemma_apply_ops_untouched(
    table: Map<(u64, u64), MuteInfo>,
    ops: Seq<StorageOp>,
    k: (u64, u64),
    v: MuteInfo,
)
    requires
        forall|i: int| 0 <= i < ops.len() ==> op_key(#[trigger] ops[i]) != k,
    ensures
        apply_ledger_ops(table.insert(k, v), ops) == apply_ledger_ops(table, ops).insert(k, v),
    decreases ops.len(),
{
    if ops.len() > 0 {
        let dl = ops.drop_last();
        assert(forall|i: int| 0 <= i < dl.len() ==> dl[i] == ops[i]);
        lemma_apply_ops_untouched(table, dl, k, v);
        let m = apply_ledger_ops(table, dl);
        assert(op_key(ops[ops.len() - 1]) != k);
        match ops.last() {
            StorageOp::UpsertLedger { guild_id, user_id, info } => {
                assert(m.insert(k, v).insert((guild_id, user_id), info) =~= m.insert(
                    (guild_id, user_id),
                    info,
                ).insert(k, v));
            },
            StorageOp::DeleteLedger { guild_id, user_id } => {
                assert(m.insert(k, v).remove((guild_id, user_id)) =~= m.remove(
                    (guild_id, user_id),
                ).insert(k, v));
            },
        }
    }
}

proof fn lemma_swept(s: Seq<CacheEntry>, now: u64)
    requires
        distinct_keys(s),
        forall|i: int| 0 <= i < s.len() ==> (#[trigger] s[i]).info.wf(),
    ensures
        distinct_keys(swept_entries(s, now)),
        forall|i: int|
            0 <= i < swept_entries(s, now).len() ==> (#[trigger] swept_entries(s, now)[i]).info.wf(),
        forall|k: (u64, u64)| #[trigger]
            entries_map(swept_entries(s, now)).contains_key(k) ==> entries_map(s).contains_key(k),
        forall|k: (u64, u64)| #[trigger]
            entries_map(s).contains_key(k) ==> match sweep_entry_spec(entries_map(s)[k], now).1 {
                Some(m) => entries_map(swept_entries(s, now)).contains_key(k) && entries_map(
                    swept_entries(s, now),
                )[k] == m,
                None => !entries_map(swept_entries(s, now)).contains_key(k),
            },
        forall|i: int|
            0 <= i < swept_ops(s, now).len() ==> entries_map(s).contains_key(
                op_key(#[trigger] swept_ops(s, now)[i]),
            ),
        apply_ledger_ops(entries_map(s), swept_ops(s, now)) == entries_map(swept_entries(s, now)),
        forall|j: int|
            0 <= j < swept_events(s, now).len() ==> {
                let ev = #[trigger] swept_events(s, now)[j];
                entries_map(s).contains_key((ev.guild_id, ev.user_id)) && sweep_entry_spec(
                    entries_map(s)[(ev.guild_id, ev.user_id)],
                    now,
                ).0
            },
        forall|k: (u64, u64)|
            entries_map(s).contains_key(k) && sweep_entry_spec(
                #[trigger] entries_map(s)[k],
                now,
            ).0 ==> swept_events(s, now).contains(UnmuteEvent { guild_id: k.0, user_id: k.1 }),
    decreases s.len(),
{
    if s.len() > 0 {
        let dl = s.drop_last();
        let e = s.last();
        let k_last = entry_key(e);
        assert(forall|i: int| 0 <= i < dl.len() ==> dl[i] == s[i]);
        lemma_swept(dl, now);
        lemma_entries_map(s);
        lemma_entries_map(dl);
        let sw_dl = swept_entries(dl, now);
        let sw = swept_entries(s, now);
        assert(!entries_map(dl).contains_key(k_last)) by {
            if entries_map(dl).contains_key(k_last) {
                let i = choose|i: int| 0 <= i < dl.len() && entry_key(dl[i]) == k_last;
                assert(entry_key(s[i]) == entry_key(s[s.len() - 1]));
            }
        }
        assert(!entries_map(sw_dl).contains_key(k_last));
        assert(entries_map(s) == entries_map(dl).insert(k_last, e.info));
        lemma_entries_map(sw_dl);

        // The rows the sweep leaves, and their map.
        match swept_entry_result(e, now) {
            Some(e2) => {
                assert(sw =~= sw_dl.push(e2));
                assert forall|i: int| 0 <= i < sw_dl.len() implies entry_key(sw_dl[i])
                    != entry_key(e2) by {
                    assert(entries_map(sw_dl).contains_key(entry_key(sw_dl[i])));
                }
                lemma_entries_map_push(sw_dl, e2);
                assert(entries_map(sw) == entries_map(sw_dl).insert(k_last, e2.info));
            },
            None => {
                assert(sw =~= sw_dl);
            },
        }

        // The storage effects do to the table exactly what the sweep did to
        // the cache.
        assert(swept_ops(s, now) == swept_ops(dl, now) + entry_ops(e, now));
        lemma_apply_ops_concat(entries_map(s), swept_ops(dl, now), entry_ops(e, now));
        assert forall|i: int| 0 <= i < swept_ops(dl, now).len() implies op_key(
            #[trigger] swept_ops(dl, now)[i],
        ) != k_last by {
            assert(entries_map(dl).contains_key(op_key(swept_ops(dl, now)[i])));
        }
        lemma_apply_ops_untouched(entries_map(dl), swept_ops(dl, now), k_last, e.info);
        assert(apply_ledger_ops(entries_map(s), swept_ops(dl, now)) == entries_map(
            sw_dl,
        ).insert(k_last, e.info));
        let mid = entries_map(sw_dl).insert(k_last, e.info);
        match sweep_entry_spec(e.info, now).1 {
            None => {
                assert(entry_ops(e, now) =~= seq![
                    StorageOp::DeleteLedger { guild_id: e.guild_id, user_id: e.user_id },
                ]);
                assert(entry_ops(e, now).drop_last() =~= Seq::<StorageOp>::empty());
                assert(apply_ledger_ops(mid, Seq::<StorageOp>::empty()) == mid);
                assert(apply_ledger_ops(mid, entry_ops(e, now)) == mid.remove(k_last));
                assert(mid.remove(k_last) =~= entries_map(sw_dl));
            },
            Some(m) => {
                if m != e.info {
                    assert(entry_ops(e, now).drop_last() =~= Seq::<StorageOp>::empty());
                    assert(apply_ledger_ops(mid, Seq::<StorageOp>::empty()) == mid);
                    assert(apply_ledger_ops(mid, entry_ops(e, now)) == mid.insert(k_last, m));
                    assert(mid.insert(k_last, m) =~= entries_map(sw_dl).insert(k_last, m));
                } else {
                    assert(entry_ops(e, now) =~= Seq::<StorageOp>::empty());
                    assert(apply_ledger_ops(mid, entry_ops(e, now)) == mid);
                }
            },
        }

        // Which users the sweep reports unmuted.
        assert(swept_events(s, now) == swept_events(dl, now) + entry_events(e, now));
        let evs_dl = swept_events(dl, now);
        let evs = swept_events(s, now);
        assert(forall|j: int| 0 <= j < evs_dl.len() ==> evs[j] == evs_dl[j]);
        assert forall|j: int| 0 <= j < evs.len() implies {
            let ev = #[trigger] evs[j];
            entries_map(s).contains_key((ev.guild_id, ev.user_id)) && sweep_entry_spec(
                entries_map(s)[(ev.guild_id, ev.user_id)],
                now,
            ).0
        } by {
            if j < evs_dl.len() {
                let ev = evs_dl[j];
                assert(entries_map(dl).contains_key((ev.guild_id, ev.user_id)));
                assert((ev.guild_id, ev.user_id) != k_last);
            } else {
                assert(sweep_entry_spec(e.info, now).0);
                assert(evs[j] == UnmuteEvent { guild_id: e.guild_id, user_id: e.user_id });
            }
        }
        assert forall|k: (u64, u64)|
            entries_map(s).contains_key(k) && sweep_entry_spec(
                #[trigger] entries_map(s)[k],
                now,
            ).0 implies evs.contains(UnmuteEvent { guild_id: k.0, user_id: k.1 }) by {
            let ev = UnmuteEvent { guild_id: k.0, user_id: k.1 };
            if k == k_last {
                assert(evs[evs_dl.len() as int] == ev);
            } else {
                assert(entries_map(dl).contains_key(k));
                assert(evs_dl.contains(ev));
                let j = choose|j: int| 0 <= j < evs_dl.len() && evs_dl[j] == ev;
                assert(evs[j] == ev);
            }
        }
    }
}

/// A ledger whose streak fully decays in one pass is retired outright.
pub proof fn lemma_full_decay_retires(m: MuteInfo, now: u64)
    requires
        now >= DECAY_PERIOD_SECS,
        now - DECAY_PERIOD_SECS >= m.streak_time,
        (now - m.streak_time) / (DECAY_PERIOD_SECS as int) >= m.streak,
    ensures
        sweep_entry_spec(m, now).1 is None,
{
}

impl GuildMuteCache {
    /// One pass of the decay sweeper over every cached ledger: each entry
    /// takes the unmute check against its pre-decay deadline, then the
    /// independent streak decay; a ledger decaying to zero is removed from
    /// the cache and, through the returned effects, from storage. The events
    /// name exactly the users whose mute expired in this pass.
    pub fn sweep(&mut self, now: u64) -> (r: (Vec<UnmuteEvent>, Vec<StorageOp>))
        requires
            old(self).wf(),
        ensures
            final(self).wf(),
            forall|k: (u64, u64)| #[trigger]
                old(self)@.contains_key(k) ==> match sweep_entry_spec(old(self)@[k], now).1 {
                    Some(m) => final(self)@.contains_key(k) && final(self)@[k] == m,
                    None => !final(self)@.contains_key(k),
                },
            forall|k: (u64, u64)| #[trigger]
                final(self)@.contains_key(k) ==> old(self)@.contains_key(k),
            apply_ledger_ops(old(self)@, r.1@) == final(self)@,
            forall|j: int|
                0 <= j < r.0@.len() ==> {
                    let ev = #[trigger] r.0@[j];
                    old(self)@.contains_key((ev.guild_id, ev.user_id)) && sweep_entry_spec(
                        old(self)@[(ev.guild_id, ev.user_id)],
                        now,
                    ).0
                },
            forall|k: (u64, u64)|
                old(self)@.contains_key(k) && sweep_entry_spec(
                    #[trigger] old(self)@[k],
                    now,
                ).0 ==> r.0@.contains(UnmuteEvent { guild_id: k.0, user_id: k.1 }),
    {
        let mut kept: Vec<CacheEntry> = Vec::new();
        let mut events: Vec<UnmuteEvent> = Vec::new();
        let mut ops: Vec<StorageOp> = Vec::new();
        let n = self.entries.len();
        let mut i: usize = 0;
        while i < n
            invariant
                i <= n,
                n == self.entries@.len(),
                self.entries@ == old(self).entries@,
                kept@ == swept_entries(self.entries@.take(i as int), now),
                ops@ == swept_ops(self.entries@.take(i as int), now),
                events@ == swept_events(self.entries@.take(i as int), now),
            decreases n - i,
        {
            let ghost prefix = self.entries@.take(i as int);
            let e = self.entries[i];
            let (unmuted, res) = e.info.sweep_entry(now);
            if unmuted {
                events.push(UnmuteEvent { guild_id: e.guild_id, user_id: e.user_id });
            }
            match res {
                Some(m) => {
                    kept.push(CacheEntry { guild_id: e.guild_id, user_id: e.user_id, info: m });
                    if m != e.info {
                        ops.push(
                            StorageOp::UpsertLedger {
                                guild_id: e.guild_id,
                                user_id: e.user_id,
                                info: m,
                            },
                        );
                    }
                },
                None => {
                    ops.push(StorageOp::DeleteLedger { guild_id: e.guild_id, user_id: e.user_id });
                },
            }
            proof {
                let next = self.entries@.take(i as int + 1);
                assert(next.drop_last() =~= prefix);
                assert(next.last() == self.entries@[i as int]);
                assert(kept@ =~= swept_entries(next, now));
                assert(ops@ =~= swept_ops(next, now));
                assert(events@ =~= swept_events(next, now));
            }
            i += 1;
        }
        proof {
            assert(old(self).entries@.take(n as int) =~= old(self).entries@);
            lemma_swept(old(self).entries@, now);
            lemma_entries_map(old(self).entries@);
        }
        self.entries = kept;
        (events, ops)
    }
}

} // verus!
