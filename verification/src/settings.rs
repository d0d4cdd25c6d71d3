//! Per-guild settings decisions: the channel whitelist that gates duplicate
//! enforcement, the global-dataset opt-in, and the command prefix.

use vstd::prelude::*;

verus! {

/// Informational replies with no setting attached.
#[derive(Clone, Copy, PartialEq, Eq, Structural, Debug)]
pub enum Meta {
    Ping,
}

/// The outcome a settings command reports back to the invoking moderator.
#[derive(Clone, Copy, PartialEq, Eq, Structural, Debug)]
pub enum Setting {
    CurrentPrefix,
    ChangedPrefix,
    AddedChannel,
    RemovedChannel,
    NoChannel,
    Malformed,
    EnabledGlobal,
    DisabledGlobal,
}

/// A storage effect on a guild's whitelisted-channel table.
#[derive(Clone, Copy, PartialEq, Eq, Structural, Debug)]
pub enum ChannelOp {
    InsertChannel { channel_id: u64 },
    DeleteChannel { channel_id: u64 },
}

/// What one effect does to the durable whitelisted-channel table.
pub open spec fn apply_channel_op(table: Set<u64>, op: ChannelOp) -> Set<u64> {
    match op {
        ChannelOp::InsertChannel { channel_id } => table.insert(channel_id),
        ChannelOp::DeleteChannel { channel_id } => table.remove(channel_id),
    }
}

/// The channels of one guild where duplicate enforcement acts, mirrored to
/// the guild's durable channel table. Channel ids are unique.
pub struct ChannelWhitelist {
    channels: Vec<u64>,
}

impl View for ChannelWhitelist {
    type V = Seq<u64>;

    closed spec fn view(&self) -> Seq<u64> {
        self.channels@
    }
}

impl ChannelWhitelist {
    pub open spec fn wf(&self) -> bool {
        forall|i: int, j: int| 0 <= i < j < self@.len() ==> self@[i] != self@[j]
    }

    /// An empty whitelist: enforcement acts nowhere.
    pub fn new() -> (r: Self)
        ensures
            r.wf(),
            r@ == Seq::<u64>::empty(),
    {
        ChannelWhitelist { channels: Vec::new() }
    }

    /// Rebuilds the whitelist from the persisted channel rows, ignoring any
    /// duplicate of a row already loaded.
    pub fn from_rows(rows: &Vec<u64>) -> (r: Self)
        ensures
            r.wf(),
            forall|c: u64| r@.contains(c) <==> rows@.contains(c),
    {
        let mut w = ChannelWhitelist { channels: Vec::new() };
        let mut i: usize = 0;
        while i < rows.len()
            invariant
                i <= rows@.len(),
                w.wf(),
                forall|c: u64| #[trigger] w@.contains(c) ==> rows@.contains(c),
                forall|j: int| 0 <= j < i ==> w@.contains(#[trigger] rows@[j]),
            decreases rows@.len() - i,
        {
            let ghost prev = w@;
            let c = rows[i];
            let already = w.contains(c);
            if !already {
                w.channels.push(c);
                proof {
                    assert(forall|j: int| 0 <= j < prev.len() ==> w@[j] == prev[j]);
                    assert(w@[prev.len() as int] == c);
                    assert forall|x: u64| #[trigger] w@.contains(x) implies prev.contains(x) || x
                        == c by {
                        let j = choose|j: int| 0 <= j < w@.len() && w@[j] == x;
                        if j < prev.len() {
                            assert(prev[j] == x);
                        }
                    }
                    assert forall|x: u64| prev.contains(x) implies w@.contains(x) by {
                        let j = choose|j: int| 0 <= j < prev.len() && prev[j] == x;
                        assert(w@[j] == x);
                    }
                    assert(forall|j: int| 0 <= j < prev.len() ==> prev[j] != c);
                }
            }
            proof {
                assert(rows@[i as int] == c);
                assert(w@.contains(c)) by {
                    if already {
                        assert(prev.contains(c));
                        let j = choose|j: int| 0 <= j < prev.len() && prev[j] == c;
                        assert(w@[j] == c);
                    } else {
                        assert(w@[prev.len() as int] == c);
                    }
                }
            }
            i += 1;
        }
        proof {
            assert forall|c: u64| rows@.contains(c) implies w@.contains(c) by {
                let j = choose|j: int| 0 <= j < rows@.len() && rows@[j] == c;
                assert(w@.contains(rows@[j]));
            }
        }
        w
    }

    /// Whether enforcement acts in this channel.
    pub fn contains(&self, channel_id: u64) -> (r: bool)
        ensures
            r == self@.contains(channel_id),
    {
        let mut i: usize = 0;
        while i < self.channels.len()
            invariant
                i <= self.channels@.len(),
                forall|j: int| 0 <= j < i ==> self.channels@[j] != channel_id,
            decreases self.channels@.len() - i,
        {
            if self.channels[i] == channel_id {
                return true;
            }
            i += 1;
        }
        false
    }

    /// The whitelisted channels, in order.
    pub fn channels(&self) -> (r: &Vec<u64>)
        ensures
            r@ == self@,
    {
        &self.channels
    }

    /// Adds the channel if it is not whitelisted, removes it if it is, and
    /// says which was done, with the effect that keeps the guild's durable
    /// channel table in agreement.
    pub fn toggle(&mut self, channel_id: u64) -> (r: (Setting, ChannelOp))
        requires
            old(self).wf(),
        ensures
            final(self).wf(),
            r.0 == Setting::AddedChannel || r.0 == Setting::RemovedChannel,
            r.0 == Setting::AddedChannel <==> !old(self)@.contains(channel_id),
            r.0 == Setting::AddedChannel ==> final(self)@ == old(self)@.push(channel_id) && r.1 == (
            ChannelOp::InsertChannel { channel_id }),
            r.0 == Setting::RemovedChannel ==> (forall|c: u64|
                final(self)@.contains(c) <==> (old(self)@.contains(c) && c != channel_id)) && r.1
                == (ChannelOp::DeleteChannel { channel_id }),
            apply_channel_op(old(self)@.to_set(), r.1) == final(self)@.to_set(),
    {
        let ghost prev = self@;
        let mut i: usize = 0;
        while i < self.channels.len()
            invariant
                i <= self.channels@.len(),
                forall|j: int| 0 <= j < i ==> self.channels@[j] != channel_id,
                self.wf(),
                self@ == prev,
                prev == old(self)@,
            decreases self.channels@.len() - i,
        {
            if self.channels[i] == channel_id {
                proof {
                    assert(prev[i as int] == channel_id);
                    assert(prev.contains(channel_id));
                }
                self.channels.remove(i);
                proof {
                    assert(forall|j: int| 0 <= j < i ==> self@[j] == prev[j]);
                    assert(forall|j: int| i <= j < self@.len() ==> self@[j] == prev[j + 1]);
                    assert forall|c: u64| self@.contains(c) implies prev.contains(c) && c
                        != channel_id by {
                        let j = choose|j: int| 0 <= j < self@.len() && self@[j] == c;
                        if j < i {
                            assert(prev[j] == c);
                        } else {
                            assert(prev[j + 1] == c);
                        }
                    }
                    assert forall|c: u64| prev.contains(c) && c != channel_id implies self@
                        .contains(c) by {
                        let j = choose|j: int| 0 <= j < prev.len() && prev[j] == c;
                        if j < i {
                            assert(self@[j] == c);
                        } else {
                            assert(prev[i as int] == channel_id);
                            assert(self@[j - 1] == c);
                        }
                    }
                    assert(apply_channel_op(prev.to_set(), ChannelOp::DeleteChannel { channel_id })
                        =~= self@.to_set());
                }
                return (Setting::RemovedChannel, ChannelOp::DeleteChannel { channel_id });
            }
            i += 1;
        }
        self.channels.push(channel_id);
        proof {
            assert(forall|j: int| 0 <= j < prev.len() ==> self@[j] == prev[j]);
            assert forall|c: u64| prev.contains(c) implies self@.contains(c) by {
                let j = choose|j: int| 0 <= j < prev.len() && prev[j] == c;
                assert(self@[j] == c);
            }
            assert forall|c: u64| self@.contains(c) implies prev.contains(c) || c
                == channel_id by {
                let j = choose|j: int| 0 <= j < self@.len() && self@[j] == c;
                if j < prev.len() {
                    assert(prev[j] == c);
                }
            }
            assert(self@[prev.len() as int] == channel_id);
            assert(apply_channel_op(prev.to_set(), ChannelOp::InsertChannel { channel_id }) =~= self@
                .to_set());
        }
        (Setting::AddedChannel, ChannelOp::InsertChannel { channel_id })
    }
}

/// The default command prefix, used before a guild stores its own.
pub open spec fn default_prefix() -> Seq<char> {
    "9!"@
}

/// The prefix to use for a guild: the stored one, or the default when the
/// guild has no settings row yet. The second component says whether a
/// default settings row must be inserted for the guild.
pub fn prefix_or_default(stored: Option<String>) -> (r: (String, bool))
    ensures
        match stored {
            Some(p) => r.0@ == p@ && !r.1,
            None => r.0@ == default_prefix() && r.1,
        },
{
    match stored {
        Some(p) => (p, false),
        None => (String::from_str("9!"), true),
    }
}

/// Toggles the guild's use of the shared global fingerprint dataset and
/// says which way it switched.
pub fn toggle_global(current: bool) -> (r: (bool, Setting))
    ensures
        r.0 == !current,
        r.1 == if current {
            Setting::DisabledGlobal
        } else {
            Setting::EnabledGlobal
        },
{
    if current {
        (false, Setting::DisabledGlobal)
    } else {
        (true, Setting::EnabledGlobal)
    }
}

} // verus!
