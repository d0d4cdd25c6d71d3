//! The duplicate registry: the durable, append-only set of every content
//! fingerprint seen so far. Existence alone is the signal; entries are never
//! deleted, and recording a fingerprint twice is a harmless no-op.

use vstd::prelude::*;

verus! {

/// A storage effect on the durable fingerprint table.
#[derive(Clone, Copy, PartialEq, Eq, Structural, Debug)]
pub enum RegistryOp {
    InsertFingerprint { fingerprint: u128 },
}

/// The in-memory mirror of the durable fingerprint table.
pub struct DuplicateRegistry {
    fingerprints: Vec<u128>,
}

impl View for DuplicateRegistry {
    type V = Set<u128>;

    closed spec fn view(&self) -> Set<u128> {
        self.fingerprints@.to_set()
    }
}

/// Applies a registry storage effect to the durable fingerprint set.
pub open spec fn apply_registry_op(table: Set<u128>, op: RegistryOp) -> Set<u128> {
    match op {
        RegistryOp::InsertFingerprint { fingerprint } => table.insert(fingerprint),
    }
}

impl DuplicateRegistry {
    /// An empty registry, for a fresh deployment.
    pub fn new() -> (r: Self)
        ensures
            r@ == Set::<u128>::empty(),
    {
        let r = DuplicateRegistry { fingerprints: Vec::new() };
        proof {
            assert(r@ =~= Set::<u128>::empty());
        }
        r
    }

    /// Rebuilds the registry from the persisted fingerprint rows.
    pub fn from_rows(rows: Vec<u128>) -> (r: Self)
        ensures
            r@ == rows@.to_set(),
    {
        DuplicateRegistry { fingerprints: rows }
    }

    /// Whether this fingerprint has been seen before.
    pub fn seen(&self, fingerprint: u128) -> (r: bool)
        ensures
            r == self@.contains(fingerprint),
    {
        let mut i: usize = 0;
        while i < self.fingerprints.len()
            invariant
                i <= self.fingerprints@.len(),
                forall|k: int| 0 <= k < i ==> self.fingerprints@[k] != fingerprint,
            decreases self.fingerprints@.len() - i,
        {
            if self.fingerprints[i] == fingerprint {
                return true;
            }
            i += 1;
        }
        false
    }

    /// Records a fingerprint. Idempotent: recording one already seen changes
    /// nothing and writes nothing, so an insert racing with another insert of
    /// the same value is harmless. Returns the storage effect, if any; the
    /// registry is append-only, so the effect is only ever an insert.
    pub fn record(&mut self, fingerprint: u128) -> (op: Option<RegistryOp>)
        ensures
            final(self)@ == old(self)@.insert(fingerprint),
            final(self)@.contains(fingerprint),
            op is Some <==> !old(self)@.contains(fingerprint),
            match op {
                Some(o) => o == (RegistryOp::InsertFingerprint { fingerprint })
                    && apply_registry_op(old(self)@, o) == final(self)@,
                None => final(self)@ == old(self)@,
            },
    {
        if self.seen(fingerprint) {
            proof {
                assert(self@ =~= self@.insert(fingerprint));
            }
            None
        } else {
            self.fingerprints.push(fingerprint);
            proof {
                let s0 = old(self).fingerprints@;
                let s1 = self.fingerprints@;
                assert forall|a: u128| s1.contains(a) implies s0.contains(a) || a
                    == fingerprint by {
                    let i = choose|i: int| 0 <= i < s1.len() && s1[i] == a;
                    if i < s0.len() {
                        assert(s0[i] == a);
                    }
                }
                assert forall|a: u128| s0.contains(a) implies s1.contains(a) by {
                    let i = choose|i: int| 0 <= i < s0.len() && s0[i] == a;
                    assert(s1[i] == a);
                }
                assert(s1[s0.len() as int] == fingerprint);
                assert(self@ =~= old(self)@.insert(fingerprint));
            }
            Some(RegistryOp::InsertFingerprint { fingerprint })
        }
    }
}

/// Recording is idempotent: a second `record` of the same fingerprint leaves
/// the registry exactly as the first left it, and the fingerprint is seen
/// after either call.
pub proof fn lemma_record_idempotent(table: Set<u128>, fingerprint: u128)
    ensures
        table.insert(fingerprint).insert(fingerprint) == table.insert(fingerprint),
        table.insert(fingerprint).contains(fingerprint),
{
    assert(table.insert(fingerprint).insert(fingerprint) =~= table.insert(fingerprint));
}

} // verus!
