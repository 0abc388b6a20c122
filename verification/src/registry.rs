//! The connection registry: a mapping from connection identity to that
//! connection's outbound sink.
//!
//! Keys are unique at all times and no ordering is significant. Mutation and
//! snapshotting never expose a half-inserted or half-removed entry; the
//! caller guards the whole structure with one exclusion mechanism and holds
//! it only while mutating or copying, never across I/O.

use vstd::prelude::*;
use vstd::seq_lib::group_seq_properties;
use crate::channel::clone_sender;
use crate::frame::Frame;
use futures_channel::mpsc::UnboundedSender;

verus! {

/// One registered connection: its identity paired with a shared handle to
/// its outbound sink. Identities are opaque unique tokens; they are never
/// reused while the connection is registered.
pub struct RegistryEntry {
    pub id: u64,
    pub sink: UnboundedSender<Frame>,
}

/// The identities of a sequence of entries, in sequence order.
pub open spec fn entry_ids(entries: Seq<RegistryEntry>) -> Seq<u64> {
    entries.map_values(|e: RegistryEntry| e.id)
}

/// Keeps every identity other than `excluding`.
pub open spec fn keeps(excluding: u64) -> spec_fn(u64) -> bool {
    |x: u64| x != excluding
}

/// The identities among `ids` other than `excluding`, in their original
/// order. This is the target set of one broadcast fan-out.
pub open spec fn others(ids: Seq<u64>, excluding: u64) -> Seq<u64> {
    ids.filter(keeps(excluding))
}

/// Mapping from connection identity to outbound sink.
pub struct Registry {
    entries: Vec<RegistryEntry>,
}

impl Registry {
    /// The registered identities, in insertion order.
    pub closed spec fn ids(self) -> Seq<u64> {
        entry_ids(self.entries@)
    }

    /// Well-formed: identities are unique.
    pub open spec fn wf(self) -> bool {
        forall|i: int, j: int|
            0 <= i < j < self.ids().len() ==> self.ids()[i] != self.ids()[j]
    }

    /// An empty registry.
    pub fn new() -> (r: Registry)
        ensures
            r.wf(),
            r.ids() == Seq::<u64>::empty(),
    {
        let r = Registry { entries: Vec::new() };
        proof {
            assert(r.ids() =~= Seq::<u64>::empty());
        }
        r
    }

    /// The number of registered connections.
    pub fn size(&self) -> (r: usize)
        ensures
            r == self.ids().len(),
    {
        self.entries.len()
    }

    /// The position of `id` among the entries, if it is registered.
    fn index_of(&self, id: u64) -> (r: Option<usize>)
        ensures
            match r {
                Some(i) => i < self.ids().len() && self.ids()[i as int] == id,
                None => !self.ids().contains(id),
            },
    {
        let mut i: usize = 0;
        while i < self.entries.len()
            invariant
                i <= self.entries.len(),
                forall|j: int| 0 <= j < i ==> self.ids()[j] != id,
            decreases self.entries.len() - i,
        {
            if self.entries[i].id == id {
                proof {
                    assert(self.ids()[i as int] == id);
                }
                return Some(i);
            }
            i = i + 1;
        }
        proof {
            assert(forall|j: int| 0 <= j < self.ids().len() ==> self.ids()[j] != id);
        }
        None
    }

    /// Whether `id` is currently registered.
    pub fn contains(&self, id: u64) -> (r: bool)
        ensures
            r == self.ids().contains(id),
    {
        match self.index_of(id) {
            Some(_) => true,
            None => false,
        }
    }

    /// Registers a connection. The identity must not already be present:
    /// inserting a registered identity is a programming error, not a
    /// recoverable condition.
    pub fn insert(&mut self, id: u64, sink: UnboundedSender<Frame>)
        requires
            old(self).wf(),
            !old(self).ids().contains(id),
        ensures
            final(self).wf(),
            final(self).ids() == old(self).ids().push(id),
    {
        self.entries.push(RegistryEntry { id, sink });
        proof {
            assert(self.ids() =~= old(self).ids().push(id));
            assert forall|i: int, j: int|
                0 <= i < j < self.ids().len() implies self.ids()[i] != self.ids()[j] by {
                if j == self.ids().len() - 1 {
                    assert(old(self).ids()[i] == self.ids()[i]);
                    assert(old(self).ids().contains(self.ids()[i]));
                }
            }
        }
    }

    /// Deregisters a connection. Absent identities are tolerated (idempotent
    /// cleanup); a present identity is removed exactly once, all other
    /// entries staying as they were.
    pub fn remove(&mut self, id: u64)
        requires
            old(self).wf(),
        ensures
            final(self).wf(),
            final(self).ids() == others(old(self).ids(), id),
    {
        broadcast use group_seq_properties;

        match self.index_of(id) {
            Some(i) => {
                let ghost old_ids = self.ids();
                proof {
                    assert forall|j: int|
                        0 <= j < old_ids.len() && j != i implies old_ids[j] != id by {
                        if j < i as int {
                            assert(old_ids[j] != old_ids[i as int]);
                        } else {
                            assert(old_ids[i as int] != old_ids[j]);
                        }
                    }
                }
                self.entries.remove(i);
                proof {
                    assert(self.ids() =~= old_ids.remove(i as int));
                    lemma_remove_unique_is_filter(old_ids, id, i as int);
                    assert forall|k: int, l: int|
                        0 <= k < l < self.ids().len() implies self.ids()[k] != self.ids()[l] by {
                        if l < i as int {
                            assert(self.ids()[k] == old_ids[k]);
                            assert(self.ids()[l] == old_ids[l]);
                        } else if k < i as int {
                            assert(self.ids()[k] == old_ids[k]);
                            assert(self.ids()[l] == old_ids[l + 1]);
                        } else {
                            assert(self.ids()[k] == old_ids[k + 1]);
                            assert(self.ids()[l] == old_ids[l + 1]);
                        }
                    }
                }
            },
            None => {
                proof {
                    lemma_filter_absent_is_identity(self.ids(), id);
                }
            },
        }
    }

    /// A point-in-time copy of all entries except the excluded identity,
    /// for one broadcast fan-out. Entries registered or removed after the
    /// snapshot is taken are not reflected in it.
    pub fn snapshot_others(&self, excluding: u64) -> (r: Vec<RegistryEntry>)
        ensures
            entry_ids(r@) == others(self.ids(), excluding),
    {
        let mut r: Vec<RegistryEntry> = Vec::new();
        let mut i: usize = 0;
        proof {
            assert(entry_ids(r@) =~= others(self.ids().subrange(0, 0), excluding)) by {
                reveal_with_fuel(Seq::<_>::filter, 2);
            }
        }
        while i < self.entries.len()
            invariant
                i <= self.entries.len(),
                entry_ids(r@) == others(self.ids().subrange(0, i as int), excluding),
            decreases self.entries.len() - i,
        {
            let ghost prefix = self.ids().subrange(0, i as int);
            let e = &self.entries[i];
            if e.id != excluding {
                r.push(RegistryEntry { id: e.id, sink: clone_sender(&e.sink) });
            }
            i = i + 1;
            proof {
                let next = self.ids().subrange(0, i as int);
                assert(next =~= prefix.push(self.ids()[i - 1]));
                lemma_filter_push(prefix, self.ids()[i - 1], excluding);
                if self.ids()[i - 1] != excluding {
                    assert(entry_ids(r@) =~= others(prefix, excluding).push(self.ids()[i - 1]));
                }
            }
        }
        proof {
            assert(self.ids().subrange(0, self.ids().len() as int) =~= self.ids());
        }
        r
    }
}

/// An identity found among the non-excluded ones was present to begin with.
pub(crate) proof fn lemma_others_subset(s: Seq<u64>, excluding: u64, x: u64)
    requires
        others(s, excluding).contains(x),
    ensures
        s.contains(x),
    decreases s.len(),
{
    reveal_with_fuel(Seq::<_>::filter, 2);
    if s.len() > 0 {
        let f = others(s, excluding);
        let fd = others(s.drop_last(), excluding);
        if s.last() != excluding {
            if x == s.last() {
                assert(s[s.len() - 1] == x);
            } else {
                let i = choose|i: int| 0 <= i < f.len() && f[i] == x;
                assert(fd[i] == x);
                lemma_others_subset(s.drop_last(), excluding, x);
                let j = choose|j: int| 0 <= j < s.drop_last().len() && s.drop_last()[j] == x;
                assert(s[j] == x);
            }
        } else {
            lemma_others_subset(s.drop_last(), excluding, x);
            let j = choose|j: int| 0 <= j < s.drop_last().len() && s.drop_last()[j] == x;
            assert(s[j] == x);
        }
    }
}

/// The registry's size counts connections: its identities are distinct, so
/// their number equals the cardinality of the set of registered identities.
pub proof fn lemma_size_counts_identities(ids: Seq<u64>)
    requires
        forall|i: int, j: int| 0 <= i < j < ids.len() ==> ids[i] != ids[j],
    ensures
        ids.to_set().finite(),
        ids.to_set().len() == ids.len(),
{
    broadcast use vstd::seq_lib::seq_to_set_is_finite;

    assert(ids.no_duplicates()) by {
        assert forall|i: int, j: int|
            0 <= i < ids.len() && 0 <= j < ids.len() && i != j implies ids[i] != ids[j] by {
            if i < j {
                assert(ids[i] != ids[j]);
            } else {
                assert(ids[j] != ids[i]);
            }
        }
    }
    ids.unique_seq_to_set();
}

/// Registering adds exactly the new identity to the set of registered ones.
pub proof fn lemma_insert_registers(ids: Seq<u64>, id: u64)
    ensures
        ids.push(id).to_set() == ids.to_set().insert(id),
{
    assert forall|a: u64| ids.push(id).to_set().contains(a)
        implies ids.to_set().insert(id).contains(a) by {
        let i = choose|i: int| 0 <= i < ids.push(id).len() && ids.push(id)[i] == a;
        if i < ids.len() {
            assert(ids[i] == a);
        }
    }
    assert forall|a: u64| ids.to_set().insert(id).contains(a)
        implies ids.push(id).to_set().contains(a) by {
        if a == id {
            assert(ids.push(id)[ids.len() as int] == a);
        } else {
            let i = choose|i: int| 0 <= i < ids.len() && ids[i] == a;
            assert(ids.push(id)[i] == a);
        }
    }
    assert(ids.push(id).to_set() =~= ids.to_set().insert(id));
}

/// Deregistering removes exactly that identity from the set of registered
/// ones, however often it occurred.
pub proof fn lemma_remove_deregisters(ids: Seq<u64>, id: u64)
    ensures
        others(ids, id).to_set() == ids.to_set().remove(id),
{
    let f = others(ids, id);
    assert forall|a: u64| f.to_set().contains(a)
        implies ids.to_set().remove(id).contains(a) by {
        lemma_others_subset(ids, id, a);
        let i = choose|i: int| 0 <= i < f.len() && f[i] == a;
        ids.lemma_filter_pred(keeps(id), i);
    }
    assert forall|a: u64| ids.to_set().remove(id).contains(a)
        implies f.to_set().contains(a) by {
        let i = choose|i: int| 0 <= i < ids.len() && ids[i] == a;
        ids.lemma_filter_contains(keeps(id), i);
    }
    assert(f.to_set() =~= ids.to_set().remove(id));
}

/// Filtering a sequence after a push keeps the filtered prefix and appends
/// the new element exactly when it is kept.
proof fn lemma_filter_push(s: Seq<u64>, x: u64, excluding: u64)
    ensures
        others(s.push(x), excluding) == if x != excluding {
            others(s, excluding).push(x)
        } else {
            others(s, excluding)
        },
{
    reveal_with_fuel(Seq::<_>::filter, 2);
    assert(s.push(x).drop_last() =~= s);
    assert(s.push(x).last() == x);
    assert(s.push(x).len() == s.len() + 1);
}

/// Filtering out an element that does not occur leaves the sequence as it is.
proof fn lemma_filter_absent_is_identity(s: Seq<u64>, id: u64)
    requires
        forall|j: int| 0 <= j < s.len() ==> s[j] != id,
    ensures
        others(s, id) == s,
    decreases s.len(),
{
    reveal_with_fuel(Seq::<_>::filter, 2);
    if s.len() == 0 {
        assert(others(s, id) =~= s);
    } else {
        lemma_filter_absent_is_identity(s.drop_last(), id);
        assert(others(s, id) =~= s.drop_last().push(s.last()));
        assert(s.drop_last().push(s.last()) =~= s);
    }
}

/// Removing the only occurrence of an element is the same as filtering that
/// element out.
proof fn lemma_remove_unique_is_filter(s: Seq<u64>, id: u64, i: int)
    requires
        0 <= i < s.len(),
        s[i] == id,
        forall|j: int| 0 <= j < s.len() && j != i ==> s[j] != id,
    ensures
        s.remove(i) == others(s, id),
    decreases s.len(),
{
    reveal_with_fuel(Seq::<_>::filter, 2);
    if i == s.len() - 1 {
        lemma_filter_absent_is_identity(s.drop_last(), id);
        assert(s.remove(i) =~= s.drop_last());
        assert(others(s, id) =~= s.drop_last());
    } else {
        lemma_remove_unique_is_filter(s.drop_last(), id, i);
        assert(s.remove(i) =~= s.drop_last().remove(i).push(s.last()));
        assert(others(s, id) =~= s.drop_last().remove(i).push(s.last()));
    }
}

} // verus!
