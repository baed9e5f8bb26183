//! The pending log: the actions that this node has accepted and not yet
//! seen settled, keyed by digest.
//!
//! The log is a map from digest to action. It is filled when an action
//! enters the node and emptied only when the action is settled or seen
//! approved on chain. This module holds the map itself; keeping a copy of it
//! on disk is the business of whoever owns the disk.

use crate::types::{BridgeAction, BridgeActionDigest, BridgeActionView};
use vstd::prelude::*;

verus! {

/// The content of a pending log: each logged digest with its action.
pub type PendingActions = Map<BridgeActionDigest, BridgeActionView>;

/// The values of a list of actions, in the same order.
pub open spec fn action_views(actions: Seq<BridgeAction>) -> Seq<BridgeActionView> {
    Seq::new(actions.len(), |i: int| actions[i]@)
}

/// The digests of a list of actions, in the same order.
pub open spec fn digests_of(actions: Seq<BridgeActionView>) -> Seq<BridgeActionDigest> {
    Seq::new(actions.len(), |i: int| actions[i].digest)
}

/// The log after each of `actions` was logged under its digest, one after
/// the other: of two actions with one digest the later stays.
pub open spec fn insert_all(log: PendingActions, actions: Seq<BridgeActionView>) -> PendingActions
    decreases actions.len(),
{
    if actions.len() == 0 {
        log
    } else {
        insert_all(log, actions.drop_last()).insert(actions.last().digest, actions.last())
    }
}

/// The map that holds each of `entries` under its digest. It is meant for
/// entries of which no two share a digest.
pub open spec fn map_of(entries: Seq<BridgeActionView>) -> PendingActions {
    Map::new(
        |digest: BridgeActionDigest| digests_of(entries).contains(digest),
        |digest: BridgeActionDigest| entries[digests_of(entries).index_of(digest)],
    )
}

/// Entry `i` is what `map_of` holds under that entry's digest.
proof fn lemma_entry_is_mapped(entries: Seq<BridgeActionView>, i: int)
    requires
        digests_of(entries).no_duplicates(),
        0 <= i < entries.len(),
    ensures
        map_of(entries).contains_key(entries[i].digest),
        map_of(entries)[entries[i].digest] == entries[i],
{
    let digest = entries[i].digest;
    assert(digests_of(entries)[i] == digest);
    let j = digests_of(entries).index_of(digest);
    assert(digests_of(entries)[j] == digest);
}

/// A key of `map_of` is the digest of some entry.
proof fn lemma_key_has_entry(entries: Seq<BridgeActionView>, digest: BridgeActionDigest) -> (i: int)
    requires
        map_of(entries).contains_key(digest),
    ensures
        0 <= i < entries.len(),
        entries[i].digest == digest,
        map_of(entries)[digest] == entries[i],
{
    let i = digests_of(entries).index_of(digest);
    assert(digests_of(entries)[i] == digest);
    i
}

/// Appending an entry with a new digest inserts it into the map.
proof fn lemma_map_of_push(entries: Seq<BridgeActionView>, action: BridgeActionView)
    requires
        digests_of(entries).no_duplicates(),
        !digests_of(entries).contains(action.digest),
    ensures
        digests_of(entries.push(action)).no_duplicates(),
        map_of(entries.push(action)) == map_of(entries).insert(action.digest, action),
{
    let after = entries.push(action);
    assert(digests_of(after) =~= digests_of(entries).push(action.digest));
    assert forall|digest: BridgeActionDigest|
        map_of(after).contains_key(digest) == (#[trigger] map_of(entries).insert(
            action.digest,
            action,
        ).contains_key(digest)) by {
        if map_of(after).contains_key(digest) {
            let j = lemma_key_has_entry(after, digest);
            if j < entries.len() {
                lemma_entry_is_mapped(entries, j);
            }
        }
        if map_of(entries).contains_key(digest) {
            let j = lemma_key_has_entry(entries, digest);
            lemma_entry_is_mapped(after, j);
        }
        if digest == action.digest {
            lemma_entry_is_mapped(after, entries.len() as int);
        }
    }
    assert forall|digest: BridgeActionDigest| map_of(after).contains_key(digest) implies map_of(
        after,
    )[digest] == #[trigger] map_of(entries).insert(action.digest, action)[digest] by {
        let j = lemma_key_has_entry(after, digest);
        if j < entries.len() {
            lemma_entry_is_mapped(entries, j);
        }
    }
    assert(map_of(after) =~= map_of(entries).insert(action.digest, action));
}

/// Replacing an entry by one with the same digest inserts it into the map.
proof fn lemma_map_of_update(entries: Seq<BridgeActionView>, i: int, action: BridgeActionView)
    requires
        digests_of(entries).no_duplicates(),
        0 <= i < entries.len(),
        entries[i].digest == action.digest,
    ensures
        digests_of(entries.update(i, action)).no_duplicates(),
        map_of(entries.update(i, action)) == map_of(entries).insert(action.digest, action),
{
    let after = entries.update(i, action);
    assert(digests_of(after) =~= digests_of(entries));
    assert forall|digest: BridgeActionDigest| map_of(after).contains_key(digest) implies map_of(
        after,
    )[digest] == #[trigger] map_of(entries).insert(action.digest, action)[digest] by {
        let j = lemma_key_has_entry(after, digest);
        if j != i {
            assert(digests_of(entries)[j] != digests_of(entries)[i]);
            lemma_entry_is_mapped(entries, j);
        }
    }
    lemma_entry_is_mapped(entries, i);
    assert(map_of(after) =~= map_of(entries).insert(action.digest, action));
}

/// Taking an entry out removes its digest from the map.
proof fn lemma_map_of_remove(entries: Seq<BridgeActionView>, i: int)
    requires
        digests_of(entries).no_duplicates(),
        0 <= i < entries.len(),
    ensures
        digests_of(entries.remove(i)).no_duplicates(),
        map_of(entries.remove(i)) == map_of(entries).remove(entries[i].digest),
{
    let after = entries.remove(i);
    assert(digests_of(after) =~= digests_of(entries).remove(i));
    assert forall|a: int, b: int|
        0 <= a < after.len() && 0 <= b < after.len() && a != b implies digests_of(after)[a]
        != digests_of(after)[b] by {
        let a0 = if a < i {
            a
        } else {
            a + 1
        };
        let b0 = if b < i {
            b
        } else {
            b + 1
        };
        assert(digests_of(after)[a] == digests_of(entries)[a0]);
        assert(digests_of(after)[b] == digests_of(entries)[b0]);
    }
    assert forall|digest: BridgeActionDigest|
        map_of(after).contains_key(digest) == (#[trigger] map_of(entries).remove(
            entries[i].digest,
        ).contains_key(digest)) by {
        if map_of(after).contains_key(digest) {
            let j = lemma_key_has_entry(after, digest);
            let j0 = if j < i {
                j
            } else {
                j + 1
            };
            assert(digests_of(entries)[j0] == digest);
            assert(digests_of(entries)[i] == entries[i].digest);
        }
        if map_of(entries).contains_key(digest) && digest != entries[i].digest {
            let j = lemma_key_has_entry(entries, digest);
            let j1 = if j < i {
                j
            } else {
                j - 1
            };
            assert(after[j1] == entries[j]);
            lemma_entry_is_mapped(after, j1);
        }
    }
    assert forall|digest: BridgeActionDigest| map_of(after).contains_key(digest) implies map_of(
        after,
    )[digest] == #[trigger] map_of(entries).remove(entries[i].digest)[digest] by {
        let j = lemma_key_has_entry(after, digest);
        let j0 = if j < i {
            j
        } else {
            j + 1
        };
        assert(after[j] == entries[j0]);
        lemma_entry_is_mapped(entries, j0);
    }
    assert(map_of(after) =~= map_of(entries).remove(entries[i].digest));
}

/// Entries with distinct digests form the map that logging them one by
/// one into an empty log gives, and the map has one key for each of them.
pub proof fn lemma_map_of_is_insert_all(entries: Seq<BridgeActionView>)
    requires
        digests_of(entries).no_duplicates(),
    ensures
        map_of(entries) == insert_all(PendingActions::empty(), entries),
        map_of(entries).dom().finite(),
        map_of(entries).len() == entries.len(),
    decreases entries.len(),
{
    if entries.len() == 0 {
        assert(map_of(entries) =~= PendingActions::empty());
    } else {
        let rest = entries.drop_last();
        assert(digests_of(rest) =~= digests_of(entries).drop_last());
        assert forall|a: int, b: int|
            0 <= a < rest.len() && 0 <= b < rest.len() && a != b implies digests_of(rest)[a]
            != digests_of(rest)[b] by {
            assert(digests_of(rest)[a] == digests_of(entries)[a]);
            assert(digests_of(rest)[b] == digests_of(entries)[b]);
        }
        lemma_map_of_is_insert_all(rest);
        if digests_of(rest).contains(entries.last().digest) {
            let j = digests_of(rest).index_of(entries.last().digest);
            assert(digests_of(entries)[j] == digests_of(entries)[entries.len() - 1]);
        }
        lemma_map_of_push(rest, entries.last());
        assert(rest.push(entries.last()) =~= entries);
        assert(!map_of(rest).contains_key(entries.last().digest));
    }
}

/// A map from digest to pending action.
#[derive(Debug)]
pub struct PendingLog {
    entries: Vec<BridgeAction>,
}

impl View for PendingLog {
    type V = PendingActions;

    closed spec fn view(&self) -> PendingActions {
        map_of(action_views(self.entries@))
    }
}

impl PendingLog {
    /// No two entries share a digest.
    #[verifier::type_invariant]
    closed spec fn distinct_digests(&self) -> bool {
        digests_of(action_views(self.entries@)).no_duplicates()
    }

    /// Every key of the log is the digest of the action stored under it.
    pub proof fn lemma_keys_are_digests(&self, digest: BridgeActionDigest)
        requires
            self@.contains_key(digest),
        ensures
            self@[digest].digest == digest,
    {
        let _ = lemma_key_has_entry(action_views(self.entries@), digest);
    }

    /// An empty log.
    pub fn new() -> (log: Self)
        ensures
            log@ == PendingActions::empty(),
    {
        let log = PendingLog { entries: Vec::new() };
        assert(log@ =~= PendingActions::empty());
        log
    }

    /// Where the entry with this digest is held, if there is one.
    fn position(&self, digest: &BridgeActionDigest) -> (found: Option<usize>)
        ensures
            match found {
                Some(i) => i < self.entries@.len() && self.entries@[i as int]@.digest == *digest,
                None => !digests_of(action_views(self.entries@)).contains(*digest),
            },
    {
        let mut i: usize = 0;
        while i < self.entries.len()
            invariant
                i <= self.entries@.len(),
                forall|k: int| 0 <= k < i ==> self.entries@[k]@.digest != *digest,
            decreases self.entries@.len() - i,
        {
            if self.entries[i].digest().equals(digest) {
                return Some(i);
            }
            i = i + 1;
        }
        None
    }

    /// Whether an action is logged under this digest.
    pub fn contains_key(&self, digest: &BridgeActionDigest) -> (logged: bool)
        ensures
            logged == self@.contains_key(*digest),
    {
        proof {
            use_type_invariant(self);
        }
        match self.position(digest) {
            Some(i) => {
                proof {
                    lemma_entry_is_mapped(action_views(self.entries@), i as int);
                }
                true
            },
            None => false,
        }
    }

    /// The action logged under this digest.
    pub fn get(&self, digest: &BridgeActionDigest) -> (found: Option<&BridgeAction>)
        ensures
            match found {
                Some(action) => self@.contains_key(*digest) && action@ == self@[*digest],
                None => !self@.contains_key(*digest),
            },
    {
        proof {
            use_type_invariant(self);
        }
        match self.position(digest) {
            Some(i) => {
                proof {
                    lemma_entry_is_mapped(action_views(self.entries@), i as int);
                }
                Some(&self.entries[i])
            },
            None => None,
        }
    }

    /// How many actions are logged.
    pub fn len(&self) -> (count: usize)
        ensures
            self@.dom().finite(),
            count == self@.len(),
    {
        proof {
            use_type_invariant(self);
            lemma_map_of_is_insert_all(action_views(self.entries@));
        }
        self.entries.len()
    }

    /// Whether no action is logged.
    pub fn is_empty(&self) -> (empty: bool)
        ensures
            empty == (self@ == PendingActions::empty()),
    {
        proof {
            use_type_invariant(self);
            if self.entries@.len() > 0 {
                lemma_entry_is_mapped(action_views(self.entries@), 0);
            } else {
                assert(self@ =~= PendingActions::empty());
            }
        }
        self.entries.len() == 0
    }

    /// Logs one action under its digest, in place of any action that was
    /// logged under it before.
    pub fn insert(&mut self, action: BridgeAction)
        ensures
            final(self)@ == old(self)@.insert(action@.digest, action@),
    {
        proof {
            use_type_invariant(&*self);
        }
        let ghost before = action_views(self.entries@);
        let found = self.position(&action.digest());
        let mut entries: Vec<BridgeAction> = Vec::new();
        core::mem::swap(&mut self.entries, &mut entries);
        match found {
            Some(i) => {
                proof {
                    lemma_map_of_update(before, i as int, action@);
                }
                entries.set(i, action);
                assert(action_views(entries@) =~= before.update(i as int, action@));
            },
            None => {
                proof {
                    lemma_map_of_push(before, action@);
                }
                entries.push(action);
                assert(action_views(entries@) =~= before.push(action@));
            },
        }
        self.entries = entries;
    }

    /// Takes out the action logged under this digest, if there is one, and
    /// hands it back.
    pub fn remove(&mut self, digest: &BridgeActionDigest) -> (removed: Option<BridgeAction>)
        ensures
            final(self)@ == old(self)@.remove(*digest),
            match removed {
                Some(action) => old(self)@.contains_key(*digest) && action@ == old(self)@[*digest],
                None => !old(self)@.contains_key(*digest),
            },
    {
        proof {
            use_type_invariant(&*self);
        }
        let ghost before = action_views(self.entries@);
        match self.position(digest) {
            Some(i) => {
                let mut entries: Vec<BridgeAction> = Vec::new();
                core::mem::swap(&mut self.entries, &mut entries);
                let action = entries.remove(i);
                proof {
                    lemma_entry_is_mapped(before, i as int);
                    lemma_map_of_remove(before, i as int);
                    assert(action_views(entries@) =~= before.remove(i as int));
                }
                self.entries = entries;
                Some(action)
            },
            None => {
                assert(self@ =~= self@.remove(*digest));
                None
            },
        }
    }

    /// Logs each of `actions` under its digest, one after the other.
    pub fn insert_pending_actions(&mut self, actions: &[BridgeAction])
        ensures
            final(self)@ == insert_all(old(self)@, action_views(actions@)),
    {
        let mut i: usize = 0;
        assert(action_views(actions@).take(0) =~= Seq::<BridgeActionView>::empty());
        while i < actions.len()
            invariant
                i <= actions@.len(),
                self@ == insert_all(old(self)@, action_views(actions@).take(i as int)),
            decreases actions@.len() - i,
        {
            let action = actions[i].clone();
            self.insert(action);
            proof {
                let views = action_views(actions@);
                assert(views.take(i + 1).drop_last() =~= views.take(i as int));
                assert(views.take(i + 1).last() == actions@[i as int]@);
            }
            i = i + 1;
        }
        proof {
            let views = action_views(actions@);
            assert(views.take(i as int) =~= views);
        }
    }

    /// Takes out every action that is logged under one of `digests`.
    pub fn remove_pending_actions(&mut self, digests: &[BridgeActionDigest])
        ensures
            final(self)@ == old(self)@.remove_keys(digests@.to_set()),
    {
        let mut i: usize = 0;
        assert(self@ =~= old(self)@.remove_keys(digests@.take(0).to_set()));
        while i < digests.len()
            invariant
                i <= digests@.len(),
                self@ == old(self)@.remove_keys(digests@.take(i as int).to_set()),
            decreases digests@.len() - i,
        {
            let _ = self.remove(&digests[i]);
            proof {
                let done = digests@.take(i as int);
                let next = digests@.take(i + 1);
                assert forall|digest: BridgeActionDigest| next.contains(digest) == (done.contains(
                    digest,
                ) || digest == digests@[i as int]) by {
                    if done.contains(digest) {
                        let k = done.index_of(digest);
                        assert(next[k] == digest);
                    }
                    if digest == digests@[i as int] {
                        assert(next[i as int] == digest);
                    }
                    if next.contains(digest) {
                        let k = next.index_of(digest);
                        if k < i {
                            assert(done[k] == digest);
                        }
                    }
                }
                assert(self@ =~= old(self)@.remove_keys(next.to_set()));
            }
            i = i + 1;
        }
        assert(digests@.take(i as int) =~= digests@);
    }

    /// Every logged action, each once, in no particular order.
    pub fn get_all_pending_actions(&self) -> (all: Vec<BridgeAction>)
        ensures
            digests_of(action_views(all@)).no_duplicates(),
            map_of(action_views(all@)) == self@,
            all@.len() == self@.len(),
    {
        proof {
            use_type_invariant(self);
            lemma_map_of_is_insert_all(action_views(self.entries@));
        }
        let mut all: Vec<BridgeAction> = Vec::new();
        let mut i: usize = 0;
        assert(action_views(all@) =~= action_views(self.entries@).take(0));
        while i < self.entries.len()
            invariant
                i <= self.entries@.len(),
                action_views(all@) == action_views(self.entries@).take(i as int),
            decreases self.entries@.len() - i,
        {
            let ghost copied = action_views(all@);
            let action = self.entries[i].clone();
            all.push(action);
            assert(action_views(all@) =~= copied.push(action@));
            assert(action_views(all@) =~= action_views(self.entries@).take(i + 1));
            i = i + 1;
        }
        assert(action_views(self.entries@).take(i as int) =~= action_views(self.entries@));
        all
    }
}

} // verus!
