//! The sync engine over a model of the version-control transport. The
//! engine's decisions are pure — probe, then mirror or update — and the
//! transport capability it drives is modelled as a store of slots keyed
//! by the descriptor's storage identity, each slot holding the objects
//! its mirror has. Over this model the engine's laws are proved: a run
//! is idempotent, a fresh mirror followed by an update transfers nothing,
//! and one repository's failure never touches another's slot.

use crate::paginate::copy_range;
use vstd::pervasive::VecAdditionalExecFns;
use vstd::prelude::*;

verus! {

/// Outcome of one sync engine run on one repository. Errors are absorbed
/// at this boundary: a failed run reports `Failed` and propagates nothing.
#[derive(Clone, Copy, Debug, PartialEq, Eq, Structural)]
pub enum SyncOutcome {
    /// The slot was empty; a fresh bare mirror was created.
    Mirrored,
    /// The mirror existed and was behind; this many objects were
    /// transferred.
    Updated(usize),
    /// The mirror existed and already matched the remote.
    UpToDate,
    /// The transport failed; the slot was left as it was.
    Failed,
}

/// One repository as the model transport sees it: the storage slot its
/// descriptor resolves to, the objects reachable from its remote refs,
/// and whether the transport can reach the remote at all.
pub struct RemoteRepo {
    pub id: u64,
    pub objects: Vec<u64>,
    pub reachable: bool,
}

/// The storage root: one entry per occupied slot, keyed by slot id,
/// holding the objects the local mirror has.
pub struct MirrorStore {
    pub entries: Vec<(u64, Vec<u64>)>,
}

/// Slot ids in an entry list are pairwise distinct.
pub open spec fn unique_ids(s: Seq<(u64, Vec<u64>)>) -> bool {
    forall|i: int, j: int|
        0 <= i < j < s.len() ==> (#[trigger] s[i]).0 != (#[trigger] s[j]).0
}

/// The entry list as a map from slot id to mirrored objects.
pub open spec fn store_map(s: Seq<(u64, Vec<u64>)>) -> Map<u64, Seq<u64>>
    decreases s.len(),
{
    if s.len() == 0 {
        Map::<u64, Seq<u64>>::empty()
    } else {
        store_map(s.drop_last()).insert(s.last().0, s.last().1@)
    }
}

/// A key is in the map exactly when some entry carries it.
pub proof fn lemma_store_map_contains(s: Seq<(u64, Vec<u64>)>, k: u64)
    ensures
        store_map(s).contains_key(k) <==> exists|i: int| 0 <= i < s.len() && (#[trigger] s[i]).0
            == k,
    decreases s.len(),
{
    if s.len() > 0 {
        lemma_store_map_contains(s.drop_last(), k);
        if s.last().0 == k {
            assert(s[s.len() - 1].0 == k);
        } else if store_map(s).contains_key(k) {
            let i = choose|i: int| 0 <= i < s.drop_last().len() && (#[trigger] s.drop_last()[i]).0
                == k;
            assert(s[i].0 == k);
        } else {
            assert(forall|i: int| 0 <= i < s.len() - 1 ==> (#[trigger] s[i]) == s.drop_last()[i]);
        }
    }
}

/// With distinct ids, the map sends each entry's id to that entry's
/// objects.
pub proof fn lemma_store_map_value(s: Seq<(u64, Vec<u64>)>, i: int)
    requires
        unique_ids(s),
        0 <= i < s.len(),
    ensures
        store_map(s).contains_key(s[i].0),
        store_map(s)[s[i].0] == s[i].1@,
    decreases s.len(),
{
    if i == s.len() - 1 {
    } else {
        assert(s.drop_last()[i] == s[i]);
        lemma_store_map_value(s.drop_last(), i);
        assert(s.last().0 != s[i].0);
    }
}

/// Replacing the entry that carries a key updates just that key.
pub proof fn lemma_store_map_update(s: Seq<(u64, Vec<u64>)>, i: int, v: Vec<u64>)
    requires
        unique_ids(s),
        0 <= i < s.len(),
    ensures
        store_map(s.update(i, (s[i].0, v))) == store_map(s).insert(s[i].0, v@),
    decreases s.len(),
{
    let k = s[i].0;
    let t = s.update(i, (k, v));
    if i == s.len() - 1 {
        assert(t.drop_last() =~= s.drop_last());
        assert(t.last() == (k, v));
        assert(store_map(s.drop_last()).insert(k, s.last().1@).insert(k, v@)
            =~= store_map(s.drop_last()).insert(k, v@));
    } else {
        assert(t.drop_last() =~= s.drop_last().update(i, (k, v)));
        assert(s.drop_last()[i] == s[i]);
        lemma_store_map_update(s.drop_last(), i, v);
        assert(t.last() == s.last());
        assert(s.last().0 != k);
        assert(store_map(s.drop_last()).insert(k, v@).insert(s.last().0, s.last().1@)
            =~= store_map(s.drop_last()).insert(s.last().0, s.last().1@).insert(k, v@));
    }
}

/// Appending an entry inserts its id.
pub proof fn lemma_store_map_push(s: Seq<(u64, Vec<u64>)>, e: (u64, Vec<u64>))
    ensures
        store_map(s.push(e)) == store_map(s).insert(e.0, e.1@),
{
    assert(s.push(e).drop_last() =~= s);
    assert(s.push(e).last() == e);
}

/// Objects an update transfers: those the remote has that the local
/// mirror lacks.
pub open spec fn missing_count(remote: Seq<u64>, local: Seq<u64>) -> nat
    decreases remote.len(),
{
    if remote.len() == 0 {
        0
    } else {
        missing_count(remote.drop_last(), local) + (if !local.contains(remote.last()) {
            1nat
        } else {
            0nat
        })
    }
}

/// A remote whose every object the local mirror already has transfers
/// nothing.
pub proof fn lemma_missing_count_zero(remote: Seq<u64>, local: Seq<u64>)
    requires
        forall|i: int| 0 <= i < remote.len() ==> local.contains(#[trigger] remote[i]),
    ensures
        missing_count(remote, local) == 0,
    decreases remote.len(),
{
    if remote.len() > 0 {
        assert(forall|i: int|
            0 <= i < remote.len() - 1 ==> (#[trigger] remote.drop_last()[i]) == remote[i]);
        lemma_missing_count_zero(remote.drop_last(), local);
        assert(local.contains(remote[remote.len() - 1]));
    }
}

/// What one sync engine run leaves in the store: an unreachable transport
/// leaves it untouched; otherwise the repository's slot ends holding
/// exactly the remote's objects, created fresh if it was absent.
pub open spec fn sync_map(m: Map<u64, Seq<u64>>, repo: RemoteRepo) -> Map<u64, Seq<u64>> {
    if repo.reachable {
        m.insert(repo.id, repo.objects@)
    } else {
        m
    }
}

/// What one sync engine run reports against store contents `m`.
pub open spec fn sync_outcome_of(m: Map<u64, Seq<u64>>, repo: RemoteRepo) -> SyncOutcome {
    if !repo.reachable {
        SyncOutcome::Failed
    } else if !m.contains_key(repo.id) {
        SyncOutcome::Mirrored
    } else if missing_count(repo.objects@, m[repo.id]) == 0 {
        SyncOutcome::UpToDate
    } else {
        SyncOutcome::Updated(missing_count(repo.objects@, m[repo.id]) as usize)
    }
}

/// Membership of an object in a mirror's contents.
fn contains_u64(v: &Vec<u64>, x: u64) -> (b: bool)
    ensures
        b == v@.contains(x),
{
    let mut i: usize = 0;
    while i < v.len()
        invariant
            i <= v.len(),
            forall|j: int| 0 <= j < i ==> v@[j] != x,
        decreases v.len() - i,
    {
        if v[i] == x {
            return true;
        }
        i += 1;
    }
    false
}

/// Counts the remote objects the local mirror lacks — what an incremental
/// fetch would transfer.
fn count_missing(remote: &Vec<u64>, local: &Vec<u64>) -> (n: usize)
    ensures
        n == missing_count(remote@, local@),
{
    proof {
        lemma_missing_count_bound(remote@, local@);
    }
    let mut n: usize = 0;
    let mut i: usize = 0;
    while i < remote.len()
        invariant
            i <= remote.len(),
            n == missing_count(remote@.take(i as int), local@),
            missing_count(remote@.take(i as int), local@) <= i,
        decreases remote.len() - i,
    {
        proof {
            assert(remote@.take(i as int + 1).drop_last() =~= remote@.take(i as int));
            assert(remote@.take(i as int + 1).last() == remote@[i as int]);
        }
        if !contains_u64(local, remote[i]) {
            n += 1;
        }
        i += 1;
    }
    proof {
        assert(remote@.take(remote@.len() as int) =~= remote@);
    }
    n
}

/// A transfer never exceeds the remote's object count.
pub proof fn lemma_missing_count_bound(remote: Seq<u64>, local: Seq<u64>)
    ensures
        missing_count(remote, local) <= remote.len(),
    decreases remote.len(),
{
    if remote.len() > 0 {
        lemma_missing_count_bound(remote.drop_last(), local);
    }
}

impl MirrorStore {
    /// Store contents as a map from slot id to mirrored objects.
    pub open spec fn as_map(&self) -> Map<u64, Seq<u64>> {
        store_map(self.entries@)
    }

    /// Slots are disjoint: descriptor uniqueness, not locking, keeps
    /// concurrent repository tasks off each other's paths.
    pub open spec fn wf(&self) -> bool {
        unique_ids(self.entries@)
    }

    /// An empty storage root.
    pub fn new() -> (s: Self)
        ensures
            s.wf(),
            s.as_map() == Map::<u64, Seq<u64>>::empty(),
    {
        MirrorStore { entries: Vec::new() }
    }

    /// The entry index of a slot, if the slot is occupied.
    fn find_slot(&self, id: u64) -> (r: Option<usize>)
        ensures
            r matches Some(i) ==> i < self.entries@.len() && self.entries@[i as int].0 == id,
            r is None ==> forall|j: int|
                0 <= j < self.entries@.len() ==> (#[trigger] self.entries@[j]).0 != id,
    {
        let mut i: usize = 0;
        while i < self.entries.len()
            invariant
                i <= self.entries.len(),
                forall|j: int| 0 <= j < i ==> (#[trigger] self.entries@[j]).0 != id,
            decreases self.entries.len() - i,
        {
            if self.entries[i].0 == id {
                return Some(i);
            }
            i += 1;
        }
        None
    }

    /// One sync engine run on one repository: probe the slot, then mirror
    /// into an empty slot or update an occupied one, reporting what the
    /// transport transferred. A transport failure is absorbed here — the
    /// slot is left exactly as it was and nothing propagates.
    pub fn sync_repo(&mut self, repo: &RemoteRepo) -> (outcome: SyncOutcome)
        requires
            old(self).wf(),
        ensures
            final(self).wf(),
            final(self).as_map() == sync_map(old(self).as_map(), *repo),
            outcome == sync_outcome_of(old(self).as_map(), *repo),
    {
        if !repo.reachable {
            return SyncOutcome::Failed;
        }
        proof {
            lemma_store_map_contains(self.entries@, repo.id);
        }
        match self.find_slot(repo.id) {
            None => {
                let objects = copy_range(&repo.objects, 0, repo.objects.len());
                proof {
                    assert(objects@ =~= repo.objects@);
                }
                self.entries.push((repo.id, objects));
                proof {
                    lemma_store_map_push(old(self).entries@, (repo.id, objects));
                    assert(unique_ids(self.entries@));
                }
                SyncOutcome::Mirrored
            },
            Some(i) => {
                proof {
                    lemma_store_map_value(self.entries@, i as int);
                }
                let n = count_missing(&repo.objects, &self.entries[i].1);
                let objects = copy_range(&repo.objects, 0, repo.objects.len());
                proof {
                    assert(objects@ =~= repo.objects@);
                    lemma_store_map_update(self.entries@, i as int, objects);
                }
                self.entries.set(i, (repo.id, objects));
                proof {
                    assert(unique_ids(self.entries@));
                }
                if n == 0 {
                    SyncOutcome::UpToDate
                } else {
                    SyncOutcome::Updated(n)
                }
            },
        }
    }
}

/// Idempotence of the sync engine: whatever the store held before, a
/// second run on the same repository with no upstream change reports
/// "already up to date" and leaves the slot exactly as the first run
/// left it.
pub proof fn lemma_sync_idempotent(m: Map<u64, Seq<u64>>, repo: RemoteRepo)
    requires
        repo.reachable,
    ensures
        sync_outcome_of(sync_map(m, repo), repo) == SyncOutcome::UpToDate,
        sync_map(sync_map(m, repo), repo) == sync_map(m, repo),
{
    let m1 = sync_map(m, repo);
    assert(m1[repo.id] == repo.objects@);
    lemma_missing_count_zero(repo.objects@, repo.objects@);
    assert(m1.insert(repo.id, repo.objects@) =~= m1);
}

/// Mirror-then-update equivalence: on an empty slot the first run is a
/// fresh mirror, and an immediate second run against the unchanged
/// upstream transfers zero objects and leaves the mirror's contents
/// untouched.
pub proof fn lemma_mirror_then_update(m: Map<u64, Seq<u64>>, repo: RemoteRepo)
    requires
        repo.reachable,
        !m.contains_key(repo.id),
    ensures
        sync_outcome_of(m, repo) == SyncOutcome::Mirrored,
        sync_outcome_of(sync_map(m, repo), repo) == SyncOutcome::UpToDate,
        sync_map(sync_map(m, repo), repo) == sync_map(m, repo),
{
    lemma_sync_idempotent(m, repo);
}

} // verus!
