//! The backup orchestrator over the model transport: one full pass runs
//! the sync engine over every discovered repository. Failures are
//! absorbed per repository, so the pass always completes and always
//! reports one outcome per repository; the isolation law below makes the
//! per-repository independence precise.

use crate::sync::{
    sync_map, sync_outcome_of, MirrorStore, RemoteRepo, SyncOutcome,
};
use vstd::prelude::*;

verus! {

/// What one full pass leaves in the store: the runs folded in order,
/// each repository's slot ending as its own run leaves it.
pub open spec fn run_map(m: Map<u64, Seq<u64>>, repos: Seq<RemoteRepo>) -> Map<u64, Seq<u64>>
    decreases repos.len(),
{
    if repos.len() == 0 {
        m
    } else {
        sync_map(run_map(m, repos.drop_last()), repos.last())
    }
}

/// One full backup pass: the sync engine runs over every repository, in
/// order, and the pass never aborts — every repository gets exactly one
/// outcome, each decided against the store as the earlier runs left it.
pub fn run_all(store: &mut MirrorStore, repos: &Vec<RemoteRepo>) -> (outcomes: Vec<SyncOutcome>)
    requires
        old(store).wf(),
    ensures
        final(store).wf(),
        final(store).as_map() == run_map(old(store).as_map(), repos@),
        outcomes@.len() == repos@.len(),
        forall|i: int|
            0 <= i < repos@.len() ==> outcomes@[i] == sync_outcome_of(
                run_map(old(store).as_map(), repos@.take(i)),
                repos@[i],
            ),
{
    let ghost m0 = store.as_map();
    let mut outcomes: Vec<SyncOutcome> = Vec::new();
    let mut i: usize = 0;
    while i < repos.len()
        invariant
            i <= repos.len(),
            store.wf(),
            store.as_map() == run_map(m0, repos@.take(i as int)),
            outcomes@.len() == i,
            forall|j: int|
                0 <= j < i ==> outcomes@[j] == sync_outcome_of(
                    run_map(m0, repos@.take(j)),
                    repos@[j],
                ),
        decreases repos.len() - i,
    {
        proof {
            assert(repos@.take(i as int + 1).drop_last() =~= repos@.take(i as int));
            assert(repos@.take(i as int + 1).last() == repos@[i as int]);
        }
        let outcome = store.sync_repo(&repos[i]);
        outcomes.push(outcome);
        i += 1;
    }
    proof {
        assert(repos@.take(repos@.len() as int) =~= repos@);
    }
    outcomes
}

/// Isolation: a repository with a working transport is mirrored or
/// updated no matter what happens to the others in the pass — after the
/// pass its slot holds exactly its remote's objects and its own outcome
/// is never `Failed` — provided no later descriptor resolves to the same
/// slot, which descriptor uniqueness guarantees.
pub proof fn lemma_isolation(m: Map<u64, Seq<u64>>, repos: Seq<RemoteRepo>, i: int)
    requires
        0 <= i < repos.len(),
        repos[i].reachable,
        forall|j: int| i < j < repos.len() ==> (#[trigger] repos[j]).id != repos[i].id,
    ensures
        run_map(m, repos).contains_key(repos[i].id),
        run_map(m, repos)[repos[i].id] == repos[i].objects@,
        sync_outcome_of(run_map(m, repos.take(i)), repos[i]) != SyncOutcome::Failed,
    decreases repos.len(),
{
    if i == repos.len() - 1 {
        assert(repos.last() == repos[i]);
    } else {
        assert(forall|j: int|
            0 <= j < repos.len() - 1 ==> (#[trigger] repos.drop_last()[j]) == repos[j]);
        lemma_isolation(m, repos.drop_last(), i);
        assert(repos.drop_last().take(i) =~= repos.take(i));
        assert(repos.last().id != repos[i].id);
    }
}

} // verus!
