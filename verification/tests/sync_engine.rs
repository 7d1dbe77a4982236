use git_backup::git::{decide_action, fetch_report, mirror_path, GitRepo, ProbeResult, SyncAction};
use git_backup::orchestrate::run_all;
use git_backup::sync::{MirrorStore, RemoteRepo, SyncOutcome};

fn repo(id: u64, objects: Vec<u64>, reachable: bool) -> RemoteRepo {
    RemoteRepo { id, objects, reachable }
}

#[test]
fn probe_outcome_decides_the_action() {
    assert_eq!(decide_action(ProbeResult::Opened), SyncAction::Update);
    assert_eq!(decide_action(ProbeResult::Absent), SyncAction::Mirror);
}

#[test]
fn fetch_report_separates_updated_from_current() {
    assert_eq!(fetch_report(0), None);
    assert_eq!(fetch_report(5), Some(5));
}

#[test]
fn mirror_path_joins_root_source_owner_name() {
    let d = GitRepo {
        source: String::from("github"),
        owner: String::from("alice"),
        name: String::from("x"),
        url: String::from("git@github.test:alice/x.git"),
    };
    assert_eq!(mirror_path("root", &d), "root/github/alice/x");
}

#[test]
fn first_run_mirrors_then_second_is_up_to_date() {
    let mut store = MirrorStore::new();
    let r = repo(1, vec![10, 11, 12], true);
    assert_eq!(store.sync_repo(&r), SyncOutcome::Mirrored);
    assert_eq!(store.sync_repo(&r), SyncOutcome::UpToDate);
    assert_eq!(store.entries.len(), 1);
    assert_eq!(store.entries[0].0, 1);
    assert_eq!(store.entries[0].1, vec![10, 11, 12]);
}

#[test]
fn update_transfers_only_missing_objects() {
    let mut store = MirrorStore::new();
    assert_eq!(store.sync_repo(&repo(1, vec![10, 11], true)), SyncOutcome::Mirrored);
    assert_eq!(store.sync_repo(&repo(1, vec![10, 11, 12, 13], true)), SyncOutcome::Updated(2));
    assert_eq!(store.entries[0].1, vec![10, 11, 12, 13]);
    assert_eq!(store.sync_repo(&repo(1, vec![10, 11, 12, 13], true)), SyncOutcome::UpToDate);
}

#[test]
fn failed_transport_leaves_the_slot_unchanged() {
    let mut store = MirrorStore::new();
    assert_eq!(store.sync_repo(&repo(1, vec![10], true)), SyncOutcome::Mirrored);
    assert_eq!(store.sync_repo(&repo(1, vec![10, 11], false)), SyncOutcome::Failed);
    assert_eq!(store.entries.len(), 1);
    assert_eq!(store.entries[0].1, vec![10]);
}

#[test]
fn three_repos_second_failing_leaves_the_others_synced() {
    let mut store = MirrorStore::new();
    let repos = vec![
        repo(1, vec![10], true),
        repo(2, vec![20], false),
        repo(3, vec![30], true),
    ];
    let outcomes = run_all(&mut store, &repos);
    assert_eq!(
        outcomes,
        vec![SyncOutcome::Mirrored, SyncOutcome::Failed, SyncOutcome::Mirrored]
    );
    assert_eq!(store.entries.len(), 2);
    assert_eq!(store.entries[0].0, 1);
    assert_eq!(store.entries[1].0, 3);
    let outcomes = run_all(&mut store, &repos);
    assert_eq!(
        outcomes,
        vec![SyncOutcome::UpToDate, SyncOutcome::Failed, SyncOutcome::UpToDate]
    );
}

#[test]
fn a_pass_reports_one_outcome_per_repository() {
    let mut store = MirrorStore::new();
    let repos: Vec<RemoteRepo> = (0..5).map(|i| repo(i, vec![i * 100], i % 2 == 0)).collect();
    let outcomes = run_all(&mut store, &repos);
    assert_eq!(outcomes.len(), 5);
    assert_eq!(store.entries.len(), 3);
}
