use git_backup::config::{GitBackupSettings, Source};
use git_backup::git::{CloneType, DiscoveryError, ExclusionReport};
use git_backup::github::{GithubRepo, GithubRepoOwner, GithubSource};
use git_backup::gitlab::{GitlabForkedFrom, GitlabNamespace, GitlabRepo, GitlabSource};

fn gh_source(forks: bool, exclude_owners: Vec<&str>, exclude: Vec<&str>) -> GithubSource {
    GithubSource {
        user: String::from("alice"),
        token: String::from("SECRET-REDACTED"),
        clone: CloneType::SSH,
        forks,
        exclude_owners: exclude_owners.into_iter().map(String::from).collect(),
        exclude: exclude.into_iter().map(String::from).collect(),
    }
}

fn gh_record(owner: &str, name: &str, fork: bool) -> GithubRepo {
    GithubRepo {
        owner: GithubRepoOwner { login: String::from(owner) },
        name: String::from(name),
        full_name: format!("{}/{}", owner, name),
        ssh_url: format!("git@github.test:{}/{}.git", owner, name),
        clone_url: format!("https://github.test/{}/{}.git", owner, name),
        fork,
    }
}

fn gl_source(forks: bool, exclude_owners: Vec<&str>, exclude: Vec<&str>) -> GitlabSource {
    GitlabSource {
        name: None,
        url: None,
        token: String::from("SECRET-REDACTED"),
        clone: CloneType::SSH,
        forks,
        exclude_owners: exclude_owners.into_iter().map(String::from).collect(),
        exclude: exclude.into_iter().map(String::from).collect(),
    }
}

fn gl_record(owner: &str, name: &str, fork: bool) -> GitlabRepo {
    GitlabRepo {
        path: String::from(name),
        path_with_namespace: format!("{}/{}", owner, name),
        ssh_url_to_repo: format!("git@gitlab.test:{}/{}.git", owner, name),
        http_url_to_repo: format!("https://gitlab.test/{}/{}.git", owner, name),
        forked_from_project: if fork { Some(GitlabForkedFrom { id: 7 }) } else { None },
        namespace: GitlabNamespace { path: String::from(owner) },
    }
}

#[test]
fn github_inclusion_iff_all_combinations() {
    for &forks in &[false, true] {
        for &fork in &[false, true] {
            for &owner_excluded in &[false, true] {
                for &name_excluded in &[false, true] {
                    let owners = if owner_excluded { vec!["bob"] } else { vec!["other"] };
                    let names = if name_excluded { vec!["repo"] } else { vec!["nope"] };
                    let src = gh_source(forks, owners, names);
                    let rec = gh_record("bob", "repo", fork);
                    let expected = (forks || !fork) && !owner_excluded && !name_excluded;
                    assert_eq!(src.includes(&rec), expected);
                }
            }
        }
    }
}

#[test]
fn gitlab_inclusion_iff_all_combinations() {
    for &forks in &[false, true] {
        for &fork in &[false, true] {
            for &owner_excluded in &[false, true] {
                for &name_excluded in &[false, true] {
                    let owners = if owner_excluded { vec!["bob"] } else { vec!["other"] };
                    let names = if name_excluded { vec!["repo"] } else { vec!["nope"] };
                    let src = gl_source(forks, owners, names);
                    let rec = gl_record("bob", "repo", fork);
                    let expected = (forks || !fork) && !owner_excluded && !name_excluded;
                    assert_eq!(src.includes(&rec), expected);
                }
            }
        }
    }
}

#[test]
fn github_filter_scenario_one_survivor() {
    let src = gh_source(false, vec!["bot-org"], vec![]);
    let records = vec![
        gh_record("alice", "x", false),
        gh_record("alice", "y", true),
        gh_record("bot-org", "z", false),
    ];
    let (descs, report) = src.user_repos(&records);
    assert_eq!(descs.len(), 1);
    assert_eq!(descs[0].source, "github");
    assert_eq!(descs[0].owner, "alice");
    assert_eq!(descs[0].name, "x");
    assert_eq!(descs[0].url, "git@github.test:alice/x.git");
    match report {
        ExclusionReport::Listed(names) => {
            assert_eq!(names, vec![String::from("alice/y"), String::from("bot-org/z")]);
        }
        ExclusionReport::CountOnly(_) => panic!("short exclusion list must be listed in full"),
    }
}

#[test]
fn github_clone_protocol_picks_url() {
    let mut src = gh_source(true, vec![], vec![]);
    let rec = gh_record("alice", "x", false);
    let d = src.descriptor(&rec);
    assert_eq!(d.url, "git@github.test:alice/x.git");
    src.clone = CloneType::HTTPS;
    let d = src.descriptor(&rec);
    assert_eq!(d.url, "https://github.test/alice/x.git");
}

#[test]
fn gitlab_alias_overrides_source_name() {
    let mut src = gl_source(true, vec![], vec![]);
    let rec = gl_record("alice", "x", false);
    let d = src.descriptor(&rec);
    assert_eq!(d.source, "gitlab");
    assert_eq!(d.owner, "alice");
    assert_eq!(d.name, "x");
    src.name = Some(String::from("work"));
    let d = src.descriptor(&rec);
    assert_eq!(d.source, "work");
}

#[test]
fn gitlab_clone_protocol_picks_url() {
    let mut src = gl_source(true, vec![], vec![]);
    let rec = gl_record("alice", "x", false);
    let d = src.descriptor(&rec);
    assert_eq!(d.url, "git@gitlab.test:alice/x.git");
    src.clone = CloneType::HTTPS;
    let d = src.descriptor(&rec);
    assert_eq!(d.url, "https://gitlab.test/alice/x.git");
}

#[test]
fn exclusion_report_lists_small_sets() {
    let src = gh_source(false, vec![], vec![]);
    let records: Vec<GithubRepo> = (0..20).map(|i| gh_record("o", &format!("r{}", i), true)).collect();
    let (descs, report) = src.user_repos(&records);
    assert!(descs.is_empty());
    match report {
        ExclusionReport::Listed(names) => assert_eq!(names.len(), 20),
        ExclusionReport::CountOnly(_) => panic!("twenty exclusions must still be listed"),
    }
}

#[test]
fn exclusion_report_counts_large_sets() {
    let src = gh_source(false, vec![], vec![]);
    let records: Vec<GithubRepo> = (0..21).map(|i| gh_record("o", &format!("r{}", i), true)).collect();
    let (_, report) = src.user_repos(&records);
    match report {
        ExclusionReport::CountOnly(n) => assert_eq!(n, 21),
        ExclusionReport::Listed(_) => panic!("more than twenty exclusions must be count-only"),
    }
}

#[test]
fn github_failed_listing_yields_no_descriptors() {
    let src = gh_source(true, vec![], vec![]);
    let (descs, report) = src.repos(Err(DiscoveryError::Network(String::from("unreachable"))));
    assert!(descs.is_empty());
    assert!(report.is_none());
}

#[test]
fn gitlab_failed_listing_yields_no_descriptors() {
    let src = gl_source(true, vec![], vec![]);
    let (descs, report) = src.repos(Err(DiscoveryError::HttpStatus(401)));
    assert!(descs.is_empty());
    assert!(report.is_none());
    let (descs, report) = src.repos(Err(DiscoveryError::InvalidResponse(String::from(
        "expected a list of project records",
    ))));
    assert!(descs.is_empty());
    assert!(report.is_none());
}

#[test]
fn github_successful_listing_filters() {
    let src = gh_source(true, vec![], vec!["skip"]);
    let records = vec![gh_record("alice", "keep", false), gh_record("alice", "skip", false)];
    let (descs, report) = src.repos(Ok(records));
    assert_eq!(descs.len(), 1);
    assert_eq!(descs[0].name, "keep");
    assert!(report.is_some());
}

#[test]
fn settings_hold_sources_in_order() {
    let settings = GitBackupSettings {
        sources: vec![
            Source::Github(gh_source(true, vec![], vec![])),
            Source::Gitlab(gl_source(false, vec![], vec![])),
        ],
        target: String::from("/backups"),
    };
    assert_eq!(settings.sources.len(), 2);
    assert_eq!(settings.target, "/backups");
    match &settings.sources[0] {
        Source::Github(gh) => assert!(gh.forks),
        Source::Gitlab(_) => panic!("first source must stay the configured GitHub account"),
    }
}
