//! Discovery from a GitHub-style listing API: the account configuration,
//! the raw repository records the endpoint reports, and the filter policy
//! that turns surviving records into repository descriptors.

use crate::git::{
    contains_string, exclusion_report, exclusion_report_of, CloneType, DiscoveryError,
    ExclusionReport, GitRepo, RepoView,
};
use vstd::prelude::*;

verus! {

/// One configured GitHub account: its credential, the clone protocol its
/// descriptors resolve to, whether forks are backed up, and the two
/// exact-match exclusion sets.
#[derive(Clone, Debug)]
pub struct GithubSource {
    pub user: String,
    pub token: String,
    pub clone: CloneType,
    pub forks: bool,
    pub exclude_owners: Vec<String>,
    pub exclude: Vec<String>,
}

/// The owner field of a raw listing record.
#[derive(Clone, Debug)]
pub struct GithubRepoOwner {
    pub login: String,
}

/// One raw repository record as the listing endpoint reports it.
#[derive(Clone, Debug)]
pub struct GithubRepo {
    pub owner: GithubRepoOwner,
    pub name: String,
    pub full_name: String,
    pub ssh_url: String,
    pub clone_url: String,
    pub fork: bool,
}

/// The filter policy: a record survives if and only if forks are allowed
/// or it is not a fork, its owner is not in the excluded-owners set, and
/// its name is not in the excluded-names set. Both sets match exactly and
/// case-sensitively against the record's raw owner and name.
pub open spec fn github_included(src: GithubSource, r: GithubRepo) -> bool {
    &&& (src.forks || !r.fork)
    &&& !src.exclude_owners.deep_view().contains(r.owner.login@)
    &&& !src.exclude.deep_view().contains(r.name@)
}

/// The descriptor a surviving record maps to: the source namespace is the
/// literal provider name, owner and name come from the record unchanged,
/// and the URL follows the account's configured clone protocol.
pub open spec fn github_descriptor(src: GithubSource, r: GithubRepo) -> RepoView {
    RepoView {
        source: "github"@,
        owner: r.owner.login@,
        name: r.name@,
        url: match src.clone {
            CloneType::SSH => r.ssh_url@,
            CloneType::HTTPS => r.clone_url@,
        },
    }
}

/// Descriptors of the records that survive the filter, in listing order.
pub open spec fn github_survivors(src: GithubSource, rs: Seq<GithubRepo>) -> Seq<RepoView>
    decreases rs.len(),
{
    if rs.len() == 0 {
        Seq::<RepoView>::empty()
    } else {
        github_survivors(src, rs.drop_last()) + (if github_included(src, rs.last()) {
            seq![github_descriptor(src, rs.last())]
        } else {
            Seq::<RepoView>::empty()
        })
    }
}

/// Identifying names of the records the filter excluded, in listing order.
pub open spec fn github_excluded_names(src: GithubSource, rs: Seq<GithubRepo>) -> Seq<Seq<char>>
    decreases rs.len(),
{
    if rs.len() == 0 {
        Seq::<Seq<char>>::empty()
    } else {
        github_excluded_names(src, rs.drop_last()) + (if github_included(src, rs.last()) {
            Seq::<Seq<char>>::empty()
        } else {
            seq![rs.last().full_name@]
        })
    }
}

impl GithubSource {
    /// Whether one raw record passes this account's filters.
    pub fn includes(&self, r: &GithubRepo) -> (b: bool)
        ensures
            b == github_included(*self, *r),
    {
        (self.forks || !r.fork) && !contains_string(&self.exclude_owners, &r.owner.login)
            && !contains_string(&self.exclude, &r.name)
    }

    /// Maps one surviving record to its descriptor.
    pub fn descriptor(&self, r: &GithubRepo) -> (d: GitRepo)
        ensures
            d@ == github_descriptor(*self, *r),
    {
        GitRepo {
            source: "github".to_owned(),
            owner: r.owner.login.clone(),
            name: r.name.clone(),
            url: match self.clone {
                CloneType::SSH => r.ssh_url.clone(),
                CloneType::HTTPS => r.clone_url.clone(),
            },
        }
    }

    /// Applies the filter policy to one full listing: survivors become
    /// descriptors in listing order, and the excluded records' identifying
    /// names are kept aside for the report.
    pub fn filter_repos(&self, records: &Vec<GithubRepo>) -> (r: (Vec<GitRepo>, Vec<String>))
        ensures
            r.0.deep_view() == github_survivors(*self, records@),
            r.1.deep_view() == github_excluded_names(*self, records@),
    {
        let mut out: Vec<GitRepo> = Vec::new();
        let mut names: Vec<String> = Vec::new();
        let mut i: usize = 0;
        while i < records.len()
            invariant
                i <= records.len(),
                out.deep_view() == github_survivors(*self, records@.take(i as int)),
                names.deep_view() == github_excluded_names(*self, records@.take(i as int)),
            decreases records.len() - i,
        {
            proof {
                assert(records@.take(i as int + 1).drop_last() =~= records@.take(i as int));
                assert(records@.take(i as int + 1).last() == records@[i as int]);
            }
            let rec = &records[i];
            if self.includes(rec) {
                let d = self.descriptor(rec);
                out.push(d);
                proof {
                    assert(out.deep_view() =~= github_survivors(
                        *self,
                        records@.take(i as int + 1),
                    ));
                    assert(names.deep_view() =~= github_excluded_names(
                        *self,
                        records@.take(i as int + 1),
                    ));
                }
            } else {
                names.push(rec.full_name.clone());
                proof {
                    assert(out.deep_view() =~= github_survivors(
                        *self,
                        records@.take(i as int + 1),
                    ));
                    assert(names.deep_view() =~= github_excluded_names(
                        *self,
                        records@.take(i as int + 1),
                    ));
                }
            }
            i += 1;
        }
        proof {
            assert(records@.take(records@.len() as int) =~= records@);
        }
        (out, names)
    }

    /// The pure tail of one listing pass: filter the fetched records, map
    /// the survivors to descriptors, and fold the exclusions into the log
    /// report.
    pub fn user_repos(&self, records: &Vec<GithubRepo>) -> (r: (Vec<GitRepo>, ExclusionReport))
        ensures
            r.0.deep_view() == github_survivors(*self, records@),
            exclusion_report_of(github_excluded_names(*self, records@), r.1),
    {
        let (descs, names) = self.filter_repos(records);
        let report = exclusion_report(names);
        (descs, report)
    }

    /// The provider operation as its caller sees it: infallible. A failed
    /// listing is absorbed and yields no descriptors, so one misbehaving
    /// source never blocks the others; a successful one yields the
    /// filtered descriptors and the exclusion report.
    pub fn repos(&self, fetched: Result<Vec<GithubRepo>, DiscoveryError>) -> (r: (
        Vec<GitRepo>,
        Option<ExclusionReport>,
    ))
        ensures
            fetched is Err ==> r.0@.len() == 0 && r.1 is None,
            fetched matches Ok(records) ==> r.0.deep_view() == github_survivors(*self, records@)
                && (r.1 matches Some(rep) && exclusion_report_of(
                github_excluded_names(*self, records@),
                rep,
            )),
    {
        match fetched {
            Ok(records) => {
                let (descs, report) = self.user_repos(&records);
                (descs, Some(report))
            },
            Err(_) => (Vec::new(), None),
        }
    }
}

} // verus!
