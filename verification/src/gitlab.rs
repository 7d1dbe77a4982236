//! Discovery from a GitLab-style listing API, including self-hosted
//! instances reached through a configurable base URL: the account
//! configuration, the raw project records, and the filter policy that
//! turns surviving records into repository descriptors.

use crate::git::{
    contains_string, exclusion_report, exclusion_report_of, CloneType, DiscoveryError,
    ExclusionReport, GitRepo, RepoView,
};
use vstd::prelude::*;

verus! {

/// One configured GitLab account: an optional storage-namespace alias (so
/// several self-hosted instances stay apart on disk), an optional base
/// URL, the credential, the clone protocol, the forks flag and the two
/// exact-match exclusion sets.
#[derive(Clone, Debug)]
pub struct GitlabSource {
    pub name: Option<String>,
    pub url: Option<String>,
    pub token: String,
    pub clone: CloneType,
    pub forks: bool,
    pub exclude_owners: Vec<String>,
    pub exclude: Vec<String>,
}

/// The forked-from reference a record carries when the project is a fork.
#[derive(Clone, Copy, Debug, PartialEq, Eq, Structural)]
pub struct GitlabForkedFrom {
    pub id: usize,
}

/// The namespace (owner) field of a raw project record.
#[derive(Clone, Debug)]
pub struct GitlabNamespace {
    pub path: String,
}

/// One raw project record as the listing endpoint reports it.
#[derive(Clone, Debug)]
pub struct GitlabRepo {
    pub path: String,
    pub path_with_namespace: String,
    pub ssh_url_to_repo: String,
    pub http_url_to_repo: String,
    pub forked_from_project: Option<GitlabForkedFrom>,
    pub namespace: GitlabNamespace,
}

/// The storage namespace this account's descriptors carry: the configured
/// alias when one is set, the literal platform name otherwise.
pub open spec fn gitlab_source_name(src: GitlabSource) -> Seq<char> {
    match src.name {
        Some(n) => n@,
        None => "gitlab"@,
    }
}

/// The filter policy, the same shape as the GitHub one with "carries a
/// forked-from reference" standing in for "is a fork": a record survives
/// if and only if forks are allowed or it is not a fork, its namespace is
/// not in the excluded-owners set, and its path is not in the
/// excluded-names set.
pub open spec fn gitlab_included(src: GitlabSource, r: GitlabRepo) -> bool {
    &&& (src.forks || r.forked_from_project is None)
    &&& !src.exclude_owners.deep_view().contains(r.namespace.path@)
    &&& !src.exclude.deep_view().contains(r.path@)
}

/// The descriptor a surviving record maps to: the source namespace is the
/// account's alias or the platform name, owner and name come from the
/// record's namespace and path, and the URL follows the configured clone
/// protocol.
pub open spec fn gitlab_descriptor(src: GitlabSource, r: GitlabRepo) -> RepoView {
    RepoView {
        source: gitlab_source_name(src),
        owner: r.namespace.path@,
        name: r.path@,
        url: match src.clone {
            CloneType::SSH => r.ssh_url_to_repo@,
            CloneType::HTTPS => r.http_url_to_repo@,
        },
    }
}

/// Descriptors of the records that survive the filter, in listing order.
pub open spec fn gitlab_survivors(src: GitlabSource, rs: Seq<GitlabRepo>) -> Seq<RepoView>
    decreases rs.len(),
{
    if rs.len() == 0 {
        Seq::<RepoView>::empty()
    } else {
        gitlab_survivors(src, rs.drop_last()) + (if gitlab_included(src, rs.last()) {
            seq![gitlab_descriptor(src, rs.last())]
        } else {
            Seq::<RepoView>::empty()
        })
    }
}

/// Identifying names of the records the filter excluded, in listing order.
pub open spec fn gitlab_excluded_names(src: GitlabSource, rs: Seq<GitlabRepo>) -> Seq<Seq<char>>
    decreases rs.len(),
{
    if rs.len() == 0 {
        Seq::<Seq<char>>::empty()
    } else {
        gitlab_excluded_names(src, rs.drop_last()) + (if gitlab_included(src, rs.last()) {
            Seq::<Seq<char>>::empty()
        } else {
            seq![rs.last().path_with_namespace@]
        })
    }
}

impl GitlabSource {
    /// Whether one raw record passes this account's filters.
    pub fn includes(&self, r: &GitlabRepo) -> (b: bool)
        ensures
            b == gitlab_included(*self, *r),
    {
        (self.forks || r.forked_from_project.is_none()) && !contains_string(
            &self.exclude_owners,
            &r.namespace.path,
        ) && !contains_string(&self.exclude, &r.path)
    }

    /// The storage namespace this account's descriptors carry.
    pub fn source_name(&self) -> (s: String)
        ensures
            s@ == gitlab_source_name(*self),
    {
        match &self.name {
            Some(n) => n.clone(),
            None => "gitlab".to_owned(),
        }
    }

    /// Maps one surviving record to its descriptor.
    pub fn descriptor(&self, r: &GitlabRepo) -> (d: GitRepo)
        ensures
            d@ == gitlab_descriptor(*self, *r),
    {
        GitRepo {
            source: self.source_name(),
            owner: r.namespace.path.clone(),
            name: r.path.clone(),
            url: match self.clone {
                CloneType::SSH => r.ssh_url_to_repo.clone(),
                CloneType::HTTPS => r.http_url_to_repo.clone(),
            },
        }
    }

    /// Applies the filter policy to one full listing: survivors become
    /// descriptors in listing order, and the excluded records' identifying
    /// names are kept aside for the report.
    pub fn filter_repos(&self, records: &Vec<GitlabRepo>) -> (r: (Vec<GitRepo>, Vec<String>))
        ensures
            r.0.deep_view() == gitlab_survivors(*self, records@),
            r.1.deep_view() == gitlab_excluded_names(*self, records@),
    {
        let mut out: Vec<GitRepo> = Vec::new();
        let mut names: Vec<String> = Vec::new();
        let mut i: usize = 0;
        while i < records.len()
            invariant
                i <= records.len(),
                out.deep_view() == gitlab_survivors(*self, records@.take(i as int)),
                names.deep_view() == gitlab_excluded_names(*self, records@.take(i as int)),
            decreases records.len() - i,
        {
            proof {
                assert(records@.take(i as int + 1).drop_last() =~= records@.take(i as int));
                assert(records@.take(i as int + 1).last() == records@[i as int]);
            }
            let rec = &records[i];
            if self.includes(rec) {
                let d = self.descriptor(rec);
                out.push(d);
                proof {
                    assert(out.deep_view() =~= gitlab_survivors(
                        *self,
                        records@.take(i as int + 1),
                    ));
                    assert(names.deep_view() =~= gitlab_excluded_names(
                        *self,
                        records@.take(i as int + 1),
                    ));
                }
            } else {
                names.push(rec.path_with_namespace.clone());
                proof {
                    assert(out.deep_view() =~= gitlab_survivors(
                        *self,
                        records@.take(i as int + 1),
                    ));
                    assert(names.deep_view() =~= gitlab_excluded_names(
                        *self,
                        records@.take(i as int + 1),
                    ));
                }
            }
            i += 1;
        }
        proof {
            assert(records@.take(records@.len() as int) =~= records@);
        }
        (out, names)
    }

    /// The pure tail of one listing pass: filter the fetched records, map
    /// the survivors to descriptors, and fold the exclusions into the log
    /// report.
    pub fn user_repos(&self, records: &Vec<GitlabRepo>) -> (r: (Vec<GitRepo>, ExclusionReport))
        ensures
            r.0.deep_view() == gitlab_survivors(*self, records@),
            exclusion_report_of(gitlab_excluded_names(*self, records@), r.1),
    {
        let (descs, names) = self.filter_repos(records);
        let report = exclusion_report(names);
        (descs, report)
    }

    /// The provider operation as its caller sees it: infallible. A failed
    /// listing is absorbed and yields no descriptors, so one misbehaving
    /// source never blocks the others; a successful one yields the
    /// filtered descriptors and the exclusion report.
    pub fn repos(&self, fetched: Result<Vec<GitlabRepo>, DiscoveryError>) -> (r: (
        Vec<GitRepo>,
        Option<ExclusionReport>,
    ))
        ensures
            fetched is Err ==> r.0@.len() == 0 && r.1 is None,
            fetched matches Ok(records) ==> r.0.deep_view() == gitlab_survivors(*self, records@)
                && (r.1 matches Some(rep) && exclusion_report_of(
                gitlab_excluded_names(*self, records@),
                rep,
            )),
    {
        match fetched {
            Ok(records) => {
                let (descs, report) = self.user_repos(&records);
                (descs, Some(report))
            },
            Err(_) => (Vec::new(), None),
        }
    }
}

} // verus!
