//! Repository descriptors, their storage layout, and the per-repository
//! sync decisions.

use vstd::prelude::*;
use vstd::string::StringExecFns;

verus! {

/// Which clone URL form discovery resolves for a repository: the SSH form
/// or the HTTPS form carried by the provider's record.
#[derive(Clone, Copy, Debug, PartialEq, Eq, Structural)]
pub enum CloneType {
    SSH,
    HTTPS,
}

/// The normalized unit of work: one repository to back up. `source` is the
/// storage namespace the descriptor came from (a provider name or a
/// user-assigned alias), `owner` and `name` identify the repository on the
/// remote, and `url` is the clone URL already resolved to the configured
/// protocol. `(source, owner, name)` identifies the local mirror's storage
/// slot; descriptors are built fresh on every discovery pass and never
/// mutated.
#[derive(Clone, Debug)]
pub struct GitRepo {
    pub source: String,
    pub owner: String,
    pub name: String,
    pub url: String,
}

/// The mathematical content of a descriptor: its four fields as character
/// sequences.
pub ghost struct RepoView {
    pub source: Seq<char>,
    pub owner: Seq<char>,
    pub name: Seq<char>,
    pub url: Seq<char>,
}

impl View for GitRepo {
    type V = RepoView;

    open spec fn view(&self) -> RepoView {
        RepoView {
            source: self.source@,
            owner: self.owner@,
            name: self.name@,
            url: self.url@,
        }
    }
}

impl DeepView for GitRepo {
    type V = RepoView;

    open spec fn deep_view(&self) -> RepoView {
        self.view()
    }
}

/// The storage slot a descriptor maps to: `root/source/owner/name`.
pub open spec fn mirror_path_view(root: Seq<char>, d: RepoView) -> Seq<char> {
    root + seq!['/'] + d.source + seq!['/'] + d.owner + seq!['/'] + d.name
}

/// Builds the filesystem path of a descriptor's local mirror under the
/// storage root, joining root, source, owner and name with `/`.
pub fn mirror_path(root: &str, repo: &GitRepo) -> (p: String)
    ensures
        p@ == mirror_path_view(root@, repo@),
{
    proof {
        reveal_strlit("/");
        assert("/"@ =~= seq!['/']);
    }
    let mut p = root.to_owned();
    p.append("/");
    p.append(repo.source.as_str());
    p.append("/");
    p.append(repo.owner.as_str());
    p.append("/");
    p.append(repo.name.as_str());
    proof {
        assert(p@ =~= mirror_path_view(root@, repo@));
    }
    p
}

/// Joining two parts with a separator the left part never contains is
/// injective: equal joins force equal parts.
proof fn lemma_slash_join_injective(a1: Seq<char>, b1: Seq<char>, a2: Seq<char>, b2: Seq<char>)
    requires
        !a1.contains('/'),
        !a2.contains('/'),
        a1 + seq!['/'] + b1 == a2 + seq!['/'] + b2,
    ensures
        a1 == a2,
        b1 == b2,
{
    let s1 = a1 + seq!['/'] + b1;
    let s2 = a2 + seq!['/'] + b2;
    if a1.len() < a2.len() {
        assert(s1[a1.len() as int] == '/');
        assert(s2[a1.len() as int] == a2[a1.len() as int]);
        assert(a2.contains('/')) by {
            assert(a2[a1.len() as int] == '/');
        }
        assert(false);
    }
    if a2.len() < a1.len() {
        assert(s2[a2.len() as int] == '/');
        assert(s1[a2.len() as int] == a1[a2.len() as int]);
        assert(a1.contains('/')) by {
            assert(a1[a2.len() as int] == '/');
        }
        assert(false);
    }
    assert(a1 =~= a2) by {
        assert(forall|i: int| 0 <= i < a1.len() ==> s1[i] == a1[i] && s2[i] == a2[i]);
    }
    assert(a1.len() == a2.len());
    assert(s1.len() == a1.len() + 1 + b1.len());
    assert(s2.len() == a2.len() + 1 + b2.len());
    assert(s1.len() == s2.len());
    assert(b1.len() == b2.len());
    assert(b1 =~= b2) by {
        assert forall|i: int| 0 <= i < b1.len() implies b1[i] == b2[i] by {
            assert(s1[a1.len() + 1 + i] == b1[i]);
            assert(s2[a2.len() + 1 + i] == b2[i]);
            assert(s1[a1.len() + 1 + i] == s2[a1.len() + 1 + i]);
        }
    }
}

/// Distinct descriptors occupy distinct storage slots: under one root,
/// and with `/` absent from sources and owners, equal mirror paths force
/// equal `(source, owner, name)` identities. This is what lets one pass
/// run concurrent repository tasks against the same storage root with no
/// locking: tasks for different descriptors never touch the same path.
pub proof fn lemma_mirror_path_injective(root: Seq<char>, d1: RepoView, d2: RepoView)
    requires
        !d1.source.contains('/'),
        !d1.owner.contains('/'),
        !d2.source.contains('/'),
        !d2.owner.contains('/'),
        mirror_path_view(root, d1) == mirror_path_view(root, d2),
    ensures
        d1.source == d2.source,
        d1.owner == d2.owner,
        d1.name == d2.name,
{
    let rest1 = d1.source + seq!['/'] + (d1.owner + seq!['/'] + d1.name);
    let rest2 = d2.source + seq!['/'] + (d2.owner + seq!['/'] + d2.name);
    assert(mirror_path_view(root, d1) =~= (root + seq!['/']) + rest1);
    assert(mirror_path_view(root, d2) =~= (root + seq!['/']) + rest2);
    let p1 = (root + seq!['/']) + rest1;
    let p2 = (root + seq!['/']) + rest2;
    assert(rest1 =~= rest2) by {
        assert(forall|i: int|
            0 <= i < rest1.len() ==> p1[root.len() + 1 + i] == rest1[i] && p2[root.len() + 1 + i]
                == rest2[i]);
    }
    lemma_slash_join_injective(
        d1.source,
        d1.owner + seq!['/'] + d1.name,
        d2.source,
        d2.owner + seq!['/'] + d2.name,
    );
    lemma_slash_join_injective(d1.owner, d1.name, d2.owner, d2.name);
}

/// Whether probing the storage slot found an openable repository.
#[derive(Clone, Copy, Debug, PartialEq, Eq, Structural)]
pub enum ProbeResult {
    Opened,
    Absent,
}

/// The operation the sync engine performs on a repository's storage slot.
#[derive(Clone, Copy, Debug, PartialEq, Eq, Structural)]
pub enum SyncAction {
    Update,
    Mirror,
}

/// The probe's verdict alone decides the sync action: an existing
/// repository is updated in place, a missing or unopenable slot gets a
/// full bare mirror clone. There is no persisted state and no retry.
pub fn decide_action(probe: ProbeResult) -> (a: SyncAction)
    ensures
        a == (match probe {
            ProbeResult::Opened => SyncAction::Update,
            ProbeResult::Absent => SyncAction::Mirror,
        }),
{
    match probe {
        ProbeResult::Opened => SyncAction::Update,
        ProbeResult::Absent => SyncAction::Mirror,
    }
}

/// Interprets the transferred-object count the transport reported after an
/// update: a positive count means the mirror was behind and is reported,
/// zero means it was already current.
pub fn fetch_report(total_objects: usize) -> (r: Option<usize>)
    ensures
        r == (if total_objects > 0 {
            Some(total_objects)
        } else {
            None::<usize>
        }),
{
    if total_objects > 0 {
        Some(total_objects)
    } else {
        None
    }
}

/// Why a discovery pass over one source failed. Any of these aborts the
/// whole listing for that source; no partial page accumulation is kept.
#[derive(Clone, Debug)]
pub enum DiscoveryError {
    /// The endpoint answered with a non-success HTTP status.
    HttpStatus(u16),
    /// The request itself failed before a status was available.
    Network(String),
    /// The endpoint answered, but the body was not a list of records.
    InvalidResponse(String),
}

/// Largest number of excluded repositories whose identifying names are
/// still listed one by one; past it only the count is reported.
pub const EXCLUSION_LIST_MAX: usize = 20;

/// What a provider reports about the records its filters excluded: the
/// bare count when the list would flood the log, the full identifying
/// list otherwise.
#[derive(Clone, Debug)]
pub enum ExclusionReport {
    CountOnly(usize),
    Listed(Vec<String>),
}

/// What the report of an excluded-name list must hold: the bare count when
/// the list is longer than `EXCLUSION_LIST_MAX`, the whole list otherwise.
pub open spec fn exclusion_report_of(names: Seq<Seq<char>>, r: ExclusionReport) -> bool {
    if names.len() > EXCLUSION_LIST_MAX {
        (r matches ExclusionReport::CountOnly(n) && n == names.len())
    } else {
        (r matches ExclusionReport::Listed(l) && l.deep_view() == names)
    }
}

/// Folds an excluded-name list into what is reported: the count alone
/// when more than `EXCLUSION_LIST_MAX` records were excluded, the whole
/// list otherwise.
pub fn exclusion_report(names: Vec<String>) -> (r: ExclusionReport)
    ensures
        exclusion_report_of(names.deep_view(), r),
{
    if names.len() > EXCLUSION_LIST_MAX {
        ExclusionReport::CountOnly(names.len())
    } else {
        ExclusionReport::Listed(names)
    }
}

/// Exact, case-sensitive membership of a name in an exclusion list.
pub fn contains_string(list: &Vec<String>, s: &String) -> (b: bool)
    ensures
        b == list.deep_view().contains(s@),
{
    let mut i: usize = 0;
    while i < list.len()
        invariant
            i <= list.len(),
            forall|j: int| 0 <= j < i ==> list.deep_view()[j] != s@,
        decreases list.len() - i,
    {
        if list[i] == *s {
            assert(list.deep_view()[i as int] == s@);
            return true;
        }
        i += 1;
    }
    assert(forall|j: int| 0 <= j < list.deep_view().len() ==> list.deep_view()[j] != s@);
    false
}

} // verus!
