//! The declarative configuration one backup pass consumes: the ordered
//! list of provider accounts and the storage root.

use crate::github::GithubSource;
use crate::gitlab::GitlabSource;
use vstd::prelude::*;

verus! {

/// One configured source, tagged by provider kind. The tag is resolved
/// once at load time and routes the account to its discovery variant.
#[derive(Clone, Debug)]
pub enum Source {
    Github(GithubSource),
    Gitlab(GitlabSource),
}

/// The full configuration of one backup pass: the ordered source list and
/// the storage root every mirror lives under.
#[derive(Clone, Debug)]
pub struct GitBackupSettings {
    pub sources: Vec<Source>,
    pub target: String,
}

} // verus!
