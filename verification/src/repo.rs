//! Discovered repositories.

use vstd::prelude::*;
use std::path::PathBuf;
use crate::text::{push_char, lex_lt, str_lt, lemma_lex_lt_irreflexive, lemma_lex_lt_asymmetric, lemma_lex_lt_total, lemma_lex_lt_transitive};

verus! {

#[verifier::external_type_specification]
#[verifier::external_body]
pub struct ExPathBuf(PathBuf);

/// Index into the flat `repos: Vec<Repo>`.
pub type RepoId = usize;

#[derive(Debug, Clone, Copy, PartialEq, Eq, Structural)]
pub enum RepoStatus {
    Idle,
    Running,
    Done(i32),
    Failed,
    /// Killed by cancel after it had started running.
    Cancelled,
    /// Not yet started when cancel was requested (never ran).
    Skipped,
}

#[derive(Debug)]
pub struct Repo {
    pub fqdn: String,
    pub user: String,
    pub name: String,
    pub path: PathBuf,
    pub checked: bool,
    pub status: RepoStatus,
}

impl Repo {
    /// `user/repo` label used in output box headers etc.
    pub fn slug(&self) -> (s: String)
        ensures
            s@ == self.user@ + seq!['/'] + self.name@,
    {
        let mut s = self.user.clone();
        push_char(&mut s, '/');
        s.append(self.name.as_str());
        s
    }

    /// `fqdn/user/repo` relative path used for glob matching.
    pub fn rel_path(&self) -> (s: String)
        ensures
            s@ == self.fqdn@ + seq!['/'] + self.user@ + seq!['/'] + self.name@,
    {
        let mut s = self.fqdn.clone();
        push_char(&mut s, '/');
        s.append(self.user.as_str());
        push_char(&mut s, '/');
        s.append(self.name.as_str());
        s
    }
}

/// A repository directory found at `<root>/<fqdn>/<user>/<name>` (it holds `.git`).
pub struct RepoDir {
    pub fqdn: String,
    pub user: String,
    pub name: String,
    pub path: PathBuf,
}

/// The repo record for a found directory: unchecked and idle.
pub open spec fn found_repo(d: RepoDir) -> Repo {
    Repo { fqdn: d.fqdn, user: d.user, name: d.name, path: d.path, checked: false, status: RepoStatus::Idle }
}

/// Repo order: by fqdn, then user, then name.
pub open spec fn repo_lt(a: Repo, b: Repo) -> bool {
    ||| lex_lt(a.fqdn@, b.fqdn@)
    ||| a.fqdn@ == b.fqdn@ && lex_lt(a.user@, b.user@)
    ||| a.fqdn@ == b.fqdn@ && a.user@ == b.user@ && lex_lt(a.name@, b.name@)
}

/// Sorted by (fqdn, user, name).
pub open spec fn repos_sorted(s: Seq<Repo>) -> bool {
    forall|i: int, j: int| 0 <= i < j < s.len() ==> !repo_lt(#[trigger] s[j], #[trigger] s[i])
}

proof fn lemma_repo_lt_facts(a: Repo, b: Repo, c: Repo)
    ensures
        repo_lt(a, b) ==> !repo_lt(b, a),
        repo_lt(a, b) && !repo_lt(c, b) ==> repo_lt(a, c),
{
    lemma_lex_lt_asymmetric(a.fqdn@, b.fqdn@);
    lemma_lex_lt_asymmetric(a.user@, b.user@);
    lemma_lex_lt_asymmetric(a.name@, b.name@);
    lemma_lex_lt_irreflexive(a.fqdn@);
    lemma_lex_lt_irreflexive(a.user@);
    lemma_lex_lt_irreflexive(a.name@);
    lemma_lex_lt_total(b.fqdn@, c.fqdn@);
    lemma_lex_lt_total(b.user@, c.user@);
    lemma_lex_lt_total(b.name@, c.name@);
    lemma_lex_lt_transitive(a.fqdn@, b.fqdn@, c.fqdn@);
    lemma_lex_lt_transitive(a.user@, b.user@, c.user@);
    lemma_lex_lt_transitive(a.name@, b.name@, c.name@);
}

fn repo_less(a: &Repo, b: &Repo) -> (r: bool)
    ensures
        r == repo_lt(*a, *b),
{
    if str_lt(a.fqdn.as_str(), b.fqdn.as_str()) {
        return true;
    }
    if a.fqdn != b.fqdn {
        return false;
    }
    if str_lt(a.user.as_str(), b.user.as_str()) {
        return true;
    }
    if a.user != b.user {
        return false;
    }
    str_lt(a.name.as_str(), b.name.as_str())
}

/// Collect the found repository directories as repos (unchecked, idle),
/// sorted by (fqdn, user, name).
pub fn discover(dirs: Vec<RepoDir>) -> (repos: Vec<Repo>)
    ensures
        repos_sorted(repos@),
        repos@.to_multiset() == dirs@.map_values(|d: RepoDir| found_repo(d)).to_multiset(),
{
    broadcast use vstd::seq_lib::group_to_multiset_ensures;

    let ghost all = dirs@.map_values(|d: RepoDir| found_repo(d));
    let mut rest = dirs;
    let mut repos: Vec<Repo> = Vec::new();
    while rest.len() > 0
        invariant
            repos_sorted(repos@),
            repos@.to_multiset().add(rest@.map_values(|d: RepoDir| found_repo(d)).to_multiset())
                == all.to_multiset(),
        decreases rest@.len(),
    {
        let ghost rest0 = rest@;
        let d = rest.pop().unwrap();
        assert(rest0.map_values(|d: RepoDir| found_repo(d)) =~= rest@.map_values(|d: RepoDir| found_repo(d)).push(found_repo(d)));
        let repo = Repo { fqdn: d.fqdn, user: d.user, name: d.name, path: d.path, checked: false, status: RepoStatus::Idle };
        let mut p: usize = 0;
        while p < repos.len() && repo_less(&repos[p], &repo)
            invariant
                p <= repos@.len(),
                forall|i: int| 0 <= i < p ==> repo_lt(#[trigger] repos@[i], repo),
            decreases repos@.len() - p,
        {
            p = p + 1;
        }
        let ghost before = repos@;
        proof {
            assert forall|j: int| p <= j < before.len() implies !repo_lt(#[trigger] before[j], repo) by {
                lemma_repo_lt_facts(before[j], repo, before[p as int]);
                lemma_repo_lt_facts(before[j], before[p as int], repo);
                if j > p {
                    assert(!repo_lt(before[j], before[p as int]));
                }
            }
            assert forall|i: int| 0 <= i < p implies !repo_lt(repo, #[trigger] before[i]) by {
                lemma_repo_lt_facts(before[i], repo, repo);
            }
        }
        repos.insert(p, repo);
        proof {
            let rm = rest@.map_values(|d: RepoDir| found_repo(d));
            vstd::seq_lib::to_multiset_build(rm, found_repo(d));
            vstd::seq_lib::to_multiset_insert(before, p as int, found_repo(d));
            assert(repos@.to_multiset().add(rm.to_multiset()) =~= before.to_multiset().add(
                rm.push(found_repo(d)).to_multiset(),
            ));
            assert forall|i: int, j: int| 0 <= i < j < repos@.len() implies !repo_lt(#[trigger] repos@[j], #[trigger] repos@[i]) by {
                if j < p {
                    assert(repos@[i] == before[i] && repos@[j] == before[j]);
                } else if j == p {
                } else if i < p {
                    assert(repos@[j] == before[j - 1]);
                    assert(repos@[i] == before[i]);
                    lemma_repo_lt_facts(before[j - 1], before[i], repo);
                    lemma_repo_lt_facts(before[i], repo, before[j - 1]);
                } else if i == p {
                    assert(repos@[j] == before[j - 1]);
                } else {
                    assert(repos@[j] == before[j - 1] && repos@[i] == before[i - 1]);
                }
            }
        }
    }
    assert(rest@.map_values(|d: RepoDir| found_repo(d)) =~= Seq::<Repo>::empty());
    repos
}

} // verus!
