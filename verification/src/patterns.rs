//! Glob patterns over `fqdn/user/repo` that pre-check repos at startup.

use vstd::prelude::*;
use glob::Pattern;
use crate::repo::Repo;

verus! {

#[verifier::external_type_specification]
#[verifier::external_body]
pub struct ExPattern(Pattern);

/// Whether `glob::Pattern::new` accepts the pattern text.
pub uninterp spec fn glob_compiles(pattern: Seq<char>) -> bool;

/// Whether the compiled pattern matches the text (`glob::Pattern::matches`,
/// default match options).
pub uninterp spec fn glob_match(pattern: Seq<char>, text: Seq<char>) -> bool;

/// A compiled glob pattern together with the text it was compiled from.
pub struct Glob {
    source: String,
    compiled: Pattern,
}

impl Glob {
    /// The text the pattern was compiled from.
    pub closed spec fn source(&self) -> Seq<char> {
        self.source@
    }
}

/// Compiles a pattern with `glob::Pattern::new`, keeping its text.
/// Claimed: the result is present exactly when the crate accepts the text
/// (`glob_compiles`), and it records that text. Which texts are accepted is
/// the crate's grammar, left unstated here.
#[verifier::external_body]
fn compile_glob(pattern: &String) -> (g: Option<Glob>)
    ensures
        g is Some == glob_compiles(pattern@),
        g matches Some(g) ==> g.source() == pattern@,
{
    match Pattern::new(pattern.as_str()) {
        Ok(compiled) => Some(Glob { source: pattern.clone(), compiled }),
        Err(_) => None,
    }
}

/// `glob::Pattern::matches` on the compiled pattern.
/// Claimed: the answer is `glob_match` of the pattern's text and `text`;
/// what matches is the crate's matching rules, left unstated here.
#[verifier::external_body]
fn glob_matches(g: &Glob, text: &str) -> (b: bool)
    ensures
        b == glob_match(g.source(), text@),
{
    g.compiled.matches(text)
}

/// The relative path that patterns are matched against: `fqdn/user/repo`.
pub open spec fn rel_of(r: Repo) -> Seq<char> {
    r.fqdn@ + seq!['/'] + r.user@ + seq!['/'] + r.name@
}

/// Whether some accepted pattern among `patterns` matches `text`.
pub open spec fn selected_by(patterns: Seq<String>, text: Seq<char>) -> bool {
    exists|i: int| 0 <= i < patterns.len() && glob_compiles(#[trigger] patterns[i]@) && glob_match(patterns[i]@, text)
}

/// `repos` with every repo that a pattern selects checked.
pub open spec fn prechecked(repos: Seq<Repo>, patterns: Seq<String>) -> Seq<Repo> {
    Seq::new(
        repos.len(),
        |k: int| Repo { checked: repos[k].checked || selected_by(patterns, rel_of(repos[k])), ..repos[k] },
    )
}

/// Whether some compiled pattern matches `text`.
fn any_match(globs: &Vec<Glob>, text: &str) -> (b: bool)
    ensures
        b == exists|q: int| 0 <= q < globs@.len() && glob_match(#[trigger] globs@[q].source(), text@),
{
    let mut j: usize = 0;
    while j < globs.len()
        invariant
            j <= globs@.len(),
            forall|q: int| 0 <= q < j ==> !glob_match(#[trigger] globs@[q].source(), text@),
        decreases globs@.len() - j,
    {
        if glob_matches(&globs[j], text) {
            return true;
        }
        j = j + 1;
    }
    false
}

/// The compiled patterns stand for exactly the accepted pattern texts:
/// `srcs[j]` is the position of the text that `globs[j]` came from.
pub open spec fn compiled_from(globs: Seq<Glob>, srcs: Seq<int>, patterns: Seq<String>, n: int) -> bool {
    &&& srcs.len() == globs.len()
    &&& forall|j: int| 0 <= j < srcs.len() ==> {
        &&& 0 <= #[trigger] srcs[j] < n
        &&& globs[j].source() == patterns[srcs[j]]@
        &&& glob_compiles(patterns[srcs[j]]@)
    }
    &&& forall|p: int| 0 <= p < n && glob_compiles(#[trigger] patterns[p]@) ==> srcs.contains(p)
}

proof fn lemma_any_match_selected(globs: Seq<Glob>, srcs: Seq<int>, patterns: Seq<String>, text: Seq<char>)
    requires
        compiled_from(globs, srcs, patterns, patterns.len() as int),
    ensures
        (exists|q: int| 0 <= q < globs.len() && glob_match(#[trigger] globs[q].source(), text)) == selected_by(patterns, text),
{
    if exists|q: int| 0 <= q < globs.len() && glob_match(#[trigger] globs[q].source(), text) {
        let q = choose|q: int| 0 <= q < globs.len() && glob_match(#[trigger] globs[q].source(), text);
        let p = srcs[q];
        assert(glob_compiles(patterns[p]@) && glob_match(patterns[p]@, text));
    }
    if selected_by(patterns, text) {
        let p = choose|p: int| 0 <= p < patterns.len() && glob_compiles(#[trigger] patterns[p]@) && glob_match(patterns[p]@, text);
        assert(srcs.contains(p));
        let q = choose|q: int| 0 <= q < srcs.len() && srcs[q] == p;
        assert(glob_match(globs[q].source(), text));
    }
}

/// Pre-check repos matching the `default_checked` globs (`fqdn/user/repo`).
/// Patterns that do not compile are ignored.
pub fn apply_default_checked(repos: &mut Vec<Repo>, patterns: &Vec<String>)
    ensures
        final(repos)@ == prechecked(old(repos)@, patterns@),
{
    let mut globs: Vec<Glob> = Vec::new();
    let ghost mut srcs: Seq<int> = Seq::empty();
    let mut i: usize = 0;
    while i < patterns.len()
        invariant
            i <= patterns@.len(),
            compiled_from(globs@, srcs, patterns@, i as int),
        decreases patterns@.len() - i,
    {
        let ghost s0 = srcs;
        match compile_glob(&patterns[i]) {
            Some(g) => {
                globs.push(g);
                proof {
                    srcs = srcs.push(i as int);
                    assert forall|p: int| 0 <= p < i + 1 && glob_compiles(#[trigger] patterns@[p]@) implies srcs.contains(p) by {
                        if p < i {
                            let q = choose|q: int| 0 <= q < s0.len() && s0[q] == p;
                            assert(srcs[q] == p);
                        } else {
                            assert(srcs[srcs.len() - 1] == p);
                        }
                    }
                }
            },
            None => {
                proof {
                    assert forall|p: int| 0 <= p < i + 1 && glob_compiles(#[trigger] patterns@[p]@) implies srcs.contains(p) by {
                        if p == i {
                            assert(!glob_compiles(patterns@[p]@));
                        }
                    }
                }
            },
        }
        i = i + 1;
    }
    let mut hits: Vec<bool> = Vec::new();
    let mut k: usize = 0;
    while k < repos.len()
        invariant
            k <= repos@.len(),
            hits@.len() == k,
            compiled_from(globs@, srcs, patterns@, patterns@.len() as int),
            forall|j: int| 0 <= j < k ==> #[trigger] hits@[j] == selected_by(patterns@, rel_of(repos@[j])),
        decreases repos@.len() - k,
    {
        let rel = repos[k].rel_path();
        let hit = any_match(&globs, rel.as_str());
        proof {
            lemma_any_match_selected(globs@, srcs, patterns@, rel@);
        }
        hits.push(hit);
        k = k + 1;
    }
    check_hits(repos, &hits);
    assert(repos@ =~= prechecked(old(repos)@, patterns@));
}

/// Checks every repo whose entry in `hits` is set; the others keep their mark.
pub fn check_hits(repos: &mut Vec<Repo>, hits: &Vec<bool>)
    requires
        old(repos)@.len() == hits@.len(),
    ensures
        final(repos)@.len() == old(repos)@.len(),
        forall|k: int| 0 <= k < hits@.len() ==> #[trigger] final(repos)@[k] == (Repo {
            checked: old(repos)@[k].checked || hits@[k],
            ..old(repos)@[k]
        }),
{
    let mut k: usize = 0;
    while k < hits.len()
        invariant
            k <= hits@.len(),
            repos@.len() == hits@.len(),
            repos@.len() == old(repos)@.len(),
            forall|j: int| 0 <= j < k ==> #[trigger] repos@[j] == (Repo { checked: old(repos)@[j].checked || hits@[j], ..old(repos)@[j] }),
            forall|j: int| k <= j < repos@.len() ==> #[trigger] repos@[j] == old(repos)@[j],
        decreases hits@.len() - k,
    {
        if hits[k] {
            repos[k].checked = true;
        }
        k = k + 1;
    }
}

} // verus!
