//! Resolves a source-repository URL to a base URL from which raw file
//! contents can be fetched, and builds full fetch URLs from a ref (branch or
//! tag) and a filename.

use vstd::prelude::*;
use vstd::string::StrSliceExecFns;
use vstd::string::StringExecFns;
use crate::text::{
    is_prefix_of,
    is_suffix_of,
    occurs_at,
    spec_find,
    lemma_find_first,
    starts_with_str,
    ends_with_str,
    find_str,
};

verus! {

/// The version-control suffix stripped from a repository URL before matching.
pub open spec fn git_suffix() -> Seq<char> {
    ".git"@
}

/// Host prefix of a GitLab-style repository URL.
pub open spec fn gitlab_prefix() -> Seq<char> {
    "https://gitlab."@
}

/// Path segment appended to a GitLab repository URL to reach raw contents.
pub open spec fn gitlab_raw_segment() -> Seq<char> {
    "/-/raw"@
}

/// Host prefix of a GitHub repository URL.
pub open spec fn github_prefix() -> Seq<char> {
    "https://github.com/"@
}

/// Marker inside a GitHub URL that points at a subdirectory of a monorepo.
pub open spec fn tree_marker() -> Seq<char> {
    "/tree/master/"@
}

/// Base of GitHub's raw-content host.
pub open spec fn github_raw_prefix() -> Seq<char> {
    "https://raw.githubusercontent.com/"@
}

/// `s` with every trailing repetition of the `.git` suffix removed.
pub open spec fn spec_trim_git(s: Seq<char>) -> Seq<char>
    decreases s.len(),
{
    if s.len() >= 4 && s.subrange(s.len() - 4, s.len() as int) == git_suffix() {
        spec_trim_git(s.subrange(0, s.len() - 4))
    } else {
        s
    }
}

/// A resolved strategy for fetching raw file contents: a base URL, and the
/// subdirectory of a monorepo the dependency lives in, when there is one.
pub struct RawFilesURL {
    pub base: String,
    pub subdirectory: Option<String>,
}

/// The mathematical value of a `RawFilesURL`.
pub struct RawFilesView {
    pub base: Seq<char>,
    pub subdirectory: Option<Seq<char>>,
}

impl View for RawFilesURL {
    type V = RawFilesView;

    open spec fn view(&self) -> RawFilesView {
        RawFilesView {
            base: self.base@,
            subdirectory: match self.subdirectory {
                Some(s) => Some(s@),
                None => None,
            },
        }
    }
}

/// What a repository URL resolves to, after stripping the `.git` suffix:
/// a GitLab-style URL keeps its host and gains the raw-content segment; a
/// GitHub URL is mapped to the raw-content host, with the monorepo
/// subdirectory split off when a tree marker follows the repository root;
/// any other host is not recognized.
pub open spec fn spec_resolve(url: Seq<char>) -> Option<RawFilesView> {
    let u = spec_trim_git(url);
    if is_prefix_of(gitlab_prefix(), u) {
        Some(RawFilesView { base: u + gitlab_raw_segment(), subdirectory: None })
    } else if is_prefix_of(github_prefix(), u) {
        let p = github_prefix().len() as int;
        match spec_find(u, tree_marker()) {
            Some(i) => if i >= p {
                Some(
                    RawFilesView {
                        base: github_raw_prefix() + u.subrange(p, i),
                        subdirectory: Some(
                            u.subrange(i + tree_marker().len() as int, u.len() as int),
                        ),
                    },
                )
            } else {
                Some(
                    RawFilesView {
                        base: github_raw_prefix() + u.subrange(p, u.len() as int),
                        subdirectory: None,
                    },
                )
            },
            None => Some(
                RawFilesView {
                    base: github_raw_prefix() + u.subrange(p, u.len() as int),
                    subdirectory: None,
                },
            ),
        }
    } else {
        None
    }
}

/// The full fetch URL: base, ref, optional subdirectory and filename, joined
/// by single separators, in that order.
pub open spec fn spec_format(v: RawFilesView, version: Seq<char>, filename: Seq<char>) -> Seq<
    char,
> {
    match v.subdirectory {
        Some(sub) => v.base + "/"@ + version + "/"@ + sub + "/"@ + filename,
        None => v.base + "/"@ + version + "/"@ + filename,
    }
}

/// Strips every trailing `.git` suffix from `s`.
fn trim_git(s: &str) -> (r: String)
    ensures
        r@ == spec_trim_git(s@),
{
    let mut cur: String = s.to_owned();
    while ends_with_str(cur.as_str(), ".git")
        invariant
            spec_trim_git(cur@) == spec_trim_git(s@),
        decreases cur@.len(),
    {
        proof {
            reveal_strlit(".git");
        }
        let l = cur.as_str().unicode_len();
        let shorter = cur.as_str().substring_char(0, l - 4).to_owned();
        cur = shorter;
    }
    proof {
        reveal_strlit(".git");
    }
    cur
}

impl RawFilesURL {
    /// Resolves a repository URL, recognizing GitLab-style and GitHub hosts;
    /// any other host yields `None`. A GitHub tree marker that overlaps the
    /// host prefix itself is treated as no subdirectory.
    pub fn from_repo_url(repo_url: &str) -> (r: Option<Self>)
        ensures
            match r {
                Some(raw) => spec_resolve(repo_url@) == Some(raw@),
                None => spec_resolve(repo_url@) is None,
            },
    {
        let trimmed: String = trim_git(repo_url);
        if starts_with_str(trimmed.as_str(), "https://gitlab.") {
            let base = trimmed.concat("/-/raw");
            Some(RawFilesURL { base, subdirectory: None })
        } else if starts_with_str(trimmed.as_str(), "https://github.com/") {
            proof {
                reveal_strlit("https://github.com/");
                reveal_strlit("/tree/master/");
                lemma_find_first(trimmed@, tree_marker());
            }
            let l = trimmed.as_str().unicode_len();
            match find_str(trimmed.as_str(), "/tree/master/") {
                Some(i) if i >= 19 => {
                    let root = trimmed.as_str().substring_char(19, i);
                    let sub = trimmed.as_str().substring_char(i + 13, l).to_owned();
                    let base = "https://raw.githubusercontent.com/".to_owned().concat(root);
                    Some(RawFilesURL { base, subdirectory: Some(sub) })
                },
                _ => {
                    let rest = trimmed.as_str().substring_char(19, l);
                    let base = "https://raw.githubusercontent.com/".to_owned().concat(rest);
                    Some(RawFilesURL { base, subdirectory: None })
                },
            }
        } else {
            None
        }
    }

    /// Builds the URL that serves `filename` at ref `version` under this
    /// location.
    pub fn format(&self, version: &str, filename: &str) -> (r: String)
        ensures
            r@ == spec_format(self@, version@, filename@),
    {
        let mut out: String = self.base.clone();
        out.append("/");
        out.append(version);
        match &self.subdirectory {
            Some(sub) => {
                out.append("/");
                out.append(sub.as_str());
            },
            None => {},
        }
        out.append("/");
        out.append(filename);
        proof {
            assert(out@ =~= spec_format(self@, version@, filename@));
        }
        out
    }
}

} // verus!
