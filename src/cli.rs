//! The command surface as plain values: output format, commands and their
//! options, and the reading of a comma-separated repository list.

use crate::text::{
    lemma_text_le_total, lemma_text_le_transitive, split_fields, split_on, text_le, text_le_exec,
    trim_str, trimmed_of, views,
};
use vstd::prelude::*;

verus! {

/// How results are written.
#[derive(Debug, Clone, Copy, PartialEq, Eq, Structural)]
pub enum Format {
    Console,
    Json,
}

impl Format {
    /// Whether results are written as JSON.
    pub fn is_json(&self) -> (r: bool)
        ensures
            r == (*self == Format::Json),
    {
        match self {
            Format::Json => true,
            Format::Console => false,
        }
    }
}

/// The commands of the checker.
#[derive(Debug, Clone)]
pub enum Commands {
    /// List fetched repositories with build variants.
    List { format: Format },
    /// Check repository compliance and ABI compatibility.
    Check {
        /// Repository ids, comma-separated.
        repos: String,
        /// The manylinux policy to check against.
        manylinux: String,
        /// The Python ABI version to check against.
        python_abi: String,
        /// Fetch repositories that are not ready locally.
        auto_fetch: bool,
        /// The branch, tag or commit to use.
        revision: String,
        /// Show every variant rather than a compact summary.
        long: bool,
        /// Show ABI violations, not only compatibility.
        show_violations: bool,
        format: Format,
        /// Synchronise through the external download tool rather than the
        /// hub's API.
        prefer_hub_cli: bool,
        /// Judge ROCm variants too.
        enable_rocm: bool,
    },
}

/// A parsed command line.
#[derive(Debug, Clone)]
pub struct Cli {
    pub command: Commands,
}

/// The trimmed, non-empty entries of a comma-separated list, in order.
pub open spec fn list_entries(fields: Seq<Seq<char>>) -> Seq<Seq<char>>
    decreases fields.len(),
{
    if fields.len() == 0 {
        Seq::empty()
    } else {
        let p = list_entries(fields.drop_last());
        let t = trimmed_of(fields.last());
        if t.len() > 0 {
            p.push(t)
        } else {
            p
        }
    }
}

/// The repository ids of a comma-separated list: each entry is trimmed,
/// and empty entries are dropped.
pub fn parse_repo_list(repos: &str) -> (r: Vec<String>)
    ensures
        views(r@) == list_entries(split_fields(repos@, ',')),
{
    let fields = split_on(repos, ',');
    let mut out: Vec<String> = Vec::new();
    let mut i: usize = 0;
    proof {
        assert(views(fields@).take(0) =~= Seq::<Seq<char>>::empty());
        assert(views(out@) =~= Seq::<Seq<char>>::empty());
    }
    while i < fields.len()
        invariant
            i <= fields@.len(),
            views(fields@) == split_fields(repos@, ','),
            views(out@) == list_entries(views(fields@).take(i as int)),
        decreases fields@.len() - i,
    {
        proof {
            assert(views(fields@).take(i + 1).drop_last() =~= views(fields@).take(i as int));
            assert(views(fields@).take(i + 1).last() == fields@[i as int]@);
        }
        let t = trim_str(fields[i].as_str());
        if t.unicode_len() > 0 {
            let ghost before = views(out@);
            out.push(String::from_str(t));
            proof {
                assert(views(out@) =~= before.push(t@));
            }
        }
        i = i + 1;
    }
    proof {
        assert(views(fields@).take(fields@.len() as int) =~= views(fields@));
    }
    out
}

/// Each text comes no later than the ones after it.
pub open spec fn sorted_texts(s: Seq<Seq<char>>) -> bool {
    forall|i: int, j: int| 0 <= i < j < s.len() ==> text_le(#[trigger] s[i], #[trigger] s[j])
}

/// The strings of `v` in ascending order.
pub fn sort_strings(v: Vec<String>) -> (r: Vec<String>)
    ensures
        sorted_texts(views(r@)),
        views(r@).to_multiset() == views(v@).to_multiset(),
{
    broadcast use vstd::seq_lib::group_to_multiset_ensures;

    let mut out: Vec<String> = Vec::new();
    let mut i: usize = 0;
    proof {
        assert(views(v@).take(0) =~= Seq::<Seq<char>>::empty());
        assert(views(out@) =~= Seq::<Seq<char>>::empty());
    }
    while i < v.len()
        invariant
            i <= v@.len(),
            sorted_texts(views(out@)),
            views(out@).to_multiset() == views(v@).take(i as int).to_multiset(),
        decreases v@.len() - i,
    {
        let x = v[i].clone();
        let mut p: usize = 0;
        while p < out.len() && text_le_exec(out[p].as_str(), x.as_str())
            invariant
                p <= out@.len(),
                forall|k: int| 0 <= k < p ==> text_le(#[trigger] out@[k]@, x@),
            decreases out@.len() - p,
        {
            p = p + 1;
        }
        let ghost s = views(out@);
        proof {
            if p < out@.len() {
                lemma_text_le_total(s[p as int], x@);
                assert(text_le(x@, s[p as int]));
            }
        }
        out.insert(p, x);
        proof {
            let n = views(out@);
            assert(n =~= s.insert(p as int, x@));
            assert forall|a: int, b: int| 0 <= a < b < n.len() implies text_le(
                #[trigger] n[a],
                #[trigger] n[b],
            ) by {
                if b < p {
                    assert(n[a] == s[a] && n[b] == s[b]);
                } else if b == p {
                    assert(n[a] == out@[a]@);
                } else if a < p {
                    assert(n[a] == s[a] && n[b] == s[b - 1]);
                } else if a == p {
                    assert(n[b] == s[b - 1]);
                    if p < b - 1 {
                        lemma_text_le_transitive(x@, s[p as int], s[b - 1]);
                    }
                } else {
                    assert(n[a] == s[a - 1] && n[b] == s[b - 1]);
                }
            }
            assert(views(v@).take(i + 1) =~= views(v@).take(i as int).push(v@[i as int]@));
            vstd::seq_lib::to_multiset_insert(s, p as int, v@[i as int]@);
            vstd::seq_lib::to_multiset_build(views(v@).take(i as int), v@[i as int]@);
        }
        i = i + 1;
    }
    proof {
        assert(views(v@).take(v@.len() as int) =~= views(v@));
    }
    out
}

/// The repositories found in the cache, with their number.
#[derive(Debug, Clone)]
pub struct RepoListResult {
    pub repositories: Vec<String>,
    pub count: usize,
}

impl RepoListResult {
    /// The listing of the given repositories, in ascending order.
    pub fn new(repositories: Vec<String>) -> (r: RepoListResult)
        ensures
            sorted_texts(views(r.repositories@)),
            views(r.repositories@).to_multiset() == views(repositories@).to_multiset(),
            r.count == repositories@.len(),
    {
        let count = repositories.len();
        let sorted = sort_strings(repositories);
        RepoListResult { repositories: sorted, count }
    }
}

} // verus!
