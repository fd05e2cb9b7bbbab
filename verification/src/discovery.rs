//! Finding the project root: the nearest directory, from the starting one
//! upwards, that holds a `forge.json` file.
//!
//! Whether a file exists is asked of the file system by the caller; the
//! library decides, from each answer, where to look next.
use vstd::prelude::*;
use crate::paths::{joined_path, join_path, parent_of, parent_path, trim_trailing_slashes, last_slash};

verus! {

/// The name of the configuration file that marks a project root.
pub const CONFIG_FILE_NAME: &'static str = "forge.json";

/// Where the configuration file of a directory would be.
pub fn config_candidate(dir: &str) -> (res: String)
    ensures
        res@ == joined_path(dir@, "forge.json"@),
{
    join_path(dir, "forge.json")
}

/// What to do after checking a directory for a configuration file.
#[derive(Debug, Clone)]
pub enum DiscoveryStep {
    /// The directory holds a configuration file: it is the project root.
    Found(String),
    /// Check this directory, the parent of the last one, next.
    Ascend(String),
    /// The root of the file system was reached without finding one.
    Exhausted,
}

/// Decides the next step of the search, given whether the configuration file
/// of `current` exists. Every ascent moves to a strictly shorter path, so the
/// search ends.
pub fn discovery_step(current: &str, config_present: bool) -> (res: DiscoveryStep)
    ensures
        config_present ==> (res matches DiscoveryStep::Found(r) && r@ == current@),
        !config_present ==> match parent_path(current@) {
            Some(p) => (res matches DiscoveryStep::Ascend(q) && q@ == p),
            None => res is Exhausted,
        },
        res matches DiscoveryStep::Ascend(q) ==> q@.len() < current@.len(),
{
    if config_present {
        return DiscoveryStep::Found(current.to_owned());
    }
    proof {
        lemma_parent_is_shorter(current@);
    }
    match parent_of(current) {
        Some(p) => DiscoveryStep::Ascend(p),
        None => DiscoveryStep::Exhausted,
    }
}

/// The result of the search, or the starting directory when none was found,
/// together with whether a configuration file was found.
pub fn find_project_root_or_fallback(start: &str, found: Option<String>) -> (res: (String, bool))
    ensures
        match found {
            Some(root) => res.0@ == root@ && res.1,
            None => res.0@ == start@ && !res.1,
        },
{
    match found {
        Some(root) => (root, true),
        None => (start.to_owned(), false),
    }
}

/// The project root that the search from `dir` finds when the configuration
/// files at `with_config` exist: `dir` itself if its `forge.json` exists,
/// else the nearest ancestor whose `forge.json` exists, else nothing.
pub open spec fn nearest_root(dir: Seq<char>, with_config: Set<Seq<char>>) -> Option<Seq<char>>
    decreases dir.len(),
{
    if with_config.contains(joined_path(dir, "forge.json"@)) {
        Some(dir)
    } else {
        match parent_path(dir) {
            Some(p) => if p.len() < dir.len() {
                nearest_root(p, with_config)
            } else {
                None
            },
            None => None,
        }
    }
}

/// Each step of the search keeps the answer: with the configuration files
/// at `with_config`, a directory whose `forge.json` exists is the nearest
/// root; otherwise the nearest root is that of its parent, and a directory
/// without parent has none. Following `discovery_step` from the starting
/// directory therefore ends at the nearest ancestor holding `forge.json`.
pub proof fn lemma_step_keeps_nearest_root(current: Seq<char>, with_config: Set<Seq<char>>)
    ensures
        with_config.contains(joined_path(current, "forge.json"@)) ==> nearest_root(current, with_config)
            == Some(current),
        !with_config.contains(joined_path(current, "forge.json"@)) ==> match parent_path(current) {
            Some(p) => nearest_root(current, with_config) == nearest_root(p, with_config),
            None => nearest_root(current, with_config) is None,
        },
{
    lemma_parent_is_shorter(current);
}

proof fn lemma_trim_is_shorter(s: Seq<char>)
    ensures
        trim_trailing_slashes(s).len() <= s.len(),
        s.len() > 0 ==> trim_trailing_slashes(s).len() > 0,
        trim_trailing_slashes(s).len() > 0 ==> trim_trailing_slashes(s)[0] == s[0],
    decreases s.len(),
{
    if s.len() > 1 && s.last() == '/' {
        lemma_trim_is_shorter(s.drop_last());
    }
}

proof fn lemma_last_slash_in_range(s: Seq<char>)
    ensures
        last_slash(s) matches Some(i) ==> 0 <= i < s.len() && s[i] == '/',
    decreases s.len(),
{
    if s.len() > 0 && s.last() != '/' {
        lemma_last_slash_in_range(s.drop_last());
    }
}

/// The parent of a path is strictly shorter than the path.
pub proof fn lemma_parent_is_shorter(p: Seq<char>)
    ensures
        parent_path(p) matches Some(q) ==> q.len() < p.len(),
{
    let t = trim_trailing_slashes(p);
    lemma_trim_is_shorter(p);
    lemma_last_slash_in_range(t);
    if let Some(i) = last_slash(t) {
        if i > 0 {
            lemma_trim_is_shorter(t.subrange(0, i));
        } else if t != seq!['/'] && t.len() > 0 {
            if t.len() == 1 {
                assert(t =~= seq!['/']);
            }
        }
    }
}

} // verus!
