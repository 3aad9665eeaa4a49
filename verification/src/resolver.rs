//! Resolution of the applicable toolchain for a directory.
//!
//! Starting at a directory, the resolver queries the override store for an
//! exact match on the directory's path text, and on a miss moves to the
//! immediate parent.  Directories are tested nearest-first, so the first hit
//! is the most specific one.  When the walk reaches a path that cannot be
//! shortened further without a hit, the fallback `default` is reported.

use vstd::prelude::*;

use crate::normalize::clean_toolchain_name;
use crate::normalize::spec_normalize;
use crate::store::OverridesDatabase;

verus! {

/// Outcome of a resolution: the override found for the nearest ancestor, or
/// no ancestor had one.  The literal fallback text appears only at the
/// output boundary, in [`resolve_toolchain`].
pub enum Resolution {
    Found(String),
    NotFound,
}

/// Index of the last `/` in `s` strictly before position `i`, or `-1` when
/// there is none.
pub open spec fn last_slash_before(s: Seq<char>, i: int) -> int
    decreases i,
{
    if i <= 0 {
        -1
    } else if s[i - 1] == '/' {
        i - 1
    } else {
        last_slash_before(s, i - 1)
    }
}

proof fn lemma_last_slash_lt(s: Seq<char>, i: int)
    requires
        i >= 0,
    ensures
        -1 <= last_slash_before(s, i) < i,
    decreases i,
{
    if i > 0 && s[i - 1] != '/' {
        lemma_last_slash_lt(s, i - 1);
    }
}

proof fn lemma_last_slash_skip(s: Seq<char>, i: int, j: int)
    requires
        0 <= i <= j,
        forall|k: int| i <= k < j ==> s[k] != '/',
    ensures
        last_slash_before(s, j) == last_slash_before(s, i),
    decreases j - i,
{
    if i < j {
        lemma_last_slash_skip(s, i, j - 1);
    }
}

/// The immediate parent of a path rendered as text: the text up to the last
/// `/`, kept as the single `/` of the root when that slash comes first.  A
/// path with no `/`, or the root itself, has no parent and cannot be
/// shortened further.
pub open spec fn spec_parent(s: Seq<char>) -> Option<Seq<char>> {
    let j = last_slash_before(s, s.len() as int);
    if j < 0 {
        None
    } else if j == 0 {
        if s.len() <= 1 {
            None
        } else {
            Some(s.subrange(0, 1))
        }
    } else {
        Some(s.subrange(0, j))
    }
}

proof fn lemma_parent_shorter(s: Seq<char>)
    ensures
        spec_parent(s) matches Some(p) ==> p.len() < s.len(),
{
    lemma_last_slash_lt(s, s.len() as int);
}

/// The raw override for `dir`: the store's entry for the nearest ancestor
/// of `dir` (including `dir` itself) present in the store, before any
/// normalization.
pub open spec fn spec_resolve_raw(m: Map<Seq<char>, Seq<char>>, dir: Seq<char>) -> Option<
    Seq<char>,
>
    decreases dir.len(),
    via spec_resolve_raw_decreases
{
    if m.contains_key(dir) {
        Some(m[dir])
    } else {
        match spec_parent(dir) {
            Some(p) => spec_resolve_raw(m, p),
            None => None,
        }
    }
}

#[via_fn]
proof fn spec_resolve_raw_decreases(m: Map<Seq<char>, Seq<char>>, dir: Seq<char>) {
    lemma_parent_shorter(dir);
}

/// What a resolution prints: the normalized override of the nearest
/// matching ancestor, or the literal fallback.
pub open spec fn spec_resolved_name(m: Map<Seq<char>, Seq<char>>, dir: Seq<char>) -> Seq<char> {
    match spec_resolve_raw(m, dir) {
        Some(t) => spec_normalize(t),
        None => "default"@,
    }
}

/// The immediate parent of `path`, or `None` when `path` cannot be
/// shortened further.
pub fn parent_dir(path: &str) -> (r: Option<String>)
    ensures
        match r {
            Some(p) => spec_parent(path@) == Some(p@) && p@.len() < path@.len(),
            None => spec_parent(path@) is None,
        },
{
    let n = path.unicode_len();
    let mut i: usize = n;
    while i > 0 && path.get_char(i - 1) != '/'
        invariant
            i <= n,
            n == path@.len(),
            forall|k: int| i <= k < n ==> path@[k] != '/',
        decreases i,
    {
        i -= 1;
    }
    proof {
        lemma_last_slash_skip(path@, i as int, n as int);
    }
    if i == 0 {
        None
    } else if i == 1 {
        if n <= 1 {
            None
        } else {
            Some(path.substring_char(0, 1).to_owned())
        }
    } else {
        Some(path.substring_char(0, i - 1).to_owned())
    }
}

/// Walks from `start_dir` up through its ancestors and returns the first
/// override found, normalized; `NotFound` when no ancestor has one.
pub fn resolve(database: &OverridesDatabase, start_dir: &str) -> (r: Resolution)
    ensures
        match r {
            Resolution::Found(name) => spec_resolve_raw(database@, start_dir@) matches Some(t)
                && name@ == spec_normalize(t),
            Resolution::NotFound => spec_resolve_raw(database@, start_dir@) is None,
        },
{
    let mut cur: String = start_dir.to_owned();
    loop
        invariant
            spec_resolve_raw(database@, cur@) == spec_resolve_raw(database@, start_dir@),
        decreases cur@.len(),
    {
        match database.get(cur.as_str()) {
            Some(t) => {
                return Resolution::Found(clean_toolchain_name(t));
            },
            None => {},
        }
        match parent_dir(cur.as_str()) {
            Some(p) => {
                cur = p;
            },
            None => {
                return Resolution::NotFound;
            },
        }
    }
}

/// Resolves the toolchain name to print for `start_dir`: the normalized
/// override of the nearest matching ancestor, or the literal `default`.
pub fn resolve_toolchain(database: &OverridesDatabase, start_dir: &str) -> (r: String)
    ensures
        r@ == spec_resolved_name(database@, start_dir@),
{
    match resolve(database, start_dir) {
        Resolution::Found(name) => name,
        Resolution::NotFound => "default".to_owned(),
    }
}

/// A directory present in the store wins outright: the walk tests
/// directories nearest-first, so the deepest ancestor with an entry is the
/// one that decides, without comparing candidates.
pub proof fn lemma_nearest_ancestor_wins(m: Map<Seq<char>, Seq<char>>, dir: Seq<char>)
    requires
        m.contains_key(dir),
    ensures
        spec_resolve_raw(m, dir) == Some(m[dir]),
{
}

/// No ancestor of `dir` (including `dir` itself) carries an entry.
pub open spec fn spec_no_ancestor_match(m: Map<Seq<char>, Seq<char>>, dir: Seq<char>) -> bool
    decreases dir.len(),
    via spec_no_ancestor_match_decreases
{
    !m.contains_key(dir) && match spec_parent(dir) {
        Some(p) => spec_no_ancestor_match(m, p),
        None => true,
    }
}

#[via_fn]
proof fn spec_no_ancestor_match_decreases(m: Map<Seq<char>, Seq<char>>, dir: Seq<char>) {
    lemma_parent_shorter(dir);
}

/// Resolution falls back exactly when no ancestor of the start directory is
/// present in the store.
pub proof fn lemma_fallback_on_no_match(m: Map<Seq<char>, Seq<char>>, dir: Seq<char>)
    ensures
        spec_no_ancestor_match(m, dir) <==> spec_resolve_raw(m, dir) is None,
    decreases dir.len(),
{
    lemma_parent_shorter(dir);
    if !m.contains_key(dir) {
        match spec_parent(dir) {
            Some(p) => {
                lemma_fallback_on_no_match(m, p);
            },
            None => {},
        }
    }
}

/// Walking from a path with no parent performs exactly one lookup: when
/// that single lookup misses, the walk terminates with the fallback.
pub proof fn lemma_root_boundary(m: Map<Seq<char>, Seq<char>>, dir: Seq<char>)
    requires
        spec_parent(dir) is None,
        !m.contains_key(dir),
    ensures
        spec_resolve_raw(m, dir) is None,
        spec_resolved_name(m, dir) == "default"@,
{
}

/// Two stores holding the same logical path-to-toolchain pairs resolve
/// identically for every directory, whichever on-disk format each was
/// loaded from.
pub proof fn lemma_format_equivalence(
    a: &OverridesDatabase,
    b: &OverridesDatabase,
    dir: Seq<char>,
)
    requires
        a@ == b@,
    ensures
        spec_resolved_name(a@, dir) == spec_resolved_name(b@, dir),
{
}

} // verus!
