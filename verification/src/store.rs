//! The override store: a mapping from filesystem-path keys to toolchain
//! names, loaded from one of two historical on-disk formats and exposed
//! through a single exact-match lookup.
//!
//! Both variants keep their records as a sequence of key/value pairs; the
//! store's view is the map those pairs describe, later records overwriting
//! earlier ones for the same key.

use vstd::prelude::*;

use crate::text::str_eq;

verus! {

/// A database file exists but cannot be parsed into the expected shape.
#[derive(Debug)]
pub struct MalformedDatabase;

/// The override database, tagged by the on-disk format it was loaded from.
pub enum OverridesDatabase {
    /// Loaded from the newline-delimited `<path>;<toolchain>` format.
    Plain(Vec<(String, String)>),
    /// Loaded from the structured settings document's `overrides` table.
    Toml(Vec<(String, String)>),
}

/// The views of a sequence of owned key/value pairs.
pub open spec fn entry_views(s: Seq<(String, String)>) -> Seq<(Seq<char>, Seq<char>)> {
    s.map_values(|p: (String, String)| (p.0@, p.1@))
}

/// The map described by a sequence of key/value pairs, a later pair
/// overwriting an earlier one with the same key.
pub open spec fn map_of_entries(s: Seq<(Seq<char>, Seq<char>)>) -> Map<Seq<char>, Seq<char>>
    decreases s.len(),
{
    if s.len() == 0 {
        Map::empty()
    } else {
        map_of_entries(s.drop_last()).insert(s.last().0, s.last().1)
    }
}

/// A key absent from every pair is absent from the map.
proof fn lemma_entries_no_match(s: Seq<(Seq<char>, Seq<char>)>, k: Seq<char>)
    requires
        forall|j: int| 0 <= j < s.len() ==> (#[trigger] s[j]).0 != k,
    ensures
        !map_of_entries(s).contains_key(k),
    decreases s.len(),
{
    if s.len() > 0 {
        lemma_entries_no_match(s.drop_last(), k);
    }
}

/// The map holds, for a key, the value of the last pair carrying that key.
proof fn lemma_entries_match_at(s: Seq<(Seq<char>, Seq<char>)>, k: Seq<char>, j: int)
    requires
        0 <= j < s.len(),
        s[j].0 == k,
        forall|j2: int| j < j2 < s.len() ==> (#[trigger] s[j2]).0 != k,
    ensures
        map_of_entries(s).contains_key(k),
        map_of_entries(s)[k] == s[j].1,
    decreases s.len(),
{
    if j == s.len() - 1 {
    } else {
        lemma_entries_match_at(s.drop_last(), k, j);
    }
}

impl OverridesDatabase {
    /// The record sequence this store was built from, as character views.
    pub open spec fn entries(&self) -> Seq<(Seq<char>, Seq<char>)> {
        match self {
            OverridesDatabase::Plain(v) => entry_views(v@),
            OverridesDatabase::Toml(v) => entry_views(v@),
        }
    }

    /// The toolchain name recorded for the exact path key `key`, if any.
    pub fn get<'a>(&'a self, key: &str) -> (r: Option<&'a str>)
        ensures
            match r {
                Some(v) => self@.contains_key(key@) && v@ == self@[key@],
                None => !self@.contains_key(key@),
            },
    {
        let v: &Vec<(String, String)> = match self {
            OverridesDatabase::Plain(v) => v,
            OverridesDatabase::Toml(v) => v,
        };
        lookup(v, key)
    }
}

impl View for OverridesDatabase {
    type V = Map<Seq<char>, Seq<char>>;

    /// The lookup a store offers: its records read as a map.
    open spec fn view(&self) -> Map<Seq<char>, Seq<char>> {
        map_of_entries(self.entries())
    }
}

/// Scans a record sequence from the rear, so that the last record for a key
/// wins, matching the map the sequence describes.
fn lookup<'a>(v: &'a Vec<(String, String)>, key: &str) -> (r: Option<&'a str>)
    ensures
        match r {
            Some(val) => map_of_entries(entry_views(v@)).contains_key(key@) && val@ == map_of_entries(
                entry_views(v@),
            )[key@],
            None => !map_of_entries(entry_views(v@)).contains_key(key@),
        },
{
    let ghost es = entry_views(v@);
    let mut i = v.len();
    while i > 0
        invariant
            i <= v.len(),
            es == entry_views(v@),
            es.len() == v@.len(),
            forall|j: int| i <= j < es.len() ==> (#[trigger] es[j]).0 != key@,
        decreases i,
    {
        i -= 1;
        if str_eq(v[i].0.as_str(), key) {
            proof {
                lemma_entries_match_at(es, key@, i as int);
            }
            return Some(v[i].1.as_str());
        }
    }
    proof {
        lemma_entries_no_match(es, key@);
    }
    None
}

/// Index of the first occurrence of `c` in `s` at or after `i`, or `s.len()`
/// when there is none.
pub open spec fn find_from(s: Seq<char>, c: char, i: int) -> int
    decreases s.len() - i,
{
    if i < 0 || i >= s.len() {
        s.len() as int
    } else if s[i] == c {
        i
    } else {
        find_from(s, c, i + 1)
    }
}

proof fn lemma_find_from_bounds(s: Seq<char>, c: char, i: int)
    requires
        0 <= i <= s.len(),
    ensures
        i <= find_from(s, c, i) <= s.len(),
    decreases s.len() - i,
{
    if i < s.len() && s[i] != c {
        lemma_find_from_bounds(s, c, i + 1);
    }
}

proof fn lemma_find_from_is(s: Seq<char>, c: char, i: int, j: int)
    requires
        0 <= i <= j <= s.len(),
        forall|k: int| i <= k < j ==> s[k] != c,
        j == s.len() || s[j] == c,
    ensures
        find_from(s, c, i) == j,
    decreases j - i,
{
    if i < j {
        lemma_find_from_is(s, c, i + 1, j);
    }
}

proof fn lemma_find_from_at_least(s: Seq<char>, c: char, i: int, j: int)
    requires
        0 <= i <= j <= s.len(),
        forall|k: int| i <= k < j ==> s[k] != c,
    ensures
        find_from(s, c, i) >= j,
    decreases j - i,
{
    if i < j {
        lemma_find_from_at_least(s, c, i + 1, j);
    } else {
        lemma_find_from_bounds(s, c, i);
    }
}

/// The records of the plain format from position `pos` on: one record per
/// line, each line split at its first `;` into a path key and a toolchain
/// name.  A line without a `;` makes the whole parse fail.
pub open spec fn parse_plain_from(s: Seq<char>, pos: int) -> Option<Seq<(Seq<char>, Seq<char>)>>
    decreases s.len() - pos,
    via parse_plain_from_decreases
{
    if pos < 0 || pos >= s.len() {
        Some(Seq::empty())
    } else {
        let nl = find_from(s, '\n', pos);
        let sc = find_from(s, ';', pos);
        if sc >= nl {
            None
        } else {
            let rest_pos = if nl < s.len() {
                nl + 1
            } else {
                s.len() as int
            };
            match parse_plain_from(s, rest_pos) {
                None => None,
                Some(rest) => Some(seq![(s.subrange(pos, sc), s.subrange(sc + 1, nl))] + rest),
            }
        }
    }
}

#[via_fn]
proof fn parse_plain_from_decreases(s: Seq<char>, pos: int) {
    if 0 <= pos < s.len() {
        lemma_find_from_bounds(s, '\n', pos);
    }
}

/// The whole plain-format document read as a record sequence, or `None`
/// when some line cannot be parsed.
pub open spec fn spec_parse_plain(s: Seq<char>) -> Option<Seq<(Seq<char>, Seq<char>)>> {
    parse_plain_from(s, 0)
}

/// Loads the plain format: UTF-8 text, one `<path>;<toolchain>` record per
/// line.  A line missing the separator fails the whole load; a later record
/// for the same path overwrites an earlier one.
pub fn load_plain_overrides(content: &str) -> (r: Result<OverridesDatabase, MalformedDatabase>)
    ensures
        match r {
            Ok(db) => db is Plain && spec_parse_plain(content@) == Some(db.entries()),
            Err(_) => spec_parse_plain(content@) is None,
        },
{
    let n = content.unicode_len();
    let mut entries: Vec<(String, String)> = Vec::new();
    let mut pos: usize = 0;
    while pos < n
        invariant
            pos <= n,
            n == content@.len(),
            match parse_plain_from(content@, pos as int) {
                Some(rest) => spec_parse_plain(content@) == Some(entry_views(entries@) + rest),
                None => spec_parse_plain(content@) is None,
            },
        decreases n - pos,
    {
        let ghost op = pos as int;
        let ghost old_entries = entries@;
        let mut nl: usize = pos;
        while nl < n && content.get_char(nl) != '\n'
            invariant
                pos <= nl <= n,
                n == content@.len(),
                forall|k: int| pos <= k < nl ==> content@[k] != '\n',
            decreases n - nl,
        {
            nl += 1;
        }
        proof {
            lemma_find_from_is(content@, '\n', op, nl as int);
        }
        let mut sc: usize = pos;
        while sc < nl && content.get_char(sc) != ';'
            invariant
                pos <= sc <= nl,
                nl <= n,
                n == content@.len(),
                forall|k: int| pos <= k < sc ==> content@[k] != ';',
            decreases nl - sc,
        {
            sc += 1;
        }
        if sc == nl {
            proof {
                lemma_find_from_at_least(content@, ';', op, nl as int);
            }
            return Err(MalformedDatabase);
        }
        proof {
            lemma_find_from_is(content@, ';', op, sc as int);
        }
        let path = content.substring_char(pos, sc).to_owned();
        let name = content.substring_char(sc + 1, nl).to_owned();
        entries.push((path, name));
        pos = if nl < n {
            nl + 1
        } else {
            n
        };
        proof {
            let s = content@;
            let pair = (s.subrange(op, sc as int), s.subrange(sc as int + 1, nl as int));
            assert(entry_views(entries@) =~= entry_views(old_entries) + seq![pair]);
            match parse_plain_from(s, pos as int) {
                Some(rest) => {
                    assert(parse_plain_from(s, op) == Some(seq![pair] + rest));
                    assert(entry_views(old_entries) + (seq![pair] + rest) =~= entry_views(entries@)
                        + rest);
                },
                None => {
                    assert(parse_plain_from(s, op) is None);
                },
            }
        }
    }
    proof {
        assert(parse_plain_from(content@, pos as int) == Some(Seq::<(Seq<char>, Seq<char>)>::empty()));
        assert(entry_views(entries@) + Seq::<(Seq<char>, Seq<char>)>::empty() =~= entry_views(
            entries@,
        ));
    }
    Ok(OverridesDatabase::Plain(entries))
}

} // verus!
