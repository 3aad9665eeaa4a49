//! Loading the structured settings document.
//!
//! The document is TOML; parsing it is the work of the `toml` crate, behind
//! the one trusted item below, whose result — the document's top-level
//! entries pre-read into plain values — is named by `toml_top_of`.
//! Everything the load decides about that shape — that the document has a
//! top-level `overrides` table and that every value under it is a string —
//! is verified logic over those plain values.

use vstd::prelude::*;

use crate::store::MalformedDatabase;
use crate::store::OverridesDatabase;
use crate::store::entry_views;
use crate::text::str_eq;

verus! {

/// What parsing a TOML document yields, pre-read into plain values: `None`
/// when the text does not parse; otherwise the top-level entries in table
/// order, each value read as its own entries when it is a table (each row's
/// value read as its payload when it is a string), and `None` where a value
/// is not of that kind.
pub uninterp spec fn toml_top_of(s: Seq<char>) -> Option<
    Seq<(Seq<char>, Option<Seq<(Seq<char>, Option<Seq<char>>)>>)>,
>;

/// The view of one pre-read table: each row's key, and its string payload
/// when it has one.
pub open spec fn row_views(rows: Seq<(String, Option<String>)>) -> Seq<
    (Seq<char>, Option<Seq<char>>),
> {
    rows.map_values(
        |r: (String, Option<String>)|
            (
                r.0@,
                match r.1 {
                    Some(s) => Some(s@),
                    None => None,
                },
            ),
    )
}

/// The view of a pre-read document: each top-level key, and its rows when
/// its value is a table.
pub open spec fn top_views(top: Seq<(String, Option<Vec<(String, Option<String>)>>)>) -> Seq<
    (Seq<char>, Option<Seq<(Seq<char>, Option<Seq<char>>)>>),
> {
    top.map_values(
        |e: (String, Option<Vec<(String, Option<String>)>>)|
            (
                e.0@,
                match e.1 {
                    Some(v) => Some(row_views(v@)),
                    None => None,
                },
            ),
    )
}

/// Relies on `toml::Table`'s `FromStr` impl to parse the document, and on
/// `toml::Value`'s `Table` and `String` variants to pre-read it, one arm
/// per variant.  The outcome is a function of the text alone, so it is
/// named: the call returns exactly `toml_top_of` of the text.
#[verifier::external_body]
fn parse_toml_top(content: &str) -> (r: Option<Vec<(String, Option<Vec<(String, Option<String>)>>)>>)
    ensures
        match r {
            Some(top) => toml_top_of(content@) == Some(top_views(top@)),
            None => toml_top_of(content@) is None,
        },
{
    match <toml::map::Map<String, toml::Value> as core::str::FromStr>::from_str(content) {
        Err(_) => None,
        Ok(doc) => Some(doc.into_iter().map(|(key, value)| (key, match value {
            toml::Value::Table(t) => Some(t.into_iter().map(|(k, v)| (k, match v {
                toml::Value::String(s) => Some(s),
                _ => None,
            })).collect()),
            _ => None,
        })).collect()),
    }
}

/// Index of the first entry of `top` whose key is `k`, or `top.len()` when
/// there is none.
pub open spec fn find_key_from(
    top: Seq<(Seq<char>, Option<Seq<(Seq<char>, Option<Seq<char>>)>>)>,
    k: Seq<char>,
    i: int,
) -> int
    decreases top.len() - i,
{
    if i < 0 || i >= top.len() {
        top.len() as int
    } else if top[i].0 == k {
        i
    } else {
        find_key_from(top, k, i + 1)
    }
}

proof fn lemma_find_key_is(
    top: Seq<(Seq<char>, Option<Seq<(Seq<char>, Option<Seq<char>>)>>)>,
    k: Seq<char>,
    i: int,
    j: int,
)
    requires
        0 <= i <= j <= top.len(),
        forall|x: int| i <= x < j ==> (#[trigger] top[x]).0 != k,
        j == top.len() || top[j].0 == k,
    ensures
        find_key_from(top, k, i) == j,
    decreases j - i,
{
    if i < j {
        lemma_find_key_is(top, k, i + 1, j);
    }
}

/// The rows of the `overrides` table from index `i` on, read as records:
/// every row must carry a string-typed value, and any other kind of value
/// fails the whole read.
pub open spec fn rows_to_entries_from(rows: Seq<(Seq<char>, Option<Seq<char>>)>, i: int) -> Option<
    Seq<(Seq<char>, Seq<char>)>,
>
    decreases rows.len() - i,
{
    if i < 0 || i >= rows.len() {
        Some(Seq::empty())
    } else {
        match rows[i].1 {
            None => None,
            Some(v) => match rows_to_entries_from(rows, i + 1) {
                None => None,
                Some(rest) => Some(seq![(rows[i].0, v)] + rest),
            },
        }
    }
}

/// The records a pre-read document describes.  `None` when the document
/// lacks an `overrides` table or some value under it is not a string — the
/// two shape failures are not distinguished.
pub open spec fn spec_overrides_entries(
    top: Seq<(Seq<char>, Option<Seq<(Seq<char>, Option<Seq<char>>)>>)>,
) -> Option<Seq<(Seq<char>, Seq<char>)>> {
    let i = find_key_from(top, "overrides"@, 0);
    if i >= top.len() {
        None
    } else {
        match top[i].1 {
            None => None,
            Some(rows) => rows_to_entries_from(rows, 0),
        }
    }
}

/// Builds the structured-format store from a document's top-level entries,
/// each value pre-read into plain data.  Succeeds exactly when an
/// `overrides` entry exists, is a table, and holds only string values; the
/// store's records are then that table's rows in order.
pub fn build_structured(top: Vec<(String, Option<Vec<(String, Option<String>)>>)>) -> (r: Result<
    OverridesDatabase,
    MalformedDatabase,
>)
    ensures
        match r {
            Ok(db) => db is Toml && spec_overrides_entries(top_views(top@)) == Some(db.entries()),
            Err(_) => spec_overrides_entries(top_views(top@)) is None,
        },
{
    let ghost tops = top_views(top@);
    let mut idx: usize = 0;
    while idx < top.len() && !str_eq(top[idx].0.as_str(), "overrides")
        invariant
            idx <= top@.len(),
            tops == top_views(top@),
            tops.len() == top@.len(),
            forall|j: int| 0 <= j < idx ==> (#[trigger] tops[j]).0 != "overrides"@,
        decreases top@.len() - idx,
    {
        idx += 1;
    }
    proof {
        lemma_find_key_is(tops, "overrides"@, 0, idx as int);
    }
    if idx == top.len() {
        return Err(MalformedDatabase);
    }
    let rows: &Vec<(String, Option<String>)> = match top[idx].1.as_ref() {
        Some(rows) => rows,
        None => {
            proof {
                assert(tops[idx as int].1 is None);
            }
            return Err(MalformedDatabase);
        },
    };
    let ghost rows_owned = top@[idx as int].1->Some_0;
    let ghost rowv = row_views(rows_owned@);
    proof {
        assert(tops[idx as int].1 == Some(rowv));
    }
    let mut out: Vec<(String, String)> = Vec::new();
    let mut j: usize = 0;
    while j < rows.len()
        invariant
            j <= rows@.len(),
            rows@ == rows_owned@,
            rowv == row_views(rows@),
            rowv.len() == rows@.len(),
            spec_overrides_entries(top_views(top@)) == rows_to_entries_from(rowv, 0),
            match rows_to_entries_from(rowv, j as int) {
                Some(rest) => rows_to_entries_from(rowv, 0) == Some(entry_views(out@) + rest),
                None => rows_to_entries_from(rowv, 0) is None,
            },
        decreases rows@.len() - j,
    {
        let ghost old_out = out@;
        match rows[j].1.as_ref() {
            Some(v) => {
                out.push((rows[j].0.clone(), v.clone()));
            },
            None => {
                proof {
                    assert(rowv[j as int].1 is None);
                }
                return Err(MalformedDatabase);
            },
        }
        j += 1;
        proof {
            let pair = (rows@[j - 1].0@, rows@[j - 1].1->Some_0@);
            assert(rowv[j - 1].0 == pair.0);
            assert(rowv[j - 1].1 == Some(pair.1));
            assert(entry_views(out@) =~= entry_views(old_out) + seq![pair]);
            match rows_to_entries_from(rowv, j as int) {
                Some(rest) => {
                    assert(entry_views(old_out) + (seq![pair] + rest) =~= entry_views(out@)
                        + rest);
                },
                None => {},
            }
        }
    }
    proof {
        assert(entry_views(out@) + Seq::<(Seq<char>, Seq<char>)>::empty() =~= entry_views(out@));
    }
    Ok(OverridesDatabase::Toml(out))
}

/// Loads the structured settings format.  Succeeds exactly when the TOML
/// document parses, holds a top-level `overrides` table, and every value
/// under that table is a string — the store's records are then that table's
/// rows; any of the three failures reports the same malformed-database
/// condition.
pub fn load_settings_toml(content: &str) -> (r: Result<OverridesDatabase, MalformedDatabase>)
    ensures
        match r {
            Ok(db) => db is Toml && (toml_top_of(content@) matches Some(top)
                && spec_overrides_entries(top) == Some(db.entries())),
            Err(_) => match toml_top_of(content@) {
                Some(top) => spec_overrides_entries(top) is None,
                None => true,
            },
        },
{
    let top = match parse_toml_top(content) {
        Some(t) => t,
        None => {
            return Err(MalformedDatabase);
        },
    };
    build_structured(top)
}

} // verus!
