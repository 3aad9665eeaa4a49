//! Normalization of toolchain names.
//!
//! A toolchain name may begin with a channel prefix (`stable`, `nightly` or
//! `beta`), optionally followed by a release date in `YYYY-MM-DD` form and a
//! platform-triple suffix.  Normalization keeps the channel prefix and the
//! release date, if present, and discards the platform triple.  A name with
//! no recognized channel prefix is returned unchanged.

use vstd::prelude::*;

use crate::text::spec_starts_with;
use crate::text::str_starts_with;

verus! {

/// A decimal digit, `'0'` through `'9'`.
pub open spec fn spec_is_digit(c: char) -> bool {
    48 <= c as u32 && c as u32 <= 57
}

/// A release date follows a channel prefix of length `plen` in `t` when the
/// name is long enough to hold a full `-YYYY-MM-DD` suffix and the four
/// characters after the separator are all decimal digits.
pub open spec fn spec_has_date(t: Seq<char>, plen: int) -> bool {
    t.len() >= plen + 11 && forall|i: int| plen + 1 <= i < plen + 5 ==> spec_is_digit(#[trigger] t[i])
}

/// Canonical form of a name `t` known to start with the channel prefix `p`:
/// prefix, separator and date when a date is present, the bare prefix
/// otherwise.
pub open spec fn spec_normalize_with(t: Seq<char>, p: Seq<char>) -> Seq<char> {
    if spec_has_date(t, p.len() as int) {
        t.subrange(0, p.len() + 11int)
    } else {
        p
    }
}

/// Canonical short form of a toolchain name.  The channel prefixes are tried
/// in a fixed priority order; a name matching none of them is opaque and kept
/// as it is.
pub open spec fn spec_normalize(t: Seq<char>) -> Seq<char> {
    if spec_starts_with(t, "stable"@) {
        spec_normalize_with(t, "stable"@)
    } else if spec_starts_with(t, "nightly"@) {
        spec_normalize_with(t, "nightly"@)
    } else if spec_starts_with(t, "beta"@) {
        spec_normalize_with(t, "beta"@)
    } else {
        t
    }
}

/// The prefix, separator and full date of `toolchain`, when the characters
/// after the channel prefix `short` carry a release date; `None` otherwise.
pub fn with_date(short: &str, toolchain: &str) -> (r: Option<String>)
    ensures
        match r {
            Some(s) => spec_has_date(toolchain@, short@.len() as int) && s@ == toolchain@.subrange(
                0,
                short@.len() + 11int,
            ),
            None => !spec_has_date(toolchain@, short@.len() as int),
        },
{
    let plen = short.unicode_len();
    let tlen = toolchain.unicode_len();
    if tlen < 11 || plen > tlen - 11 {
        return None;
    }
    let mut i: usize = 0;
    while i < 4
        invariant
            plen + 11 <= tlen,
            tlen == toolchain@.len(),
            plen == short@.len(),
            i <= 4,
            forall|k: int| plen + 1 <= k < plen + 1 + i ==> spec_is_digit(#[trigger] toolchain@[k]),
        decreases 4 - i,
    {
        let c = toolchain.get_char(plen + 1 + i);
        let u = c as u32;
        if u < 48 || u > 57 {
            return None;
        }
        i += 1;
    }
    Some(toolchain.substring_char(0, plen + 11).to_owned())
}

/// Canonical form of a name starting with the channel prefix `short`.
fn normalize_with(short: &str, toolchain: &str) -> (r: String)
    ensures
        r@ == spec_normalize_with(toolchain@, short@),
{
    match with_date(short, toolchain) {
        Some(s) => s,
        None => short.to_owned(),
    }
}

/// Canonical short form of a toolchain name: channel prefix and release date
/// survive, the platform triple is discarded, and a name with no recognized
/// channel prefix is returned unchanged.
pub fn clean_toolchain_name(toolchain: &str) -> (r: String)
    ensures
        r@ == spec_normalize(toolchain@),
{
    if str_starts_with(toolchain, "stable") {
        normalize_with("stable", toolchain)
    } else if str_starts_with(toolchain, "nightly") {
        normalize_with("nightly", toolchain)
    } else if str_starts_with(toolchain, "beta") {
        normalize_with("beta", toolchain)
    } else {
        toolchain.to_owned()
    }
}

/// A name with no recognized channel prefix is preserved exactly: for any
/// `x` not starting with `stable`, `nightly` or `beta`, normalization is the
/// identity.
pub proof fn lemma_normalize_preserves_unprefixed(x: Seq<char>)
    requires
        !spec_starts_with(x, "stable"@),
        !spec_starts_with(x, "nightly"@),
        !spec_starts_with(x, "beta"@),
    ensures
        spec_normalize(x) == x,
{
}

/// Normalizing with a fixed prefix is idempotent, and the result still
/// starts with that prefix and keeps its first character.
proof fn lemma_normalize_with_idempotent(t: Seq<char>, p: Seq<char>)
    requires
        spec_starts_with(t, p),
        p.len() >= 1,
    ensures
        spec_starts_with(spec_normalize_with(t, p), p),
        spec_normalize_with(spec_normalize_with(t, p), p) == spec_normalize_with(t, p),
        spec_normalize_with(t, p)[0] == p[0],
{
    let r = spec_normalize_with(t, p);
    let plen = p.len() as int;
    if spec_has_date(t, plen) {
        assert(r == t.subrange(0, plen + 11));
        assert(r.subrange(0, plen) =~= t.subrange(0, plen));
        assert(spec_starts_with(r, p));
        assert(spec_has_date(r, plen));
        assert(r.subrange(0, plen + 11) =~= r);
        assert(r[0] == t[0]);
        assert(t.subrange(0, plen)[0] == t[0]);
    } else {
        assert(p.subrange(0, plen) =~= p);
        assert(spec_starts_with(p, p));
        assert(!spec_has_date(p, plen));
        assert(t.subrange(0, plen)[0] == t[0]);
    }
}

/// Normalization is idempotent: normalizing an already-normalized name
/// changes nothing.
pub proof fn lemma_normalize_idempotent(x: Seq<char>)
    ensures
        spec_normalize(spec_normalize(x)) == spec_normalize(x),
{
    reveal_strlit("stable");
    reveal_strlit("nightly");
    reveal_strlit("beta");
    let r = spec_normalize(x);
    if spec_starts_with(x, "stable"@) {
        lemma_normalize_with_idempotent(x, "stable"@);
    } else if spec_starts_with(x, "nightly"@) {
        lemma_normalize_with_idempotent(x, "nightly"@);
        assert(r[0] == 'n');
        assert(!spec_starts_with(r, "stable"@)) by {
            if spec_starts_with(r, "stable"@) {
                assert(r.subrange(0, 6)[0] == r[0]);
            }
        }
    } else if spec_starts_with(x, "beta"@) {
        lemma_normalize_with_idempotent(x, "beta"@);
        assert(r[0] == 'b');
        assert(!spec_starts_with(r, "stable"@)) by {
            if spec_starts_with(r, "stable"@) {
                assert(r.subrange(0, 6)[0] == r[0]);
            }
        }
        assert(!spec_starts_with(r, "nightly"@)) by {
            if spec_starts_with(r, "nightly"@) {
                assert(r.subrange(0, 7)[0] == r[0]);
            }
        }
    }
}

} // verus!
