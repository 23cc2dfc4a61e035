//! Small verified helpers over strings, used by the path heuristics and the
//! symbol table: equality of string slices and the extension handling that the
//! module resolver needs.

use vstd::prelude::*;

verus! {

/// Character-wise equality of two string slices, decided over their views.
pub fn str_eq(a: &str, b: &str) -> (r: bool)
    ensures
        r == (a@ == b@),
{
    let alen = a.unicode_len();
    let blen = b.unicode_len();
    if alen != blen {
        return false;
    }
    let mut i: usize = 0;
    while i < alen
        invariant
            alen == a@.len(),
            alen == b@.len(),
            i <= alen,
            forall|j: int| 0 <= j < i ==> a@[j] == b@[j],
        decreases alen - i,
    {
        if a.get_char(i) != b.get_char(i) {
            return false;
        }
        i += 1;
    }
    proof {
        assert(a@ =~= b@);
    }
    true
}

/// The position of the last `.` of `name` that lies strictly inside the
/// prefix of length `upto` and not at the very first character, or `-1` when
/// there is none. A `.` at the first character starts a hidden file name and
/// does not separate an extension.
pub open spec fn last_dot_before(name: Seq<char>, upto: int) -> int
    decreases upto,
{
    if upto <= 1 {
        -1
    } else if name[upto - 1] == '.' {
        upto - 1
    } else {
        last_dot_before(name, upto - 1)
    }
}

/// How many characters of a file name belong to its stem: everything before
/// the `.` that separates the extension, or the whole name when it has no
/// extension. Mirrors how the standard library splits a file name.
pub open spec fn stem_len_of(name: Seq<char>) -> int {
    let d = last_dot_before(name, name.len() as int);
    if d == -1 {
        name.len() as int
    } else {
        d
    }
}

pub proof fn lemma_last_dot_bounds(name: Seq<char>, upto: int)
    requires
        upto <= name.len(),
    ensures
        last_dot_before(name, upto) == -1 || 1 <= last_dot_before(name, upto) < upto,
    decreases upto,
{
    if upto > 1 && name[upto - 1] != '.' {
        lemma_last_dot_bounds(name, upto - 1);
    }
}

/// The stem of a file name never reaches past the name itself.
pub proof fn lemma_stem_len_bounds(name: Seq<char>)
    ensures
        0 <= stem_len_of(name) <= name.len(),
{
    lemma_last_dot_bounds(name, name.len() as int);
}

/// The stem of a file name: what remains once the extension and its dot are
/// taken off, or the whole name when there is no extension.
pub open spec fn stem_of(name: Seq<char>) -> Seq<char> {
    name.take(stem_len_of(name))
}

/// Computes the length of the stem of `name` (see [`stem_len_of`]).
pub fn stem_len(name: &str) -> (r: usize)
    ensures
        r == stem_len_of(name@),
{
    let n = name.unicode_len();
    let mut i: usize = n;
    while i > 1
        invariant
            n == name@.len(),
            0 <= i <= n,
            last_dot_before(name@, n as int) == last_dot_before(name@, i as int),
        decreases i,
    {
        if name.get_char(i - 1) == '.' {
            return i - 1;
        }
        i -= 1;
    }
    proof {
        assert(last_dot_before(name@, i as int) == -1);
    }
    n
}

/// Replaces the extension of a file name with `rs`, as the standard library
/// would: the stem is kept and `.rs` is appended.
pub fn with_rs_extension(name: &str) -> (r: String)
    ensures
        r@ == stem_of(name@) + ".rs"@,
{
    let k = stem_len(name);
    proof {
        lemma_last_dot_bounds(name@, name@.len() as int);
    }
    let stem = name.substring_char(0, k);
    proof {
        assert(stem@ =~= stem_of(name@));
    }
    stem.to_owned().concat(".rs")
}

} // verus!
