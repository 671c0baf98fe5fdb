//! Character-level helpers shared by the style parsers and the tree printer.
//!
//! All text handling in this crate works over vectors of characters, obtained
//! once at the boundary with `chars_of`; the parsing logic then reasons over
//! `Seq<char>` views.

use vstd::prelude::*;
use vstd::string::StrSliceExecFns;

verus! {

/// The sequence of characters of a string slice, as an indexable vector.
pub fn chars_of(s: &str) -> (r: Vec<char>)
    ensures
        r@ == s@,
{
    let n = s.unicode_len();
    let mut r: Vec<char> = Vec::new();
    let mut i: usize = 0;
    while i < n
        invariant
            n == s@.len(),
            i <= n,
            r@ == s@.subrange(0, i as int),
        decreases n - i,
    {
        r.push(s.get_char(i));
        i += 1;
        proof {
            assert(r@ =~= s@.subrange(0, i as int));
        }
    }
    proof {
        assert(r@ =~= s@);
    }
    r
}

/// Whether a character vector spells exactly the given string slice.
pub fn chars_eq_str(v: &Vec<char>, s: &str) -> (r: bool)
    ensures
        r == (v@ == s@),
{
    let n = s.unicode_len();
    if v.len() != n {
        return false;
    }
    let mut i: usize = 0;
    while i < n
        invariant
            n == s@.len(),
            v@.len() == n,
            i <= n,
            forall|j: int| 0 <= j < i ==> v@[j] == s@[j],
        decreases n - i,
    {
        if v[i] != s.get_char(i) {
            return false;
        }
        i += 1;
    }
    proof {
        assert(v@ =~= s@);
    }
    true
}


/// Whether two string slices spell the same characters.
pub fn str_eq_str(a: &str, b: &str) -> (r: bool)
    ensures
        r == (a@ == b@),
{
    let n = a.unicode_len();
    if b.unicode_len() != n {
        return false;
    }
    let mut i: usize = 0;
    while i < n
        invariant
            n == a@.len(),
            b@.len() == n,
            i <= n,
            forall|j: int| 0 <= j < i ==> a@[j] == b@[j],
        decreases n - i,
    {
        if a.get_char(i) != b.get_char(i) {
            return false;
        }
        i += 1;
    }
    proof {
        assert(a@ =~= b@);
    }
    true
}

/// Relies on `String::push`: appends one character at the end of the string.
#[verifier::external_body]
pub fn push_char(s: &mut String, c: char)
    ensures
        final(s)@ == old(s)@.push(c),
{
    s.push(c);
}

/// Builds a string from a character vector.
pub fn chars_to_string(v: &Vec<char>) -> (s: String)
    ensures
        s@ == v@,
{
    let mut s = String::new();
    let mut i: usize = 0;
    while i < v.len()
        invariant
            i <= v@.len(),
            s@ == v@.subrange(0, i as int),
        decreases v@.len() - i,
    {
        push_char(&mut s, v[i]);
        proof {
            assert(s@ =~= v@.subrange(0, i + 1));
        }
        i += 1;
    }
    proof {
        assert(s@ =~= v@);
    }
    s
}

// ---------------------------------------------------------------------------
// Splitting and trimming
// ---------------------------------------------------------------------------

/// The whitespace characters recognised when trimming.
pub open spec fn is_space(c: char) -> bool {
    c == ' ' || c == '\t' || c == '\n' || c == '\r'
}

/// Index of the first occurrence of `sep`, or the length when absent.
pub open spec fn find_sep(s: Seq<char>, sep: char) -> int
    decreases s.len(),
{
    if s.len() == 0 {
        0
    } else if s[0] == sep {
        0
    } else {
        1 + find_sep(s.drop_first(), sep)
    }
}

pub proof fn lemma_find_sep_bounds(s: Seq<char>, sep: char)
    ensures
        0 <= find_sep(s, sep) <= s.len(),
        forall|i: int| 0 <= i < find_sep(s, sep) ==> s[i] != sep,
        find_sep(s, sep) < s.len() ==> s[find_sep(s, sep)] == sep,
    decreases s.len(),
{
    if s.len() == 0 || s[0] == sep {
    } else {
        lemma_find_sep_bounds(s.drop_first(), sep);
        let k = find_sep(s, sep);
        assert forall|i: int| 0 <= i < k implies s[i] != sep by {
            if i > 0 {
                assert(s[i] == s.drop_first()[i - 1]);
            }
        }
        if k < s.len() {
            assert(s[k] == s.drop_first()[k - 1]);
        }
    }
}

/// A scan characterised from outside pins `find_sep` down to exactly `k`.
pub proof fn lemma_find_sep_is(s: Seq<char>, sep: char, k: int)
    requires
        0 <= k <= s.len(),
        forall|i: int| 0 <= i < k ==> s[i] != sep,
        k < s.len() ==> s[k] == sep,
    ensures
        find_sep(s, sep) == k,
    decreases s.len(),
{
    if k == 0 {
    } else {
        assert(s[0] != sep);
        assert(forall|i: int| 0 <= i < k - 1 ==> #[trigger] s.drop_first()[i] != sep);
        lemma_find_sep_is(s.drop_first(), sep, k - 1);
    }
}

/// Splits on a separator character. Consecutive separators give empty pieces,
/// and the result always holds at least one piece (an empty input gives one
/// empty piece), as the standard `split` behaves.
pub open spec fn spec_split(s: Seq<char>, sep: char) -> Seq<Seq<char>>
    decreases s.len(),
    via spec_split_decreases
{
    let k = find_sep(s, sep);
    if k == s.len() {
        seq![s]
    } else {
        seq![s.subrange(0, k)] + spec_split(s.subrange(k + 1, s.len() as int), sep)
    }
}

#[via_fn]
proof fn spec_split_decreases(s: Seq<char>, sep: char) {
    lemma_find_sep_bounds(s, sep);
}

pub proof fn lemma_spec_split_nonempty(s: Seq<char>, sep: char)
    ensures
        spec_split(s, sep).len() >= 1,
{
    lemma_find_sep_bounds(s, sep);
}

/// Splits the characters from `from` on, one recursion step per piece.
#[verifier::loop_isolation(false)]
fn split_from(v: &Vec<char>, from: usize, sep: char) -> (r: Vec<Vec<char>>)
    requires
        from <= v@.len(),
    ensures
        r.deep_view() == spec_split(v@.skip(from as int), sep),
    decreases v@.len() - from,
{
    let ghost s = v@.skip(from as int);
    let n = v.len();
    let mut j = from;
    while j < n && v[j] != sep
        invariant
            from <= j <= n,
            forall|i: int| from <= i < j ==> v@[i] != sep,
        decreases n - j,
    {
        j += 1;
    }
    proof {
        assert forall|i: int| 0 <= i < j - from implies s[i] != sep by {
            assert(s[i] == v@[from + i]);
        }
        if j < n {
            assert(s[j - from] == v@[j as int]);
        }
        lemma_find_sep_is(s, sep, j - from);
    }
    let mut tok: Vec<char> = Vec::new();
    let mut t = from;
    while t < j
        invariant
            from <= t <= j,
            tok@ == v@.subrange(from as int, t as int),
        decreases j - t,
    {
        tok.push(v[t]);
        proof {
            assert(tok@ =~= v@.subrange(from as int, t + 1));
        }
        t += 1;
    }
    if j == n {
        proof {
            assert(tok@ =~= s);
            assert(tok.deep_view() =~= tok@);
        }
        let ghost tok_snap = tok;
        let mut r: Vec<Vec<char>> = Vec::new();
        r.push(tok);
        proof {
            assert(r.deep_view() =~~= spec_split(s, sep));
        }
        r
    } else {
        let mut rest = split_from(v, j + 1, sep);
        let ghost k = j - from;
        let ghost rest_dv = rest.deep_view();
        let ghost rest_view = rest@;
        proof {
            assert(v@.skip(j + 1) =~= s.subrange(k + 1, s.len() as int));
            assert(rest_dv == spec_split(s.subrange(k + 1, s.len() as int), sep));
            assert(tok@ =~= s.subrange(0, k));
            assert(tok.deep_view() =~= tok@);
        }
        let ghost tok_snap = tok;
        let mut r: Vec<Vec<char>> = Vec::new();
        r.push(tok);
        r.append(&mut rest);
        proof {
            assert(r@ == seq![tok_snap] + rest_view);
            assert forall|i: int| 0 <= i < r.deep_view().len() implies r.deep_view()[i]
                == spec_split(s, sep)[i] by {
                if i == 0 {
                    assert(r@[0] == tok_snap);
                    assert(r.deep_view()[0] == tok_snap.deep_view());
                } else {
                    assert(r@[i] == rest_view[i - 1]);
                    assert(r.deep_view()[i] == rest_dv[i - 1]);
                }
            }
            assert(r.deep_view() =~= spec_split(s, sep));
        }
        r
    }
}

/// Splits a character vector on a separator.
pub fn split_chars(v: &Vec<char>, sep: char) -> (r: Vec<Vec<char>>)
    ensures
        r.deep_view() == spec_split(v@, sep),
{
    let r = split_from(v, 0, sep);
    proof {
        assert(v@.skip(0) =~= v@);
    }
    r
}

/// Number of whitespace characters at the front.
pub open spec fn space_prefix_len(s: Seq<char>) -> int
    decreases s.len(),
{
    if s.len() == 0 || !is_space(s[0]) {
        0
    } else {
        1 + space_prefix_len(s.drop_first())
    }
}

/// Number of whitespace characters at the back.
pub open spec fn space_suffix_len(s: Seq<char>) -> int
    decreases s.len(),
{
    if s.len() == 0 || !is_space(s.last()) {
        0
    } else {
        1 + space_suffix_len(s.drop_last())
    }
}

/// The input without leading and trailing whitespace.
pub open spec fn spec_trim(s: Seq<char>) -> Seq<char> {
    let lo = space_prefix_len(s);
    if lo == s.len() {
        Seq::empty()
    } else {
        s.subrange(lo, s.len() - space_suffix_len(s))
    }
}

proof fn lemma_space_prefix_len_bounds(s: Seq<char>)
    ensures
        0 <= space_prefix_len(s) <= s.len(),
        forall|i: int| 0 <= i < space_prefix_len(s) ==> is_space(s[i]),
        space_prefix_len(s) < s.len() ==> !is_space(s[space_prefix_len(s)]),
    decreases s.len(),
{
    if s.len() == 0 || !is_space(s[0]) {
    } else {
        lemma_space_prefix_len_bounds(s.drop_first());
        let k = space_prefix_len(s);
        assert forall|i: int| 0 <= i < k implies is_space(s[i]) by {
            if i > 0 {
                assert(s[i] == s.drop_first()[i - 1]);
            }
        }
        if k < s.len() {
            assert(s[k] == s.drop_first()[k - 1]);
        }
    }
}

proof fn lemma_space_prefix_len_is(s: Seq<char>, k: int)
    requires
        0 <= k <= s.len(),
        forall|i: int| 0 <= i < k ==> is_space(s[i]),
        k < s.len() ==> !is_space(s[k]),
    ensures
        space_prefix_len(s) == k,
    decreases s.len(),
{
    if k == 0 {
    } else {
        assert(is_space(s[0]));
        assert(forall|i: int| 0 <= i < k - 1 ==> is_space(#[trigger] s.drop_first()[i]));
        lemma_space_prefix_len_is(s.drop_first(), k - 1);
    }
}

proof fn lemma_space_suffix_len_is(s: Seq<char>, k: int)
    requires
        0 <= k <= s.len(),
        forall|i: int| s.len() - k <= i < s.len() ==> is_space(s[i]),
        k < s.len() ==> !is_space(s[s.len() - k - 1]),
    ensures
        space_suffix_len(s) == k,
    decreases s.len(),
{
    if k == 0 {
    } else {
        assert(is_space(s.last()));
        assert(forall|i: int|
            s.drop_last().len() - (k - 1) <= i < s.drop_last().len() ==> is_space(
                #[trigger] s.drop_last()[i],
            ));
        lemma_space_suffix_len_is(s.drop_last(), k - 1);
    }
}

/// The trimmed copy of a character vector.
#[verifier::loop_isolation(false)]
pub fn trim_chars(v: &Vec<char>) -> (r: Vec<char>)
    ensures
        r@ == spec_trim(v@),
{
    let n = v.len();
    let mut lo: usize = 0;
    while lo < n && (v[lo] == ' ' || v[lo] == '\t' || v[lo] == '\n' || v[lo] == '\r')
        invariant
            lo <= n,
            forall|i: int| 0 <= i < lo ==> is_space(v@[i]),
        decreases n - lo,
    {
        lo += 1;
    }
    proof {
        lemma_space_prefix_len_is(v@, lo as int);
    }
    if lo == n {
        let r: Vec<char> = Vec::new();
        proof {
            assert(r@ =~= spec_trim(v@));
        }
        return r;
    }
    let mut hi = n;
    while hi > lo && (v[hi - 1] == ' ' || v[hi - 1] == '\t' || v[hi - 1] == '\n' || v[hi - 1]
        == '\r')
        invariant
            lo <= hi <= n,
            forall|i: int| hi <= i < n ==> is_space(v@[i]),
        decreases hi,
    {
        hi -= 1;
    }
    proof {
        // `v[lo]` is not a space, so the suffix of spaces stops before `lo`.
        assert(!is_space(v@[lo as int]));
        assert(hi > lo);
        lemma_space_suffix_len_is(v@, n - hi);
    }
    let mut r: Vec<char> = Vec::new();
    let mut t = lo;
    while t < hi
        invariant
            lo <= t <= hi,
            r@ == v@.subrange(lo as int, t as int),
        decreases hi - t,
    {
        r.push(v[t]);
        proof {
            assert(r@ =~= v@.subrange(lo as int, t + 1));
        }
        t += 1;
    }
    proof {
        assert(r@ =~= spec_trim(v@));
    }
    r
}

} // verus!
