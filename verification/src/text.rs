//! Verified text helpers: substring containment and literal replacement over
//! the character view of strings.

use vstd::prelude::*;
use vstd::string::StrSliceExecFns;
use vstd::string::StringExecFns;

verus! {

/// `needle` occurs in `s` at position `i`.
pub open spec fn seq_contains_at(s: Seq<char>, needle: Seq<char>, i: int) -> bool {
    &&& 0 <= i
    &&& i + needle.len() <= s.len()
    &&& s.subrange(i, i + needle.len()) == needle
}

/// `needle` occurs somewhere in `s`.
pub open spec fn seq_contains(s: Seq<char>, needle: Seq<char>) -> bool {
    exists|i: int| seq_contains_at(s, needle, i)
}

/// Index of the first occurrence of `c` in `s`, or `-1` when absent.
pub open spec fn find_char(s: Seq<char>, c: char) -> int
    decreases s.len(),
{
    if s.len() == 0 {
        -1
    } else if s[0] == c {
        0
    } else {
        let r = find_char(s.drop_first(), c);
        if r == -1 {
            -1
        } else {
            r + 1
        }
    }
}

/// Replaces every occurrence of `from` in `s` with `to`, leftmost first and
/// without overlap, as `str::replace` does for a non-empty needle.
pub open spec fn spec_replace(s: Seq<char>, from: Seq<char>, to: Seq<char>) -> Seq<char>
    decreases s.len(),
{
    if from.len() == 0 || s.len() < from.len() {
        s
    } else if s.take(from.len() as int) == from {
        to + spec_replace(s.skip(from.len() as int), from, to)
    } else {
        seq![s[0]] + spec_replace(s.drop_first(), from, to)
    }
}

/// Whether `from` occurs in `s` at position `i`, by character comparison.
pub fn str_match_at(s: &str, from: &str, i: usize) -> (r: bool)
    requires
        i + from@.len() <= s@.len(),
    ensures
        r == (s@.subrange(i as int, i + from@.len()) == from@),
{
    let n = s.unicode_len();
    let m = from.unicode_len();
    let mut k: usize = 0;
    while k < m
        invariant
            0 <= k <= m,
            m == from@.len(),
            n == s@.len(),
            i + m <= n,
            forall|j: int| 0 <= j < k ==> s@[i + j] == from@[j],
        decreases m - k,
    {
        if s.get_char(i + k) != from.get_char(k) {
            assert(s@.subrange(i as int, i + from@.len())[k as int] != from@[k as int]);
            return false;
        }
        k += 1;
    }
    proof {
        assert(s@.subrange(i as int, i + from@.len()) =~= from@);
    }
    true
}

/// Whether `needle` occurs anywhere in `s`.
pub fn contains_substring(s: &str, needle: &str) -> (r: bool)
    ensures
        r == seq_contains(s@, needle@),
{
    let n = s.unicode_len();
    let m = needle.unicode_len();
    if m == 0 {
        proof {
            assert(s@.subrange(0, 0) =~= needle@);
            assert(seq_contains_at(s@, needle@, 0));
        }
        return true;
    }
    if m > n {
        proof {
            assert(forall|i: int| !seq_contains_at(s@, needle@, i));
        }
        return false;
    }
    let mut i: usize = 0;
    while i <= n - m
        invariant
            0 <= i <= n - m + 1,
            0 < m <= n,
            n == s@.len(),
            m == needle@.len(),
            forall|j: int| 0 <= j < i ==> !seq_contains_at(s@, needle@, j),
        decreases n - i,
    {
        if str_match_at(s, needle, i) {
            assert(seq_contains_at(s@, needle@, i as int));
            return true;
        }
        i += 1;
    }
    proof {
        assert forall|j: int| !seq_contains_at(s@, needle@, j) by {
            if 0 <= j <= n - m {
                assert(!seq_contains_at(s@, needle@, j));
            }
        }
    }
    false
}

/// Index of the first occurrence of `c` in `s`, by character scan.
pub fn find_char_in(s: &str, c: char) -> (r: Option<usize>)
    ensures
        match r {
            Some(j) => {
                &&& (j as int) < s@.len()
                &&& s@[j as int] == c
                &&& forall|k: int| 0 <= k < j ==> s@[k] != c
                &&& find_char(s@, c) == j as int
            },
            None => find_char(s@, c) == -1 && forall|k: int| 0 <= k < s@.len() ==> s@[k] != c,
        },
{
    let n = s.unicode_len();
    let mut i: usize = 0;
    while i < n
        invariant
            0 <= i <= n,
            n == s@.len(),
            forall|k: int| 0 <= k < i ==> s@[k] != c,
        decreases n - i,
    {
        if s.get_char(i) == c {
            proof {
                lemma_find_char_unique(s@, c, i as int);
            }
            return Some(i);
        }
        i += 1;
    }
    proof {
        lemma_find_char_characterization(s@, c);
        if find_char(s@, c) != -1 {
            assert(s@[find_char(s@, c)] == c);
        }
    }
    None
}

/// Replaces every occurrence of `from` in `s` with `to`, leftmost first.
pub fn replace_str(s: &str, from: &str, to: &str) -> (r: String)
    requires
        from@.len() > 0,
    ensures
        r@ == spec_replace(s@, from@, to@),
{
    let n = s.unicode_len();
    let m = from.unicode_len();
    let mut out = String::new();
    let mut i: usize = 0;
    proof {
        assert(s@.skip(0) =~= s@);
        assert(out@ + spec_replace(s@, from@, to@) =~= spec_replace(s@, from@, to@));
    }
    while i < n
        invariant
            0 <= i <= n,
            n == s@.len(),
            m == from@.len(),
            m > 0,
            spec_replace(s@, from@, to@) == out@ + spec_replace(
                s@.skip(i as int),
                from@,
                to@,
            ),
        decreases n - i,
    {
        let ghost rem = s@.skip(i as int);
        if m <= n - i && str_match_at(s, from, i) {
            out.append(to);
            proof {
                assert(rem.take(m as int) =~= s@.subrange(i as int, i + m));
                assert(rem.skip(m as int) =~= s@.skip(i + m));
                assert(spec_replace(rem, from@, to@) == to@ + spec_replace(
                    s@.skip(i + m),
                    from@,
                    to@,
                ));
            }
            i += m;
        } else {
            let piece = s.substring_char(i, i + 1);
            out.append(piece);
            proof {
                assert(piece@ =~= seq![s@[i as int]]);
                assert(rem.skip(1) =~= s@.skip(i + 1));
                if m <= n - i {
                    assert(rem.take(m as int) =~= s@.subrange(i as int, i + m));
                    assert(rem[0] == s@[i as int]);
                    assert(rem.drop_first() =~= s@.skip(i + 1));
                    assert(spec_replace(rem, from@, to@) == seq![s@[i as int]] + spec_replace(
                        s@.skip(i + 1),
                        from@,
                        to@,
                    ));
                } else {
                    assert(rem.len() < from@.len());
                    assert(spec_replace(rem, from@, to@) == rem);
                    assert(s@.skip(i + 1).len() < from@.len());
                    assert(spec_replace(s@.skip(i + 1), from@, to@) == s@.skip(i + 1));
                    assert(rem =~= seq![s@[i as int]] + s@.skip(i + 1));
                }
            }
            i += 1;
        }
    }
    proof {
        assert(s@.skip(n as int) =~= Seq::<char>::empty());
        assert(spec_replace(Seq::<char>::empty(), from@, to@) == Seq::<char>::empty());
        assert(out@ =~= out@ + Seq::<char>::empty());
    }
    out
}

/// `find_char` returns `-1` exactly when `c` is absent, and otherwise the
/// least index holding `c`.
pub proof fn lemma_find_char_characterization(s: Seq<char>, c: char)
    ensures
        find_char(s, c) == -1 ==> forall|i: int| 0 <= i < s.len() ==> s[i] != c,
        find_char(s, c) != -1 ==> {
            let j = find_char(s, c);
            &&& 0 <= j < s.len()
            &&& s[j] == c
            &&& forall|i: int| 0 <= i < j ==> s[i] != c
        },
    decreases s.len(),
{
    if s.len() == 0 {
    } else if s[0] == c {
    } else {
        lemma_find_char_characterization(s.drop_first(), c);
        let r = find_char(s.drop_first(), c);
        if r == -1 {
            assert forall|i: int| 0 <= i < s.len() implies s[i] != c by {
                if i > 0 {
                    assert(s.drop_first()[i - 1] != c);
                }
            }
        } else {
            assert forall|i: int| 0 <= i < r + 1 implies s[i] != c by {
                if i > 0 {
                    assert(s.drop_first()[i - 1] != c);
                }
            }
        }
    }
}

/// When `j` is the least index of `s` holding `c`, `find_char` returns `j`.
pub proof fn lemma_find_char_unique(s: Seq<char>, c: char, j: int)
    requires
        0 <= j < s.len(),
        s[j] == c,
        forall|i: int| 0 <= i < j ==> s[i] != c,
    ensures
        find_char(s, c) == j,
{
    lemma_find_char_characterization(s, c);
    let f = find_char(s, c);
    if f == -1 {
        assert(s[j] != c);
    } else {
        if f < j {
            assert(s[f] != c);
        }
        if j < f {
            assert(s[j] != c);
        }
    }
}

} // verus!
