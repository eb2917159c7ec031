//! The version value type: a triple of non-negative integers, totally
//! ordered lexicographically by (major, minor, patch).
//!
//! Version text is modelled at the byte level, because the scanner reports
//! byte offsets into file contents: a well-formed version is three decimal
//! components separated by `.`, each non-empty, digits only, without a
//! leading zero (unless the component is exactly `0`), and fitting in `u64`.

use crate::error::Error;
use vstd::prelude::*;
use vstd::string::StrSliceExecFns;
use vstd::string::StringSliceAdditionalSpecFns;

verus! {

/// A semantic version. Immutable once constructed; bumping produces a new
/// value.
#[derive(Clone, Copy, Debug, PartialEq, Eq, Structural)]
pub struct Version {
    /// Major component.
    pub major: u64,
    /// Minor component.
    pub minor: u64,
    /// Patch component.
    pub patch: u64,
}

/// Strict lexicographic order on (major, minor, patch).
pub open spec fn version_lt(a: Version, b: Version) -> bool {
    ||| a.major < b.major
    ||| (a.major == b.major && a.minor < b.minor)
    ||| (a.major == b.major && a.minor == b.minor && a.patch < b.patch)
}

/// True of an ASCII decimal digit byte (`'0'` to `'9'`).
pub open spec fn is_digit_byte(b: u8) -> bool {
    0x30 <= b && b <= 0x39
}

/// True when every byte of `s` is a decimal digit.
pub open spec fn all_digit_bytes(s: Seq<u8>) -> bool {
    forall|i: int| 0 <= i < s.len() ==> is_digit_byte(#[trigger] s[i])
}

/// Numeric value of a big-endian decimal digit string.
pub open spec fn dec_value(s: Seq<u8>) -> nat
    decreases s.len(),
{
    if s.len() == 0 {
        0
    } else {
        (dec_value(s.drop_last()) * 10 + (s.last() - 0x30)) as nat
    }
}

/// Index of the first occurrence of `b` in `s`, or `-1` when absent.
pub open spec fn find_byte(s: Seq<u8>, b: u8) -> int
    decreases s.len(),
{
    if s.len() == 0 {
        -1
    } else if s[0] == b {
        0
    } else {
        let r = find_byte(s.drop_first(), b);
        if r == -1 {
            -1
        } else {
            r + 1
        }
    }
}

/// A well-formed version component: non-empty, digits only, no leading zero
/// (unless exactly `0`), and a value that fits in `u64`.
pub open spec fn valid_component(s: Seq<u8>) -> bool {
    &&& s.len() > 0
    &&& all_digit_bytes(s)
    &&& (s.len() > 1 ==> s[0] != 0x30)
    &&& dec_value(s) <= u64::MAX
}

/// The version denoted by `s`, or `None` when `s` is malformed.
pub open spec fn spec_parse_version(s: Seq<u8>) -> Option<Version> {
    let d1 = find_byte(s, 0x2e);
    if d1 < 0 {
        None
    } else {
        let major = s.take(d1);
        let rest = s.skip(d1 + 1);
        let d2 = find_byte(rest, 0x2e);
        if d2 < 0 {
            None
        } else {
            let minor = rest.take(d2);
            let patch = rest.skip(d2 + 1);
            if valid_component(major) && valid_component(minor) && valid_component(patch) {
                Some(
                    Version {
                        major: dec_value(major) as u64,
                        minor: dec_value(minor) as u64,
                        patch: dec_value(patch) as u64,
                    },
                )
            } else {
                None
            }
        }
    }
}

/// The decimal digit string of `n`, most significant digit first.
pub open spec fn spec_digits(n: nat) -> Seq<u8>
    decreases n,
{
    if n < 10 {
        seq![(0x30 + n) as u8]
    } else {
        spec_digits(n / 10) + seq![(0x30 + n % 10) as u8]
    }
}

/// The canonical text of a version: `major.minor.patch`.
pub open spec fn spec_render(v: Version) -> Seq<u8> {
    spec_digits(v.major as nat) + seq![0x2eu8] + spec_digits(v.minor as nat) + seq![0x2eu8]
        + spec_digits(v.patch as nat)
}

impl Version {
    /// Builds the version (major, minor, patch).
    pub fn new(major: u64, minor: u64, patch: u64) -> (v: Version)
        ensures
            v == (Version { major, minor, patch }),
    {
        Version { major, minor, patch }
    }

    /// Parses version text; fails exactly on text that does not denote a
    /// version, returning the offending text in the error.
    pub fn parse(text: &str) -> (r: Result<Version, Error>)
        ensures
            spec_parse_version(text.spec_bytes()) is Some ==> r == Ok::<Version, Error>(
                spec_parse_version(text.spec_bytes()).unwrap(),
            ),
            spec_parse_version(text.spec_bytes()) is None ==> (r matches Err(e) && (e matches Error::InvalidVersion(t) && t@ == text@)),
    {
        let bytes = text.as_bytes_vec();
        match Self::parse_bytes(&bytes) {
            Some(v) => Ok(v),
            None => Err(Error::InvalidVersion(text.to_owned())),
        }
    }

    /// Parses version text given as bytes.
    pub fn parse_bytes(bytes: &Vec<u8>) -> (r: Option<Version>)
        ensures
            r == spec_parse_version(bytes@),
    {
        let n = bytes.len();
        let d1 = match find_byte_from(bytes, 0, 0x2e) {
            Some(j) => j,
            None => {
                proof {
                    lemma_find_byte_characterization(bytes@, 0x2e);
                }
                return None;
            },
        };
        proof {
            lemma_find_byte_unique(bytes@, 0x2e, d1 as int);
        }
        let d2 = match find_byte_from(bytes, d1 + 1, 0x2e) {
            Some(j) => j,
            None => {
                proof {
                    let rest = bytes@.skip(d1 + 1);
                    lemma_find_byte_characterization(rest, 0x2e);
                    if find_byte(rest, 0x2e) >= 0 {
                        let k = find_byte(rest, 0x2e);
                        assert(bytes@[k + d1 + 1] == 0x2e);
                    }
                }
                return None;
            },
        };
        proof {
            let rest = bytes@.skip(d1 + 1);
            assert forall|i: int| 0 <= i < d2 - (d1 + 1) implies rest[i] != 0x2e by {
                assert(rest[i] == bytes@[i + d1 + 1]);
            }
            lemma_find_byte_unique(rest, 0x2e, d2 - (d1 + 1));
        }
        let major = match parse_component(bytes, 0, d1) {
            Some(x) => x,
            None => {
                return None;
            },
        };
        let minor = match parse_component(bytes, d1 + 1, d2) {
            Some(x) => x,
            None => {
                proof {
                    let rest = bytes@.skip(d1 + 1);
                    assert(rest.take(d2 - (d1 + 1)) =~= bytes@.subrange(d1 + 1, d2 as int));
                }
                return None;
            },
        };
        let patch = match parse_component(bytes, d2 + 1, n) {
            Some(x) => x,
            None => {
                proof {
                    let rest = bytes@.skip(d1 + 1);
                    assert(rest.skip(d2 - (d1 + 1) + 1) =~= bytes@.subrange(d2 + 1, n as int));
                }
                return None;
            },
        };
        proof {
            let rest = bytes@.skip(d1 + 1);
            assert(bytes@.take(d1 as int) =~= bytes@.subrange(0, d1 as int));
            assert(rest.take(d2 - (d1 + 1)) =~= bytes@.subrange(d1 + 1, d2 as int));
            assert(rest.skip(d2 - (d1 + 1) + 1) =~= bytes@.subrange(d2 + 1, n as int));
        }
        Some(Version { major, minor, patch })
    }

    /// The canonical text of this version, as bytes: `major.minor.patch`.
    pub fn render(&self) -> (r: Vec<u8>)
        ensures
            r@ == spec_render(*self),
    {
        let mut out: Vec<u8> = Vec::new();
        push_digits(self.major, &mut out);
        out.push(0x2e);
        push_digits(self.minor, &mut out);
        out.push(0x2e);
        push_digits(self.patch, &mut out);
        out
    }
}

/// Appends the decimal digits of `n` to `out`.
fn push_digits(n: u64, out: &mut Vec<u8>)
    ensures
        final (out)@ == old(out)@ + spec_digits(n as nat),
    decreases n,
{
    if n < 10 {
        out.push(0x30 + n as u8);
    } else {
        push_digits(n / 10, out);
        out.push(0x30 + (n % 10) as u8);
    }
}

/// Index of the first occurrence of `b` in `bytes` at or after `from`.
fn find_byte_from(bytes: &Vec<u8>, from: usize, b: u8) -> (r: Option<usize>)
    requires
        from <= bytes@.len(),
    ensures
        match r {
            Some(j) => from <= j < bytes@.len() && bytes@[j as int] == b && forall|i: int|
                from <= i < j ==> bytes@[i] != b,
            None => forall|i: int| from <= i < bytes@.len() ==> bytes@[i] != b,
        },
{
    let n = bytes.len();
    let mut i: usize = from;
    while i < n
        invariant
            from <= i <= n,
            n == bytes@.len(),
            forall|k: int| from <= k < i ==> bytes@[k] != b,
        decreases n - i,
    {
        if bytes[i] == b {
            return Some(i);
        }
        i += 1;
    }
    None
}

/// Parses the component `bytes[from..to]`: returns its value exactly when it
/// is a well-formed component.
fn parse_component(bytes: &Vec<u8>, from: usize, to: usize) -> (r: Option<u64>)
    requires
        from <= to <= bytes@.len(),
    ensures
        r is Some <==> valid_component(bytes@.subrange(from as int, to as int)),
        r is Some ==> r.unwrap() == dec_value(bytes@.subrange(from as int, to as int)),
{
    let ghost sub = bytes@.subrange(from as int, to as int);
    if to == from {
        return None;
    }
    if to - from > 1 && bytes[from] == 0x30 {
        return None;
    }
    let mut val: u64 = 0;
    let mut i: usize = from;
    while i < to
        invariant
            from <= i <= to <= bytes@.len(),
            sub == bytes@.subrange(from as int, to as int),
            forall|k: int| 0 <= k < i - from ==> is_digit_byte(#[trigger] sub[k]),
            val == dec_value(sub.take(i - from)),
        decreases to - i,
    {
        let b = bytes[i];
        if b < 0x30 || b > 0x39 {
            assert(!is_digit_byte(sub[i - from]));
            return None;
        }
        let d = (b - 0x30) as u64;
        proof {
            assert(sub.take(i + 1 - from).drop_last() =~= sub.take(i - from));
            assert(sub.take(i + 1 - from).last() == b);
        }
        if val > (u64::MAX - d) / 10 {
            proof {
                assert(val * 10 + d > u64::MAX) by (nonlinear_arith)
                    requires
                        val > (u64::MAX - d) / 10,
                        d <= 9,
                ;
                assert(dec_value(sub.take(i + 1 - from)) > u64::MAX);
                if all_digit_bytes(sub) {
                    lemma_dec_value_prefix_le(sub, i + 1 - from);
                }
            }
            return None;
        }
        proof {
            assert(val * 10 + d <= u64::MAX) by (nonlinear_arith)
                requires
                    val <= (u64::MAX - d) / 10,
                    d <= 9,
            ;
        }
        val = val * 10 + d;
        i += 1;
    }
    proof {
        assert(sub.take(to - from) =~= sub);
    }
    Some(val)
}

/// `find_byte` returns `-1` exactly when `b` is absent, and otherwise the
/// least index holding `b`.
pub proof fn lemma_find_byte_characterization(s: Seq<u8>, b: u8)
    ensures
        find_byte(s, b) == -1 ==> forall|i: int| 0 <= i < s.len() ==> s[i] != b,
        find_byte(s, b) != -1 ==> {
            let j = find_byte(s, b);
            &&& 0 <= j < s.len()
            &&& s[j] == b
            &&& forall|i: int| 0 <= i < j ==> s[i] != b
        },
    decreases s.len(),
{
    if s.len() == 0 {
    } else if s[0] == b {
    } else {
        lemma_find_byte_characterization(s.drop_first(), b);
        let r = find_byte(s.drop_first(), b);
        if r == -1 {
            assert forall|i: int| 0 <= i < s.len() implies s[i] != b by {
                if i > 0 {
                    assert(s.drop_first()[i - 1] != b);
                }
            }
        } else {
            assert forall|i: int| 0 <= i < r + 1 implies s[i] != b by {
                if i > 0 {
                    assert(s.drop_first()[i - 1] != b);
                }
            }
        }
    }
}

/// When `j` is the least index of `s` holding `b`, `find_byte` returns `j`.
pub proof fn lemma_find_byte_unique(s: Seq<u8>, b: u8, j: int)
    requires
        0 <= j < s.len(),
        s[j] == b,
        forall|i: int| 0 <= i < j ==> s[i] != b,
    ensures
        find_byte(s, b) == j,
{
    lemma_find_byte_characterization(s, b);
    let f = find_byte(s, b);
    if f == -1 {
        assert(s[j] != b);
    } else {
        if f < j {
            assert(s[f] != b);
        }
        if j < f {
            assert(s[j] != b);
        }
    }
}

/// On an all-digit string, the value of a prefix never exceeds the value of
/// the whole.
pub proof fn lemma_dec_value_prefix_le(s: Seq<u8>, k: int)
    requires
        all_digit_bytes(s),
        0 <= k <= s.len(),
    ensures
        dec_value(s.take(k)) <= dec_value(s),
    decreases s.len(),
{
    if k == s.len() {
        assert(s.take(k) =~= s);
    } else {
        assert(s.take(k) =~= s.drop_last().take(k));
        assert(all_digit_bytes(s.drop_last())) by {
            assert forall|i: int| 0 <= i < s.drop_last().len() implies is_digit_byte(
                #[trigger] s.drop_last()[i],
            ) by {
                assert(s.drop_last()[i] == s[i]);
            }
        }
        lemma_dec_value_prefix_le(s.drop_last(), k);
        assert(is_digit_byte(s.last()));
        assert(dec_value(s) == dec_value(s.drop_last()) * 10 + (s.last() - 0x30));
        assert(dec_value(s.drop_last()) * 10 >= dec_value(s.drop_last())) by (nonlinear_arith);
    }
}

/// The digit string of `n` is non-empty, all digits, has no leading zero
/// unless `n == 0`, and denotes `n`.
pub proof fn lemma_digits_valid(n: nat)
    ensures
        spec_digits(n).len() >= 1,
        all_digit_bytes(spec_digits(n)),
        n > 0 ==> spec_digits(n)[0] != 0x30,
        n == 0 ==> spec_digits(n) =~= seq![0x30u8],
        dec_value(spec_digits(n)) == n,
    decreases n,
{
    if n < 10 {
        let s = spec_digits(n);
        assert(s =~= seq![(0x30 + n) as u8]);
        assert(s.drop_last() =~= Seq::<u8>::empty());
        assert(dec_value(s.drop_last()) == 0);
        assert(s.last() == (0x30 + n) as u8);
        assert(s.last() - 0x30 == n);
        assert(dec_value(s) == (0 * 10 + (s.last() - 0x30)) as nat);
    } else {
        lemma_digits_valid(n / 10);
        let a = spec_digits(n / 10);
        let d = (0x30 + n % 10) as u8;
        assert(spec_digits(n) == a + seq![d]);
        assert((a + seq![d]).drop_last() =~= a);
        assert(all_digit_bytes(a + seq![d])) by {
            assert forall|i: int| 0 <= i < (a + seq![d]).len() implies is_digit_byte(
                #[trigger] (a + seq![d])[i],
            ) by {
                if i < a.len() {
                    assert((a + seq![d])[i] == a[i]);
                }
            }
        }
        assert(n / 10 > 0);
        assert((a + seq![d])[0] == a[0]);
        assert(dec_value(a + seq![d]) == dec_value(a) * 10 + (d - 0x30));
        assert(dec_value(a) * 10 + n % 10 == n) by (nonlinear_arith)
            requires
                dec_value(a) == n / 10,
        ;
    }
}

/// Rendering then parsing gives back the same version.
pub proof fn lemma_parse_render(v: Version)
    ensures
        spec_parse_version(spec_render(v)) == Some(v),
{
    let a = spec_digits(v.major as nat);
    let m = spec_digits(v.minor as nat);
    let p = spec_digits(v.patch as nat);
    let s = spec_render(v);
    lemma_digits_valid(v.major as nat);
    lemma_digits_valid(v.minor as nat);
    lemma_digits_valid(v.patch as nat);
    assert(s == a + seq![0x2eu8] + m + seq![0x2eu8] + p);
    let j1 = a.len() as int;
    assert(s[j1] == 0x2e);
    assert forall|i: int| 0 <= i < j1 implies s[i] != 0x2e by {
        assert(s[i] == a[i]);
        assert(is_digit_byte(a[i]));
    }
    lemma_find_byte_unique(s, 0x2e, j1);
    assert(s.take(j1) =~= a);
    let rest = s.skip(j1 + 1);
    assert(rest =~= m + seq![0x2eu8] + p);
    let j2 = m.len() as int;
    assert(rest[j2] == 0x2e);
    assert forall|i: int| 0 <= i < j2 implies rest[i] != 0x2e by {
        assert(rest[i] == m[i]);
        assert(is_digit_byte(m[i]));
    }
    lemma_find_byte_unique(rest, 0x2e, j2);
    assert(rest.take(j2) =~= m);
    assert(rest.skip(j2 + 1) =~= p);
    assert(valid_component(a));
    assert(valid_component(m));
    assert(valid_component(p));
}

} // verus!
