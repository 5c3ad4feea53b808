//! Semantic versions for release artifacts: parsing `X.Y.Z` with an
//! optional `-suffix`, and ordering. A version with a suffix precedes the
//! same version without one (a pre-release precedes the release).

use core::cmp::Ordering;
use vstd::prelude::*;
use vstd::string::StrSliceExecFns;
use vstd::string::StringExecFns;
use vstd::string::StringSliceAdditionalSpecFns;

verus! {

/// A semantic version with an optional pre-release suffix.
#[derive(Debug, Clone)]
pub struct Version {
    /// Major component.
    pub major: u32,
    /// Minor component.
    pub minor: u32,
    /// Patch component.
    pub patch: u32,
    /// Pre-release suffix, the text after the first `-`.
    pub suffix: Option<String>,
}

/// The bytes of an ASCII character sequence.
pub open spec fn ascii_bytes(s: Seq<char>) -> Seq<u8> {
    Seq::new(s.len(), |i: int| s[i] as u8)
}

/// Whether a byte is an ASCII decimal digit.
pub open spec fn is_digit(b: u8) -> bool {
    48 <= b <= 57
}

/// Whether a byte sequence is one or more decimal digits.
pub open spec fn all_digits(s: Seq<u8>) -> bool {
    &&& s.len() >= 1
    &&& forall|i: int| 0 <= i < s.len() ==> is_digit(#[trigger] s[i])
}

/// The numeric value of a digit sequence, most significant digit first.
pub open spec fn digits_value(s: Seq<u8>) -> nat
    decreases s.len(),
{
    if s.len() == 0 {
        0
    } else {
        (digits_value(s.drop_last()) * 10 + (s.last() - 48)) as nat
    }
}

/// Whether `d` is where the version core ends: the index of the first `-`
/// byte, or the sequence's length when there is none.
pub open spec fn dash_at(s: Seq<u8>, d: int) -> bool {
    &&& 0 <= d <= s.len()
    &&& (d < s.len() ==> s[d] == 45)
    &&& forall|k: int| 0 <= k < d ==> #[trigger] s[k] != 45
}

/// Whether `i` and `j` are the positions of the two dots of a well-formed
/// `major.minor.patch` core whose three digit groups each fit in `u32`.
pub open spec fn version_core_shape(core: Seq<u8>, i: int, j: int) -> bool {
    &&& 0 <= i < j < core.len()
    &&& core[i] == 46
    &&& core[j] == 46
    &&& forall|k: int| 0 <= k < core.len() && k != i && k != j ==> #[trigger] core[k] != 46
    &&& all_digits(core.subrange(0, i))
    &&& all_digits(core.subrange(i + 1, j))
    &&& all_digits(core.subrange(j + 1, core.len() as int))
    &&& digits_value(core.subrange(0, i)) <= u32::MAX
    &&& digits_value(core.subrange(i + 1, j)) <= u32::MAX
    &&& digits_value(core.subrange(j + 1, core.len() as int)) <= u32::MAX
}

/// Whether the character sequence `name` reads as the version components
/// `(major, minor, patch, suffix)`: digits and dots up to the first `-`,
/// the rest (if any) the suffix.
pub open spec fn parses_as(
    name: Seq<char>,
    major: u32,
    minor: u32,
    patch: u32,
    suffix: Option<Seq<char>>,
) -> bool {
    let b = ascii_bytes(name);
    exists|d: int, i: int, j: int|
        {
            &&& #[trigger] dash_at(b, d)
            &&& #[trigger] version_core_shape(b.subrange(0, d), i, j)
            &&& major == digits_value(b.subrange(0, i))
            &&& minor == digits_value(b.subrange(i + 1, j))
            &&& patch == digits_value(b.subrange(j + 1, d))
            &&& match suffix {
                Some(sfx) => d < name.len() && sfx == name.subrange(d + 1, name.len() as int),
                None => d == name.len(),
            }
        }
}

/// Whether some version shape fits the character sequence at all.
pub open spec fn has_version_shape(name: Seq<char>) -> bool {
    exists|d: int, i: int, j: int|
        #[trigger] dash_at(ascii_bytes(name), d) && #[trigger] version_core_shape(
            ascii_bytes(name).subrange(0, d),
            i,
            j,
        )
}

/// Extending a digit prefix by one digit multiplies its value by ten and
/// adds the digit.
proof fn lemma_digits_value_step(s: Seq<u8>, k: int)
    requires
        0 <= k < s.len(),
        is_digit(s[k]),
    ensures
        digits_value(s.take(k + 1)) == digits_value(s.take(k)) * 10 + (s[k] - 48),
{
    assert(s.take(k + 1).drop_last() =~= s.take(k));
}

/// A digit sequence's value only grows as digits are appended.
proof fn lemma_digits_value_mono(s: Seq<u8>, k: int)
    requires
        0 <= k <= s.len(),
        forall|i: int| 0 <= i < s.len() ==> is_digit(#[trigger] s[i]),
    ensures
        digits_value(s.take(k)) <= digits_value(s),
    decreases s.len() - k,
{
    if k == s.len() {
        assert(s.take(k) =~= s);
    } else {
        lemma_digits_value_step(s, k);
        assert(digits_value(s.take(k)) <= digits_value(s.take(k)) * 10 + (s[k] - 48))
            by (nonlinear_arith)
            requires
                is_digit(s[k]),
        ;
        lemma_digits_value_mono(s, k + 1);
    }
}

/// Reads the digit group `bytes[start..end]` as a `u32`.
///
/// Returns the value exactly when the group is one or more digits whose
/// value fits; returns nothing otherwise.
fn parse_u32_digits(bytes: &Vec<u8>, start: usize, end: usize) -> (r: Option<u32>)
    requires
        start <= end <= bytes@.len(),
    ensures
        ({
            let sub = bytes@.subrange(start as int, end as int);
            match r {
                Some(v) => all_digits(sub) && digits_value(sub) <= u32::MAX && v == digits_value(
                    sub,
                ),
                None => !all_digits(sub) || digits_value(sub) > u32::MAX,
            }
        }),
{
    let ghost sub = bytes@.subrange(start as int, end as int);
    if start == end {
        return None;
    }
    let mut acc: u64 = 0;
    let mut k: usize = start;
    let bound: u64 = u32::MAX as u64;
    while k < end
        invariant
            start <= k <= end <= bytes@.len(),
            sub == bytes@.subrange(start as int, end as int),
            forall|i: int| 0 <= i < k - start ==> is_digit(#[trigger] sub[i]),
            digits_value(sub.take(k - start)) <= u32::MAX ==> acc == digits_value(
                sub.take(k - start),
            ),
            digits_value(sub.take(k - start)) > u32::MAX ==> acc == bound + 1,
            acc <= bound + 1,
            bound == u32::MAX,
        decreases end - k,
    {
        let b = bytes[k];
        proof {
            assert(sub[k - start] == bytes@[k as int]);
        }
        if b < 48 || b > 57 {
            return None;
        }
        proof {
            lemma_digits_value_step(sub, k - start);
            assert(digits_value(sub.take(k - start)) > u32::MAX ==> digits_value(
                sub.take(k - start),
            ) * 10 + (sub[k - start] - 48) > u32::MAX) by (nonlinear_arith);
            assert(acc == bound + 1 ==> acc * 10 + (b - 48) > u32::MAX) by (nonlinear_arith)
                requires
                    bound == u32::MAX,
            ;
        }
        acc = acc * 10 + ((b - 48) as u64);
        if acc > bound {
            acc = bound + 1;
        }
        k = k + 1;
    }
    proof {
        assert(sub.take(end - start) =~= sub);
    }
    if acc > bound {
        return None;
    }
    Some(acc as u32)
}

impl Version {
    /// Parses `major.minor.patch` with an optional `-suffix`.
    ///
    /// Succeeds exactly on ASCII text of that shape whose three numeric
    /// components fit in `u32`; the suffix is everything after the first
    /// `-`, kept verbatim.
    pub fn parse(s: &str) -> (r: Option<Version>)
        ensures
            match r {
                Some(v) => s.is_ascii() && parses_as(
                    s@,
                    v.major,
                    v.minor,
                    v.patch,
                    match v.suffix {
                        Some(sfx) => Some(sfx@),
                        None => None,
                    },
                ),
                None => !s.is_ascii() || !has_version_shape(s@),
            },
    {
        proof {
            broadcast use vstd::string::is_ascii_spec_bytes;

        }
        if !s.is_ascii() {
            return None;
        }
        let bytes = s.as_bytes_vec();
        proof {
            assert(bytes@ =~= ascii_bytes(s@));
        }
        let n = bytes.len();
        let mut d: usize = 0;
        while d < n && bytes[d] != 45
            invariant
                0 <= d <= n,
                n == bytes@.len(),
                forall|k: int| 0 <= k < d ==> #[trigger] bytes@[k] != 45,
            decreases n - d,
        {
            d = d + 1;
        }
        proof {
            assert(dash_at(bytes@, d as int));
        }
        let mut i: usize = 0;
        while i < d && bytes[i] != 46
            invariant
                0 <= i <= d <= n,
                n == bytes@.len(),
                forall|k: int| 0 <= k < i ==> #[trigger] bytes@[k] != 46,
            decreases d - i,
        {
            i = i + 1;
        }
        if i == d {
            proof {
                lemma_no_shape_without_dots(bytes@, d as int, s@);
            }
            return None;
        }
        let mut j: usize = i + 1;
        while j < d && bytes[j] != 46
            invariant
                i < j <= d <= n,
                n == bytes@.len(),
                forall|k: int| i < k < j ==> #[trigger] bytes@[k] != 46,
            decreases d - j,
        {
            j = j + 1;
        }
        if j == d {
            proof {
                lemma_no_shape_one_dot(bytes@, d as int, i as int, s@);
            }
            return None;
        }
        let mut m: usize = j + 1;
        while m < d && bytes[m] != 46
            invariant
                j < m <= d <= n,
                n == bytes@.len(),
                forall|k: int| j < k < m ==> #[trigger] bytes@[k] != 46,
            decreases d - m,
        {
            m = m + 1;
        }
        if m < d {
            proof {
                lemma_no_shape_three_dots(bytes@, d as int, i as int, j as int, m as int, s@);
            }
            return None;
        }
        let major = match parse_u32_digits(&bytes, 0, i) {
            Some(v) => v,
            None => {
                proof {
                    lemma_no_shape_bad_group(bytes@, d as int, i as int, j as int, s@);
                }
                return None;
            },
        };
        let minor = match parse_u32_digits(&bytes, i + 1, j) {
            Some(v) => v,
            None => {
                proof {
                    lemma_no_shape_bad_group(bytes@, d as int, i as int, j as int, s@);
                }
                return None;
            },
        };
        let patch = match parse_u32_digits(&bytes, j + 1, d) {
            Some(v) => v,
            None => {
                proof {
                    lemma_no_shape_bad_group(bytes@, d as int, i as int, j as int, s@);
                }
                return None;
            },
        };
        let suffix: Option<String> = if d < n {
            Some(String::from_str(s.substring_ascii(d + 1, n)))
        } else {
            None
        };
        let v = Version { major, minor, patch, suffix };
        proof {
            let b = ascii_bytes(s@);
            assert(b.subrange(0, d as int).subrange(0, i as int) =~= b.subrange(0, i as int));
            assert(b.subrange(0, d as int).subrange(i + 1, j as int) =~= b.subrange(
                i + 1,
                j as int,
            ));
            assert(b.subrange(0, d as int).subrange(j + 1, d as int) =~= b.subrange(
                j + 1,
                d as int,
            ));
            assert(version_core_shape(b.subrange(0, d as int), i as int, j as int));
        }
        Some(v)
    }
}

/// When the core has no dot at all, no version shape fits.
proof fn lemma_no_shape_without_dots(b: Seq<u8>, d: int, name: Seq<char>)
    requires
        b == ascii_bytes(name),
        dash_at(b, d),
        forall|k: int| 0 <= k < d ==> #[trigger] b[k] != 46,
    ensures
        !has_version_shape(name),
{
    assert forall|d2: int, i: int, j: int|
        !(#[trigger] dash_at(b, d2) && #[trigger] version_core_shape(
            b.subrange(0, d2),
            i,
            j,
        )) by {
        if dash_at(b, d2) {
            lemma_dash_unique(b, d, d2);
            if version_core_shape(b.subrange(0, d2), i, j) {
                assert(b.subrange(0, d2)[i] == 46);
                assert(b[i] == 46);
            }
        }
    }
}

/// When the core has exactly one dot, no version shape fits.
proof fn lemma_no_shape_one_dot(b: Seq<u8>, d: int, i: int, name: Seq<char>)
    requires
        b == ascii_bytes(name),
        dash_at(b, d),
        0 <= i < d,
        b[i] == 46,
        forall|k: int| 0 <= k < i ==> #[trigger] b[k] != 46,
        forall|k: int| i < k < d ==> #[trigger] b[k] != 46,
    ensures
        !has_version_shape(name),
{
    assert forall|d2: int, i2: int, j2: int|
        !(#[trigger] dash_at(b, d2) && #[trigger] version_core_shape(
            b.subrange(0, d2),
            i2,
            j2,
        )) by {
        if dash_at(b, d2) {
            lemma_dash_unique(b, d, d2);
            if version_core_shape(b.subrange(0, d2), i2, j2) {
                assert(b[i2] == 46 && b[j2] == 46 && i2 < j2 < d);
                assert(i2 == i && j2 == i);
            }
        }
    }
}

/// When the core has three or more dots, no version shape fits.
proof fn lemma_no_shape_three_dots(b: Seq<u8>, d: int, i: int, j: int, m: int, name: Seq<char>)
    requires
        b == ascii_bytes(name),
        dash_at(b, d),
        0 <= i < j < d,
        j < m < d,
        b[i] == 46,
        b[j] == 46,
        b[m] == 46,
    ensures
        !has_version_shape(name),
{
    assert forall|d2: int, i2: int, j2: int|
        !(#[trigger] dash_at(b, d2) && #[trigger] version_core_shape(
            b.subrange(0, d2),
            i2,
            j2,
        )) by {
        if dash_at(b, d2) {
            lemma_dash_unique(b, d, d2);
            if version_core_shape(b.subrange(0, d2), i2, j2) {
                assert(b.subrange(0, d2)[i] == 46 && b.subrange(0, d2)[j] == 46 && b.subrange(
                    0,
                    d2,
                )[m] == 46);
            }
        }
    }
}

/// When one of the three digit groups is empty, not digits, or too large,
/// no version shape fits.
proof fn lemma_no_shape_bad_group(b: Seq<u8>, d: int, i: int, j: int, name: Seq<char>)
    requires
        b == ascii_bytes(name),
        dash_at(b, d),
        0 <= i < j < d,
        b[i] == 46,
        b[j] == 46,
        forall|k: int| 0 <= k < d && k != i && k != j ==> #[trigger] b[k] != 46,
        ({
            ||| !all_digits(b.subrange(0, i)) || digits_value(b.subrange(0, i)) > u32::MAX
            ||| !all_digits(b.subrange(i + 1, j)) || digits_value(b.subrange(i + 1, j)) > u32::MAX
            ||| !all_digits(b.subrange(j + 1, d)) || digits_value(b.subrange(j + 1, d)) > u32::MAX
        }),
    ensures
        !has_version_shape(name),
{
    assert forall|d2: int, i2: int, j2: int|
        !(#[trigger] dash_at(b, d2) && #[trigger] version_core_shape(
            b.subrange(0, d2),
            i2,
            j2,
        )) by {
        if dash_at(b, d2) {
            lemma_dash_unique(b, d, d2);
            if version_core_shape(b.subrange(0, d2), i2, j2) {
                assert(b[i2] == 46 && b[j2] == 46);
                assert(i2 == i || i2 == j);
                assert(j2 == i || j2 == j);
                assert(i2 == i && j2 == j);
                assert(b.subrange(0, d).subrange(0, i) =~= b.subrange(0, i));
                assert(b.subrange(0, d).subrange(i + 1, j) =~= b.subrange(i + 1, j));
                assert(b.subrange(0, d).subrange(j + 1, d) =~= b.subrange(j + 1, d));
            }
        }
    }
}

/// The first-dash position is unique.
proof fn lemma_dash_unique(b: Seq<u8>, d1: int, d2: int)
    requires
        dash_at(b, d1),
        dash_at(b, d2),
    ensures
        d1 == d2,
{
}

/// A character sequence reads as at most one version key.
proof fn lemma_parses_unique(
    name: Seq<char>,
    m1: u32,
    n1: u32,
    p1: u32,
    s1: Option<Seq<char>>,
    m2: u32,
    n2: u32,
    p2: u32,
    s2: Option<Seq<char>>,
)
    requires
        parses_as(name, m1, n1, p1, s1),
        parses_as(name, m2, n2, p2, s2),
    ensures
        m1 == m2,
        n1 == n2,
        p1 == p2,
        s1 == s2,
{
    let b = ascii_bytes(name);
    let (d1, i1, j1) = choose|d: int, i: int, j: int|
        {
            &&& #[trigger] dash_at(b, d)
            &&& #[trigger] version_core_shape(b.subrange(0, d), i, j)
            &&& m1 == digits_value(b.subrange(0, i))
            &&& n1 == digits_value(b.subrange(i + 1, j))
            &&& p1 == digits_value(b.subrange(j + 1, d))
            &&& match s1 {
                Some(sfx) => d < name.len() && sfx == name.subrange(d + 1, name.len() as int),
                None => d == name.len(),
            }
        };
    let (d2, i2, j2) = choose|d: int, i: int, j: int|
        {
            &&& #[trigger] dash_at(b, d)
            &&& #[trigger] version_core_shape(b.subrange(0, d), i, j)
            &&& m2 == digits_value(b.subrange(0, i))
            &&& n2 == digits_value(b.subrange(i + 1, j))
            &&& p2 == digits_value(b.subrange(j + 1, d))
            &&& match s2 {
                Some(sfx) => d < name.len() && sfx == name.subrange(d + 1, name.len() as int),
                None => d == name.len(),
            }
        };
    lemma_dash_unique(b, d1, d2);
    let core = b.subrange(0, d1);
    assert(core[i1] == 46 && core[j1] == 46 && core[i2] == 46 && core[j2] == 46);
    assert(i1 == i2 && j1 == j2);
}

/// Lexicographic comparison of byte sequences, as `str` ordering performs
/// it on UTF-8 bytes.
pub open spec fn lex_cmp_bytes(a: Seq<u8>, b: Seq<u8>) -> Ordering
    decreases a.len(),
{
    if a.len() == 0 && b.len() == 0 {
        Ordering::Equal
    } else if a.len() == 0 {
        Ordering::Less
    } else if b.len() == 0 {
        Ordering::Greater
    } else if a[0] < b[0] {
        Ordering::Less
    } else if a[0] > b[0] {
        Ordering::Greater
    } else {
        lex_cmp_bytes(a.drop_first(), b.drop_first())
    }
}

/// A version key: the three numeric components and the suffix characters.
/// Keys order lexicographically by component; among equal numbers, a
/// version with a suffix precedes one without, and suffixes compare by
/// their UTF-8 bytes.
pub open spec fn version_key_order(
    a: (u32, u32, u32, Option<Seq<char>>),
    b: (u32, u32, u32, Option<Seq<char>>),
) -> Ordering {
    if a.0 != b.0 {
        if a.0 < b.0 {
            Ordering::Less
        } else {
            Ordering::Greater
        }
    } else if a.1 != b.1 {
        if a.1 < b.1 {
            Ordering::Less
        } else {
            Ordering::Greater
        }
    } else if a.2 != b.2 {
        if a.2 < b.2 {
            Ordering::Less
        } else {
            Ordering::Greater
        }
    } else {
        match (a.3, b.3) {
            (None, None) => Ordering::Equal,
            (Some(_), None) => Ordering::Less,
            (None, Some(_)) => Ordering::Greater,
            (Some(x), Some(y)) => lex_cmp_bytes(
                vstd::utf8::encode_utf8(x),
                vstd::utf8::encode_utf8(y),
            ),
        }
    }
}

/// The key of a version value.
pub open spec fn version_key(v: Version) -> (u32, u32, u32, Option<Seq<char>>) {
    (
        v.major,
        v.minor,
        v.patch,
        match v.suffix {
            Some(s) => Some(s@),
            None => None,
        },
    )
}

/// How two versions order; see [`version_key_order`].
pub open spec fn version_order(a: Version, b: Version) -> Ordering {
    version_key_order(version_key(a), version_key(b))
}

/// Compares two byte vectors lexicographically.
fn lex_cmp_vec(a: &Vec<u8>, b: &Vec<u8>) -> (r: Ordering)
    ensures
        r == lex_cmp_bytes(a@, b@),
{
    let mut k: usize = 0;
    proof {
        assert(a@.skip(0) =~= a@);
        assert(b@.skip(0) =~= b@);
    }
    while k < a.len() && k < b.len()
        invariant
            k <= a@.len(),
            k <= b@.len(),
            lex_cmp_bytes(a@, b@) == lex_cmp_bytes(a@.skip(k as int), b@.skip(k as int)),
        decreases a@.len() - k,
    {
        if a[k] < b[k] {
            return Ordering::Less;
        }
        if a[k] > b[k] {
            return Ordering::Greater;
        }
        proof {
            assert(a@.skip(k as int).drop_first() =~= a@.skip(k + 1));
            assert(b@.skip(k as int).drop_first() =~= b@.skip(k + 1));
        }
        k = k + 1;
    }
    if a.len() == b.len() {
        Ordering::Equal
    } else if a.len() < b.len() {
        Ordering::Less
    } else {
        Ordering::Greater
    }
}

impl Version {
    /// Compares two versions: numeric components first; among equal
    /// numbers a suffixed version precedes an unsuffixed one, and suffixes
    /// compare by their bytes.
    pub fn cmp(&self, other: &Version) -> (r: Ordering)
        ensures
            r == version_order(*self, *other),
    {
        if self.major != other.major {
            return if self.major < other.major {
                Ordering::Less
            } else {
                Ordering::Greater
            };
        }
        if self.minor != other.minor {
            return if self.minor < other.minor {
                Ordering::Less
            } else {
                Ordering::Greater
            };
        }
        if self.patch != other.patch {
            return if self.patch < other.patch {
                Ordering::Less
            } else {
                Ordering::Greater
            };
        }
        match (&self.suffix, &other.suffix) {
            (None, None) => Ordering::Equal,
            (Some(_), None) => Ordering::Less,
            (None, Some(_)) => Ordering::Greater,
            (Some(x), Some(y)) => {
                let xb = x.as_str().as_bytes_vec();
                let yb = y.as_str().as_bytes_vec();
                lex_cmp_vec(&xb, &yb)
            },
        }
    }
}

/// Byte order is reflexive.
proof fn lemma_lex_refl(a: Seq<u8>)
    ensures
        lex_cmp_bytes(a, a) == Ordering::Equal,
    decreases a.len(),
{
    if a.len() > 0 {
        lemma_lex_refl(a.drop_first());
    }
}

/// Byte order flips with its arguments.
proof fn lemma_lex_flip(a: Seq<u8>, b: Seq<u8>)
    ensures
        (lex_cmp_bytes(a, b) == Ordering::Greater) <==> (lex_cmp_bytes(b, a) == Ordering::Less),
        (lex_cmp_bytes(a, b) == Ordering::Equal) <==> (lex_cmp_bytes(b, a) == Ordering::Equal),
    decreases a.len(),
{
    if a.len() > 0 && b.len() > 0 && a[0] == b[0] {
        lemma_lex_flip(a.drop_first(), b.drop_first());
    }
}

/// Byte order is transitive on "not greater".
proof fn lemma_lex_trans(a: Seq<u8>, b: Seq<u8>, c: Seq<u8>)
    requires
        lex_cmp_bytes(a, b) != Ordering::Greater,
        lex_cmp_bytes(b, c) != Ordering::Greater,
    ensures
        lex_cmp_bytes(a, c) != Ordering::Greater,
    decreases a.len(),
{
    if a.len() > 0 && b.len() > 0 && c.len() > 0 && a[0] == b[0] && b[0] == c[0] {
        lemma_lex_trans(a.drop_first(), b.drop_first(), c.drop_first());
    }
}

/// Key order is reflexive.
proof fn lemma_key_refl(a: (u32, u32, u32, Option<Seq<char>>))
    ensures
        version_key_order(a, a) == Ordering::Equal,
{
    match a.3 {
        Some(x) => lemma_lex_refl(vstd::utf8::encode_utf8(x)),
        None => (),
    }
}

/// Key order flips with its arguments.
proof fn lemma_key_flip(a: (u32, u32, u32, Option<Seq<char>>), b: (u32, u32, u32, Option<Seq<char>>))
    ensures
        (version_key_order(a, b) == Ordering::Greater) <==> (version_key_order(b, a)
            == Ordering::Less),
{
    match (a.3, b.3) {
        (Some(x), Some(y)) => lemma_lex_flip(
            vstd::utf8::encode_utf8(x),
            vstd::utf8::encode_utf8(y),
        ),
        _ => (),
    }
}

/// Key order is transitive on "not greater".
proof fn lemma_key_trans(
    a: (u32, u32, u32, Option<Seq<char>>),
    b: (u32, u32, u32, Option<Seq<char>>),
    c: (u32, u32, u32, Option<Seq<char>>),
)
    requires
        version_key_order(a, b) != Ordering::Greater,
        version_key_order(b, c) != Ordering::Greater,
    ensures
        version_key_order(a, c) != Ordering::Greater,
{
    match (a.3, b.3, c.3) {
        (Some(x), Some(y), Some(z)) => {
            if a.0 == b.0 && b.0 == c.0 && a.1 == b.1 && b.1 == c.1 && a.2 == b.2 && b.2 == c.2 {
                lemma_lex_trans(
                    vstd::utf8::encode_utf8(x),
                    vstd::utf8::encode_utf8(y),
                    vstd::utf8::encode_utf8(z),
                );
            }
        },
        _ => (),
    }
}

/// Whether the byte sequence of a file name has the release-artifact
/// shape: the `buceo-` prefix and the `.apk` extension.
pub open spec fn apk_pattern(b: Seq<u8>) -> bool {
    &&& b.len() >= 10
    &&& b[0] == 98
    &&& b[1] == 117
    &&& b[2] == 99
    &&& b[3] == 101
    &&& b[4] == 111
    &&& b[5] == 45
    &&& b[b.len() - 4] == 46
    &&& b[b.len() - 3] == 97
    &&& b[b.len() - 2] == 112
    &&& b[b.len() - 1] == 107
}

/// The version text inside a patterned file name: what stands between the
/// prefix and the extension.
pub open spec fn apk_version_text(name: Seq<char>) -> Seq<char> {
    name.subrange(6, name.len() - 4)
}

/// Whether a file name is a release artifact: ASCII, patterned, and its
/// version text has a valid version shape.
pub open spec fn apk_candidate(name: Seq<char>) -> bool {
    &&& vstd::utf8::is_ascii_chars(name)
    &&& apk_pattern(ascii_bytes(name))
    &&& has_version_shape(apk_version_text(name))
}

/// A release artifact: its file name and the version parsed from it.
#[derive(Debug, Clone)]
pub struct ApkInfo {
    /// The file name the version was read from.
    pub filename: String,
    /// The parsed version.
    pub version: Version,
}

/// Picks the latest release artifact from a list of file names.
///
/// A name counts when it matches the artifact pattern and its version text
/// parses; among those, the greatest version wins. Returns nothing when no
/// name counts.
pub fn select_latest_apk(filenames: &Vec<String>) -> (r: Option<ApkInfo>)
    ensures
        match r {
            Some(info) => {
                &&& exists|idx: int|
                    0 <= idx < filenames@.len() && #[trigger] filenames@[idx]@ == info.filename@
                &&& apk_candidate(info.filename@)
                &&& parses_as(
                    apk_version_text(info.filename@),
                    info.version.major,
                    info.version.minor,
                    info.version.patch,
                    match info.version.suffix {
                        Some(sfx) => Some(sfx@),
                        None => None,
                    },
                )
                &&& forall|idx: int, m: u32, n: u32, p: u32, sfx: Option<Seq<char>>|
                    0 <= idx < filenames@.len() && apk_candidate(filenames@[idx]@)
                        && #[trigger] parses_as(
                        apk_version_text(filenames@[idx]@),
                        m,
                        n,
                        p,
                        sfx,
                    ) ==> version_key_order((m, n, p, sfx), version_key(info.version))
                        != Ordering::Greater
            },
            None => forall|idx: int|
                0 <= idx < filenames@.len() ==> !#[trigger] apk_candidate(filenames@[idx]@),
        },
{
    proof {
        broadcast use vstd::string::is_ascii_spec_bytes;

    }
    let mut best: Option<ApkInfo> = None;
    let mut idx: usize = 0;
    while idx < filenames.len()
        invariant
            idx <= filenames@.len(),
            match best {
                Some(info) => {
                    &&& exists|q: int|
                        0 <= q < idx && #[trigger] filenames@[q]@ == info.filename@
                    &&& apk_candidate(info.filename@)
                    &&& parses_as(
                        apk_version_text(info.filename@),
                        info.version.major,
                        info.version.minor,
                        info.version.patch,
                        match info.version.suffix {
                            Some(sfx) => Some(sfx@),
                            None => None,
                        },
                    )
                    &&& forall|q: int, m: u32, n: u32, p: u32, sfx: Option<Seq<char>>|
                        0 <= q < idx && apk_candidate(filenames@[q]@) && #[trigger] parses_as(
                            apk_version_text(filenames@[q]@),
                            m,
                            n,
                            p,
                            sfx,
                        ) ==> version_key_order((m, n, p, sfx), version_key(info.version))
                            != Ordering::Greater
                },
                None => forall|q: int|
                    0 <= q < idx ==> !#[trigger] apk_candidate(filenames@[q]@),
            },
        decreases filenames@.len() - idx,
    {
        proof {
            broadcast use vstd::string::is_ascii_spec_bytes;

        }
        let s = &filenames[idx];
        let mut parsed: Option<Version> = None;
        let sref = s.as_str();
        if sref.is_ascii() {
            let b = sref.as_bytes_vec();
            proof {
                vstd::string::is_ascii_spec_bytes(sref);
                assert(b@ =~= ascii_bytes(s@));
            }
            let n = b.len();
            if n >= 10 && b[0] == 98 && b[1] == 117 && b[2] == 99 && b[3] == 101 && b[4] == 111
                && b[5] == 45 && b[n - 4] == 46 && b[n - 3] == 97 && b[n - 2] == 112 && b[n - 1]
                == 107 {
                let mid = sref.substring_ascii(6, n - 4);
                parsed = Version::parse(mid);
                match &parsed {
                    Some(_) => {
                        proof {
                            assert(mid@ =~= apk_version_text(s@));
                            assert(apk_candidate(s@));
                        }
                    },
                    None => {
                        proof {
                            assert(mid@ =~= apk_version_text(s@));
                            assert(!apk_candidate(s@));
                        }
                    },
                }
            } else {
                proof {
                    assert(!apk_pattern(ascii_bytes(s@)));
                }
            }
        }
        if let Some(v) = parsed {
            let ghost vkey = version_key(v);
            proof {
                assert forall|m: u32, n: u32, p: u32, sfx: Option<Seq<char>>|
                    #[trigger] parses_as(
                        apk_version_text(filenames@[idx as int]@),
                        m,
                        n,
                        p,
                        sfx,
                    ) implies (m, n, p, sfx) == vkey by {
                    lemma_parses_unique(
                        apk_version_text(filenames@[idx as int]@),
                        m,
                        n,
                        p,
                        sfx,
                        v.major,
                        v.minor,
                        v.patch,
                        vkey.3,
                    );
                }
            }
            match &best {
                None => {
                    proof {
                        lemma_key_refl(vkey);
                    }
                    best = Some(ApkInfo { filename: s.clone(), version: v });
                },
                Some(cur) => {
                    let ord = v.cmp(&cur.version);
                    let ghost ckey = version_key(cur.version);
                    match ord {
                        Ordering::Greater => {
                            proof {
                                lemma_key_refl(vkey);
                                lemma_key_flip(vkey, ckey);
                                assert forall|
                                    q: int,
                                    m: u32,
                                    n: u32,
                                    p: u32,
                                    sfx: Option<Seq<char>>,
                                |
                                    0 <= q < idx && apk_candidate(filenames@[q]@)
                                        && #[trigger] parses_as(
                                        apk_version_text(filenames@[q]@),
                                        m,
                                        n,
                                        p,
                                        sfx,
                                    ) implies version_key_order((m, n, p, sfx), vkey)
                                    != Ordering::Greater by {
                                    lemma_key_trans((m, n, p, sfx), ckey, vkey);
                                }
                            }
                            best = Some(ApkInfo { filename: s.clone(), version: v });
                        },
                        _ => {
                        },
                    }
                },
            }
        }
        idx = idx + 1;
    }
    best
}

} // verus!
