//! The version value: a comparable, parseable, packed-integer-decodable
//! semantic version of the form `MAJOR.MINOR.PATCH`.

use vstd::prelude::*;
use vstd::arithmetic::div_mod::lemma_fundamental_div_mod;
use vstd::string::StrSliceExecFns;
use vstd::string::StringExecFns;

use crate::errors::BuildError;

verus! {

/// A semantic version. Totally ordered lexicographically by
/// `(major, minor, patch)`, major most significant.
#[derive(Clone, Copy, PartialEq, Eq, Structural, Debug)]
pub struct Version {
    pub major: u32,
    pub minor: u32,
    pub patch: u32,
}

/// The outcome of comparing two versions.
#[derive(Clone, Copy, PartialEq, Eq, Structural, Debug)]
pub enum VersionOrder {
    Less,
    Equal,
    Greater,
}

/// Strict lexicographic order on versions, major most significant.
pub open spec fn version_lt(a: Version, b: Version) -> bool {
    ||| a.major < b.major
    ||| (a.major == b.major && a.minor < b.minor)
    ||| (a.major == b.major && a.minor == b.minor && a.patch < b.patch)
}

/// What `Version::compare` returns for a pair of versions.
pub open spec fn spec_compare(a: Version, b: Version) -> VersionOrder {
    if version_lt(a, b) {
        VersionOrder::Less
    } else if a == b {
        VersionOrder::Equal
    } else {
        VersionOrder::Greater
    }
}

/// What `Version::from_packed` returns: bits 31-16 are the major
/// component, bits 15-8 the minor, bits 7-0 the patch.
pub open spec fn spec_from_packed(packed: u32) -> Version {
    Version {
        major: (packed / 0x10000) as u32,
        minor: ((packed / 0x100) % 0x100) as u32,
        patch: (packed % 0x100) as u32,
    }
}

impl Version {
    /// Decodes a packed 32-bit version number: bits 31-16 are the major
    /// component, bits 15-8 the minor, bits 7-0 the patch. Total: every
    /// packed integer decodes to a version.
    pub fn from_packed(packed: u32) -> (v: Version)
        ensures
            v == spec_from_packed(packed),
            v.major == packed >> 16u32,
            v.minor == (packed >> 8u32) & 0xffu32,
            v.patch == packed & 0xffu32,
            v.major == packed / 0x10000,
            v.minor == (packed / 0x100) % 0x100,
            v.patch == packed % 0x100,
    {
        let major = packed >> 16u32;
        let minor = (packed >> 8u32) & 0xffu32;
        let patch = packed & 0xffu32;
        proof {
            assert(packed >> 16u32 == packed / 0x10000) by (bit_vector);
            assert((packed >> 8u32) & 0xffu32 == (packed / 0x100) % 0x100) by (bit_vector);
            assert(packed & 0xffu32 == packed % 0x100) by (bit_vector);
        }
        Version { major, minor, patch }
    }

    /// Three-way comparison in the lexicographic order.
    pub fn compare(&self, other: &Version) -> (r: VersionOrder)
        ensures
            r == spec_compare(*self, *other),
    {
        if self.major != other.major {
            if self.major < other.major {
                VersionOrder::Less
            } else {
                VersionOrder::Greater
            }
        } else if self.minor != other.minor {
            if self.minor < other.minor {
                VersionOrder::Less
            } else {
                VersionOrder::Greater
            }
        } else if self.patch != other.patch {
            if self.patch < other.patch {
                VersionOrder::Less
            } else {
                VersionOrder::Greater
            }
        } else {
            VersionOrder::Equal
        }
    }

    /// Whether `self` is at least `other` in the lexicographic order.
    pub fn at_least(&self, other: &Version) -> (r: bool)
        ensures
            r == !version_lt(*self, *other),
    {
        match self.compare(other) {
            VersionOrder::Less => false,
            VersionOrder::Equal => true,
            VersionOrder::Greater => true,
        }
    }
}

/// The order is a strict total order: for any two versions exactly one of
/// `a < b`, `a == b`, `b < a` holds.
pub proof fn lemma_order_trichotomy(a: Version, b: Version)
    ensures
        version_lt(a, b) ==> !(a == b) && !version_lt(b, a),
        a == b ==> !version_lt(a, b) && !version_lt(b, a),
        !version_lt(a, b) && !(a == b) ==> version_lt(b, a),
{
}

/// The order is irreflexive.
pub proof fn lemma_order_irreflexive(a: Version)
    ensures
        !version_lt(a, a),
{
}

/// The order is transitive.
pub proof fn lemma_order_transitive(a: Version, b: Version, c: Version)
    requires
        version_lt(a, b),
        version_lt(b, c),
    ensures
        version_lt(a, c),
{
}

/// `compare(a, b)` and `compare(b, a)` are inverses: swapping the arguments
/// swaps `Less` and `Greater` and keeps `Equal`.
pub proof fn lemma_compare_inverse(a: Version, b: Version)
    ensures
        (spec_compare(a, b) == VersionOrder::Less) <==> (spec_compare(b, a)
            == VersionOrder::Greater),
        (spec_compare(a, b) == VersionOrder::Equal) <==> (spec_compare(b, a)
            == VersionOrder::Equal),
{
    lemma_order_trichotomy(a, b);
}

/// The characters stripped from the ends of a version string.
pub open spec fn is_space_char(c: char) -> bool {
    c == ' ' || c == '\t' || c == '\n' || c == '\r'
}

/// The decimal digits `'0'` through `'9'`.
pub open spec fn is_digit_char(c: char) -> bool {
    48 <= c as u32 && c as u32 <= 57
}

/// The numeric value of a decimal digit character.
pub open spec fn digit_value(c: char) -> nat {
    ((c as u32) - 48) as nat
}

/// The decimal digit character for a value below ten.
pub open spec fn digit_char(d: nat) -> char {
    ((48 + d) as u32) as char
}

/// Every character of `s` is a decimal digit.
pub open spec fn all_digits(s: Seq<char>) -> bool {
    forall|i: int| 0 <= i < s.len() ==> is_digit_char(s[i])
}

/// The number a sequence of digit characters denotes in decimal.
pub open spec fn dec_value(s: Seq<char>) -> nat
    decreases s.len(),
{
    if s.len() == 0 {
        0
    } else {
        dec_value(s.drop_last()) * 10 + digit_value(s.last())
    }
}

/// The canonical decimal representation of a number, without leading zeros.
pub open spec fn dec_rep(n: nat) -> Seq<char>
    decreases n,
{
    if n < 10 {
        seq![digit_char(n)]
    } else {
        dec_rep(n / 10).push(digit_char(n % 10))
    }
}

/// `dec_rep` yields a nonempty all-digit sequence that denotes its argument.
pub proof fn lemma_dec_rep(n: nat)
    ensures
        dec_rep(n).len() >= 1,
        all_digits(dec_rep(n)),
        dec_value(dec_rep(n)) == n,
    decreases n,
{
    if n < 10 {
        let s = dec_rep(n);
        assert(s.drop_last() =~= Seq::<char>::empty());
        assert(dec_value(Seq::<char>::empty()) == 0);
        assert(s.last() == digit_char(n));
        assert(dec_value(s) == dec_value(s.drop_last()) * 10 + digit_value(s.last()));
        assert(digit_value(digit_char(n)) == n);
    } else {
        lemma_dec_rep(n / 10);
        let p = dec_rep(n / 10);
        let s = dec_rep(n);
        assert(s.drop_last() =~= p);
        assert(dec_value(s) == dec_value(p) * 10 + digit_value(digit_char(n % 10)));
        assert(digit_value(digit_char(n % 10)) == n % 10);
        lemma_fundamental_div_mod(n as int, 10);
    }
}

/// What `Version::format` returns: the three components in canonical
/// decimal, separated by dots.
pub open spec fn spec_format(v: Version) -> Seq<char> {
    dec_rep(v.major as nat) + seq!['.'] + dec_rep(v.minor as nat) + seq!['.'] + dec_rep(
        v.patch as nat,
    )
}

/// The one-character string for a decimal digit value.
fn digit_str(d: u32) -> (r: &'static str)
    requires
        d < 10,
    ensures
        r@ =~= seq![digit_char(d as nat)],
{
    proof {
        reveal_strlit("0");
        reveal_strlit("1");
        reveal_strlit("2");
        reveal_strlit("3");
        reveal_strlit("4");
        reveal_strlit("5");
        reveal_strlit("6");
        reveal_strlit("7");
        reveal_strlit("8");
        reveal_strlit("9");
    }
    match d {
        0 => "0",
        1 => "1",
        2 => "2",
        3 => "3",
        4 => "4",
        5 => "5",
        6 => "6",
        7 => "7",
        8 => "8",
        _ => "9",
    }
}

/// The canonical decimal string of a 32-bit number.
fn u32_dec(n: u32) -> (s: String)
    ensures
        s@ == dec_rep(n as nat),
    decreases n,
{
    if n < 10 {
        digit_str(n).to_owned()
    } else {
        let mut s = u32_dec(n / 10);
        s.append(digit_str(n % 10));
        proof {
            assert(dec_rep((n / 10) as nat) + seq![digit_char((n % 10) as nat)] =~= dec_rep(
                (n / 10) as nat,
            ).push(digit_char((n % 10) as nat)));
        }
        s
    }
}

impl Version {
    /// Formats the version as `MAJOR.MINOR.PATCH` in decimal.
    pub fn format(&self) -> (s: String)
        ensures
            s@ == spec_format(*self),
    {
        proof {
            reveal_strlit(".");
        }
        let mut s = u32_dec(self.major);
        s.append(".");
        let minor = u32_dec(self.minor);
        s.append(minor.as_str());
        s.append(".");
        let patch = u32_dec(self.patch);
        s.append(patch.as_str());
        proof {
            assert("."@ =~= seq!['.']);
        }
        s
    }
}

/// Extending a digit string on the right can only grow its value.
proof fn lemma_dec_value_prefix(s: Seq<char>, i: int)
    requires
        0 <= i <= s.len(),
    ensures
        dec_value(s) >= dec_value(s.subrange(0, i)),
    decreases s.len() - i,
{
    if i < s.len() {
        lemma_dec_value_prefix(s, i + 1);
        let a = s.subrange(0, i);
        let b = s.subrange(0, i + 1);
        assert(b.drop_last() =~= a);
        assert(dec_value(b) == dec_value(a) * 10 + digit_value(b.last()));
    } else {
        assert(s.subrange(0, i) =~= s);
    }
}

/// `s` with surrounding whitespace removed.
pub open spec fn spec_trim(s: Seq<char>) -> Seq<char>
    decreases s.len(),
{
    if s.len() == 0 {
        s
    } else if is_space_char(s[0]) {
        spec_trim(s.subrange(1, s.len() as int))
    } else if is_space_char(s[s.len() - 1]) {
        spec_trim(s.subrange(0, s.len() - 1))
    } else {
        s
    }
}

/// Trimming a sequence whose non-space part is `s.subrange(lo, hi)` yields
/// exactly that part.
proof fn lemma_trim_subrange(s: Seq<char>, lo: int, hi: int)
    requires
        0 <= lo <= hi <= s.len(),
        forall|j: int| 0 <= j < lo ==> is_space_char(s[j]),
        forall|j: int| hi <= j < s.len() ==> is_space_char(s[j]),
        lo < hi ==> !is_space_char(s[lo]) && !is_space_char(s[hi - 1]),
    ensures
        spec_trim(s) == s.subrange(lo, hi),
    decreases s.len(),
{
    if s.len() == 0 {
        assert(spec_trim(s) =~= s.subrange(lo, hi));
    } else if is_space_char(s[0]) {
        let t = s.subrange(1, s.len() as int);
        if lo < hi {
            assert(lo >= 1);
            lemma_trim_subrange(t, lo - 1, hi - 1);
            assert(t.subrange(lo - 1, hi - 1) =~= s.subrange(lo, hi));
        } else {
            assert(forall|j: int| 0 <= j < t.len() ==> is_space_char(t[j]));
            lemma_trim_subrange(t, 0, 0);
            assert(t.subrange(0, 0) =~= s.subrange(lo, hi));
        }
    } else if is_space_char(s[s.len() - 1]) {
        let t = s.subrange(0, s.len() - 1);
        if lo < hi {
            assert(hi <= s.len() - 1);
            lemma_trim_subrange(t, lo, hi);
            assert(t.subrange(lo, hi) =~= s.subrange(lo, hi));
        } else {
            assert(forall|j: int| 0 <= j < t.len() ==> is_space_char(t[j]));
            lemma_trim_subrange(t, 0, 0);
            assert(t.subrange(0, 0) =~= s.subrange(lo, hi));
        }
    } else {
        assert(lo == 0 && hi == s.len());
        assert(spec_trim(s) =~= s.subrange(lo, hi));
    }
}

/// Whether `s` holds a component separator.
pub open spec fn has_dot(s: Seq<char>) -> bool {
    exists|i: int| 0 <= i < s.len() && s[i] == '.'
}

/// The index of the first separator, or past the end where there is none.
pub open spec fn first_dot(s: Seq<char>) -> int
    decreases s.len(),
{
    if s.len() == 0 {
        0
    } else if s[0] == '.' {
        0
    } else {
        1 + first_dot(s.subrange(1, s.len() as int))
    }
}

/// `first_dot` names the first separator: a dot stands at that index and
/// none before it.
proof fn lemma_first_dot(s: Seq<char>)
    ensures
        0 <= first_dot(s) <= s.len(),
        has_dot(s) ==> first_dot(s) < s.len() && s[first_dot(s)] == '.',
        forall|j: int| 0 <= j < first_dot(s) ==> s[j] != '.',
    decreases s.len(),
{
    if s.len() == 0 {
    } else if s[0] == '.' {
    } else {
        let t = s.subrange(1, s.len() as int);
        lemma_first_dot(t);
        if has_dot(s) {
            let i = choose|i: int| 0 <= i < s.len() && s[i] == '.';
            assert(t[i - 1] == '.');
            assert(has_dot(t));
        }
        assert(forall|j: int| 1 <= j < first_dot(s) ==> s[j] == t[j - 1] && t[j - 1] != '.');
    }
}

/// The components of `s`, split on dots. Splitting never yields an empty
/// list: a dotless `s` is one component, itself.
pub open spec fn split_dots(s: Seq<char>) -> Seq<Seq<char>>
    decreases s.len(),
    via split_dots_decreases
{
    if !has_dot(s) {
        seq![s]
    } else {
        seq![s.subrange(0, first_dot(s))] + split_dots(
            s.subrange(first_dot(s) + 1, s.len() as int),
        )
    }
}

#[via_fn]
proof fn split_dots_decreases(s: Seq<char>) {
    lemma_first_dot(s);
}

/// Splitting yields at least one component.
proof fn lemma_split_dots_len(s: Seq<char>)
    ensures
        split_dots(s).len() >= 1,
    decreases s.len(),
{
    if has_dot(s) {
        lemma_first_dot(s);
        lemma_split_dots_len(s.subrange(first_dot(s) + 1, s.len() as int));
    }
}

/// If the first separator of `s` stands at `i`, the first component of `s`
/// is everything before it and the rest are the components after it.
proof fn lemma_split_dots_step(s: Seq<char>, i: int)
    requires
        0 <= i < s.len(),
        s[i] == '.',
        forall|j: int| 0 <= j < i ==> s[j] != '.',
    ensures
        split_dots(s) == seq![s.subrange(0, i)] + split_dots(s.subrange(i + 1, s.len() as int)),
{
    lemma_first_dot(s);
    assert(has_dot(s));
    if first_dot(s) < i {
        assert(s[first_dot(s)] != '.');
    }
    if i < first_dot(s) {
        assert(s[i] != '.');
    }
    assert(first_dot(s) == i);
}

/// One step of walking the components of `chars.subrange(pos, hi)`: with
/// the next separator at `d` (or none before `hi`), the component at hand
/// is `sd[k]` and the remaining components follow the separator.
proof fn lemma_parse_step(chars: Seq<char>, pos: int, d: int, hi: int, k: int, sd: Seq<Seq<char>>)
    requires
        0 <= pos <= d <= hi <= chars.len(),
        0 <= k < sd.len(),
        split_dots(chars.subrange(pos, hi)) == sd.subrange(k, sd.len() as int),
        forall|j: int| pos <= j < d ==> chars[j] != '.',
        d < hi ==> chars[d] == '.',
    ensures
        sd[k] == chars.subrange(pos, d),
        d < hi ==> sd.len() >= k + 2 && split_dots(chars.subrange(d + 1, hi)) == sd.subrange(
            k + 1,
            sd.len() as int,
        ),
        d == hi ==> k + 1 == sd.len(),
{
    let region = chars.subrange(pos, hi);
    let comp = chars.subrange(pos, d);
    assert(comp =~= region.subrange(0, d - pos));
    if d < hi {
        assert(region[d - pos] == '.');
        assert(forall|j: int| 0 <= j < d - pos ==> region[j] == chars[j + pos] && region[j]
            != '.');
        lemma_split_dots_step(region, d - pos);
        let rest = chars.subrange(d + 1, hi);
        assert(region.subrange(d - pos + 1, region.len() as int) =~= rest);
        lemma_split_dots_len(rest);
        assert(sd.subrange(k, sd.len() as int) == seq![comp] + split_dots(rest));
        assert(sd.subrange(k, sd.len() as int)[0] == sd[k]);
        assert(sd[k] == comp);
        assert(sd.subrange(k, sd.len() as int).len() == sd.len() - k);
        assert((seq![comp] + split_dots(rest)).len() == 1 + split_dots(rest).len());
        assert(sd.len() - k == 1 + split_dots(rest).len());
        assert forall|j: int| 0 <= j < split_dots(rest).len() implies sd.subrange(
            k + 1,
            sd.len() as int,
        )[j] == split_dots(rest)[j] by {
            assert(sd.subrange(k, sd.len() as int)[j + 1] == (seq![comp] + split_dots(rest))[j
                + 1]);
        }
        assert(split_dots(rest) =~= sd.subrange(k + 1, sd.len() as int));
    } else {
        assert(forall|j: int| 0 <= j < region.len() ==> region[j] == chars[j + pos] && region[j]
            != '.');
        assert(!has_dot(region));
        assert(split_dots(region) == seq![region]);
        assert(sd.subrange(k, sd.len() as int) == seq![region]);
        assert(sd.subrange(k, sd.len() as int).len() == sd.len() - k);
        assert(seq![region].len() == 1);
        assert(sd.subrange(k, sd.len() as int)[0] == sd[k]);
        assert(sd[k] == region);
        assert(comp =~= region);
    }
}

/// The first dot of `x + '.' + y` stands right after the dotless `x`.
proof fn lemma_first_dot_concat(x: Seq<char>, y: Seq<char>)
    requires
        !has_dot(x),
    ensures
        first_dot(x + seq!['.'] + y) == x.len(),
    decreases x.len(),
{
    let s = x + seq!['.'] + y;
    if x.len() == 0 {
        assert(s[0] == '.');
    } else {
        if x[0] == '.' {
            assert(has_dot(x));
        }
        assert(s[0] == x[0]);
        let xt = x.subrange(1, x.len() as int);
        if has_dot(xt) {
            let i = choose|i: int| 0 <= i < xt.len() && xt[i] == '.';
            assert(x[i + 1] == '.');
            assert(has_dot(x));
        }
        lemma_first_dot_concat(xt, y);
        assert(s.subrange(1, s.len() as int) =~= xt + seq!['.'] + y);
    }
}

/// Splitting off a dotless first component: the components of
/// `x + '.' + y` are `x` followed by the components of `y`.
proof fn lemma_split_dots_concat(x: Seq<char>, y: Seq<char>)
    requires
        !has_dot(x),
    ensures
        split_dots(x + seq!['.'] + y) == seq![x] + split_dots(y),
{
    let s = x + seq!['.'] + y;
    assert(s[x.len() as int] == '.');
    assert(has_dot(s));
    lemma_first_dot_concat(x, y);
    assert(s.subrange(0, x.len() as int) =~= x);
    assert(s.subrange(x.len() as int + 1, s.len() as int) =~= y);
}

/// An all-digit sequence holds no separator and no whitespace at its ends.
proof fn lemma_digits_plain(s: Seq<char>)
    requires
        all_digits(s),
    ensures
        !has_dot(s),
        s.len() > 0 ==> !is_space_char(s[0]) && !is_space_char(s[s.len() - 1]),
{
    if has_dot(s) {
        let i = choose|i: int| 0 <= i < s.len() && s[i] == '.';
        assert(is_digit_char(s[i]));
    }
}

/// Parsing a canonically formatted string round-trips: one, two or three
/// dotted canonical components parse to the version whose missing trailing
/// components are zero, and formatting that version reproduces the full
/// three-component string, so `format(parse(s))` fills the missing
/// components of `s` with zeros.
pub proof fn lemma_parse_format_round_trip(ma: u32, mi: u32, pa: u32)
    ensures
        spec_parse(dec_rep(ma as nat)) == Some(Version { major: ma, minor: 0, patch: 0 }),
        spec_parse(dec_rep(ma as nat) + seq!['.'] + dec_rep(mi as nat)) == Some(
            Version { major: ma, minor: mi, patch: 0 },
        ),
        spec_parse(
            dec_rep(ma as nat) + seq!['.'] + dec_rep(mi as nat) + seq!['.'] + dec_rep(pa as nat),
        ) == Some(Version { major: ma, minor: mi, patch: pa }),
        spec_format(Version { major: ma, minor: mi, patch: pa }) == dec_rep(ma as nat)
            + seq!['.'] + dec_rep(mi as nat) + seq!['.'] + dec_rep(pa as nat),
        dec_rep(0) == seq!['0'],
{
    let a = dec_rep(ma as nat);
    let b = dec_rep(mi as nat);
    let c = dec_rep(pa as nat);
    lemma_dec_rep(ma as nat);
    lemma_dec_rep(mi as nat);
    lemma_dec_rep(pa as nat);
    lemma_digits_plain(a);
    lemma_digits_plain(b);
    lemma_digits_plain(c);
    // one component
    assert(spec_trim(a) == a);
    assert(split_dots(a) == seq![a]);
    assert(spec_parse(a) == Some(Version { major: ma, minor: 0, patch: 0 }));
    // two components
    let s2 = a + seq!['.'] + b;
    assert(s2[0] == a[0]);
    assert(s2[s2.len() - 1] == b[b.len() - 1]);
    assert(spec_trim(s2) == s2);
    lemma_split_dots_concat(a, b);
    assert(split_dots(b) == seq![b]);
    let comps2 = split_dots(s2);
    assert(comps2 == seq![a] + seq![b]);
    assert(comps2.len() == 2);
    assert(comps2[0] == a && comps2[1] == b);
    assert(spec_parse(s2) == Some(Version { major: ma, minor: mi, patch: 0 }));
    // three components
    let tail = b + seq!['.'] + c;
    let s3 = a + seq!['.'] + tail;
    assert(s3 =~= a + seq!['.'] + b + seq!['.'] + c);
    assert(s3[0] == a[0]);
    assert(s3[s3.len() - 1] == c[c.len() - 1]);
    assert(spec_trim(s3) == s3);
    lemma_split_dots_concat(a, tail);
    lemma_split_dots_concat(b, c);
    assert(split_dots(c) == seq![c]);
    let comps3 = split_dots(s3);
    assert(comps3 == seq![a] + (seq![b] + seq![c]));
    assert(comps3.len() == 3);
    assert(comps3[0] == a && comps3[1] == b && comps3[2] == c);
    assert(spec_parse(s3) == Some(Version { major: ma, minor: mi, patch: pa }));
    assert(dec_rep(0) == seq![digit_char(0)]);
    assert(digit_char(0) == '0');
}

/// Formatting any version and parsing the result yields the version back,
/// so the two construction paths agree on every value either can produce.
pub proof fn lemma_format_then_parse(v: Version)
    ensures
        spec_parse(spec_format(v)) == Some(v),
{
    lemma_parse_format_round_trip(v.major, v.minor, v.patch);
}

/// A component is valid when it is nonempty, all digits, and its value fits
/// in 32 bits.
pub open spec fn component_ok(c: Seq<char>) -> bool {
    c.len() > 0 && all_digits(c) && dec_value(c) <= u32::MAX
}

/// What `Version::parse` accepts and returns. The input is trimmed and
/// split on dots; the first three components must be valid, missing ones
/// default to zero, and any beyond the third are ignored.
pub open spec fn spec_parse(s: Seq<char>) -> Option<Version> {
    let comps = split_dots(spec_trim(s));
    if comps.len() < 1 || !component_ok(comps[0]) {
        None
    } else if comps.len() >= 2 && !component_ok(comps[1]) {
        None
    } else if comps.len() >= 3 && !component_ok(comps[2]) {
        None
    } else {
        Some(
            Version {
                major: dec_value(comps[0]) as u32,
                minor: if comps.len() >= 2 {
                    dec_value(comps[1]) as u32
                } else {
                    0
                },
                patch: if comps.len() >= 3 {
                    dec_value(comps[2]) as u32
                } else {
                    0
                },
            },
        )
    }
}

/// The characters of `s`, in order.
fn chars_of(s: &str) -> (v: Vec<char>)
    ensures
        v@ == s@,
{
    let n = s.unicode_len();
    let mut v: Vec<char> = Vec::new();
    let mut i: usize = 0;
    while i < n
        invariant
            i <= n,
            n == s@.len(),
            v@ == s@.subrange(0, i as int),
        decreases n - i,
    {
        let c = s.get_char(i);
        v.push(c);
        proof {
            assert(v@ =~= s@.subrange(0, i + 1));
        }
        i = i + 1;
    }
    proof {
        assert(s@.subrange(0, n as int) =~= s@);
    }
    v
}

/// Whether `c` is whitespace that `parse` tolerates around the version.
fn is_space(c: char) -> (r: bool)
    ensures
        r == is_space_char(c),
{
    c == ' ' || c == '\t' || c == '\n' || c == '\r'
}

/// Parses one dotted component, `chars[lo..hi]`: accepted exactly when it
/// is nonempty, all digits, and its decimal value fits in 32 bits.
fn parse_component(chars: &Vec<char>, lo: usize, hi: usize) -> (r: Option<u32>)
    requires
        lo <= hi <= chars@.len(),
    ensures
        match r {
            Some(v) => component_ok(chars@.subrange(lo as int, hi as int)) && v == dec_value(
                chars@.subrange(lo as int, hi as int),
            ),
            None => !component_ok(chars@.subrange(lo as int, hi as int)),
        },
{
    let ghost c = chars@.subrange(lo as int, hi as int);
    if lo == hi {
        return None;
    }
    let mut val: u32 = 0;
    let mut i: usize = lo;
    while i < hi
        invariant
            lo <= i <= hi <= chars@.len(),
            c == chars@.subrange(lo as int, hi as int),
            all_digits(c.subrange(0, i - lo)),
            val == dec_value(c.subrange(0, i - lo)),
        decreases hi - i,
    {
        let ch = chars[i];
        let u = ch as u32;
        proof {
            assert(c[i - lo] == chars@[i as int]);
        }
        if u < 48 || u > 57 {
            proof {
                assert(!is_digit_char(c[i - lo]));
            }
            return None;
        }
        let d = u - 48;
        let ghost p = c.subrange(0, i - lo);
        let ghost q = c.subrange(0, i - lo + 1);
        proof {
            assert(q.drop_last() =~= p);
            assert(q.last() == c[i - lo]);
            assert(digit_value(q.last()) == d);
            assert(dec_value(q) == dec_value(p) * 10 + d);
        }
        if val > 429496729 || (val == 429496729 && d > 5) {
            proof {
                assert(dec_value(q) > u32::MAX);
                lemma_dec_value_prefix(c, i - lo + 1);
            }
            return None;
        }
        val = val * 10 + d;
        proof {
            assert(all_digits(q));
        }
        i = i + 1;
    }
    proof {
        assert(c.subrange(0, hi - lo) =~= c);
    }
    Some(val)
}

impl Version {
    /// Parses a dotted decimal version string. Surrounding whitespace is
    /// tolerated; one to three components are read, missing trailing
    /// components default to zero, components beyond the third are ignored;
    /// a missing, non-numeric or overflowing component among the first
    /// three is rejected.
    #[verifier::rlimit(50)]
    pub fn parse(s: &str) -> (r: Result<Version, BuildError>)
        ensures
            match r {
                Ok(v) => spec_parse(s@) == Some(v),
                Err(e) => spec_parse(s@) == None::<Version> && e
                    == BuildError::InvalidVersionSyntax,
            },
    {
        let chars = chars_of(s);
        let n = chars.len();
        let mut lo: usize = 0;
        while lo < n && is_space(chars[lo])
            invariant
                lo <= n,
                n == chars@.len(),
                forall|j: int| 0 <= j < lo ==> is_space_char(chars@[j]),
            decreases n - lo,
        {
            lo = lo + 1;
        }
        let mut hi: usize = n;
        while hi > lo && is_space(chars[hi - 1])
            invariant
                lo <= hi <= n,
                n == chars@.len(),
                forall|j: int| hi <= j < n ==> is_space_char(chars@[j]),
            decreases hi,
        {
            hi = hi - 1;
        }
        proof {
            lemma_trim_subrange(chars@, lo as int, hi as int);
        }
        let ghost t = spec_trim(s@);
        let ghost sd = split_dots(t);
        proof {
            lemma_split_dots_len(t);
            assert(sd.subrange(0, sd.len() as int) =~= sd);
        }
        let mut pos: usize = lo;
        let mut k: usize = 0;
        let mut major: u32 = 0;
        let mut minor: u32 = 0;
        let mut patch: u32 = 0;
        let mut more = true;
        while more
            invariant
                lo <= pos <= hi <= n,
                n == chars@.len(),
                t == chars@.subrange(lo as int, hi as int),
                sd == split_dots(t),
                sd == split_dots(spec_trim(s@)),
                sd.len() >= 1,
                k <= 3,
                k <= sd.len(),
                more ==> k < 3,
                more ==> k < sd.len(),
                more ==> split_dots(chars@.subrange(pos as int, hi as int)) == sd.subrange(
                    k as int,
                    sd.len() as int,
                ),
                !more ==> (k == sd.len() || k == 3),
                !more ==> k >= 1,
                forall|j: int| 0 <= j < k ==> component_ok(sd[j]),
                k >= 1 ==> major == dec_value(sd[0]),
                k >= 2 ==> minor == dec_value(sd[1]),
                k >= 3 ==> patch == dec_value(sd[2]),
                k <= 1 ==> minor == 0,
                k <= 2 ==> patch == 0,
            decreases hi - pos + (if more {
                1int
            } else {
                0int
            }),
        {
            let mut d: usize = pos;
            while d < hi && chars[d] != '.'
                invariant
                    pos <= d <= hi <= n,
                    n == chars@.len(),
                    forall|j: int| pos <= j < d ==> chars@[j] != '.',
                decreases hi - d,
            {
                d = d + 1;
            }
            proof {
                lemma_parse_step(chars@, pos as int, d as int, hi as int, k as int, sd);
            }
            match parse_component(&chars, pos, d) {
                None => {
                    proof {
                        assert(!component_ok(sd[k as int]));
                    }
                    return Err(BuildError::InvalidVersionSyntax);
                },
                Some(v) => {
                    if k == 0 {
                        major = v;
                    } else if k == 1 {
                        minor = v;
                    } else {
                        patch = v;
                    }
                    k = k + 1;
                    if d < hi {
                        pos = d + 1;
                        if k == 3 {
                            more = false;
                        }
                    } else {
                        pos = d;
                        more = false;
                    }
                },
            }
        }
        proof {
            let comps = split_dots(spec_trim(s@));
            assert(comps == sd);
            assert(k == sd.len() || k == 3);
            assert(component_ok(comps[0]));
            assert(comps.len() >= 2 ==> component_ok(comps[1]));
            assert(comps.len() >= 3 ==> component_ok(comps[2]));
            assert(major == dec_value(comps[0]) as u32);
            assert(minor == if comps.len() >= 2 {
                dec_value(comps[1]) as u32
            } else {
                0u32
            });
            assert(patch == if comps.len() >= 3 {
                dec_value(comps[2]) as u32
            } else {
                0u32
            });
        }
        Ok(Version { major, minor, patch })
    }
}

} // verus!
