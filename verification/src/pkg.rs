//! Package specifiers: `name` or `name@<op><version>` with a semantic
//! version constraint. Parsing and formatting are exact inverses, which
//! is stated and proved here.

use vstd::prelude::*;

use crate::digits::{
    all_digits, dec_str, dec_val, digit_val, is_dec_digit, lemma_dec_str_val, lemma_dec_val_nonneg,
    lemma_dec_val_push, lemma_dec_val_take_mono, u64_to_string,
};

verus! {

/// The comparison operator of a version constraint.
#[derive(Clone, Copy, Debug, PartialEq, Eq, Structural)]
pub enum VersionComparison {
    Equal,
    GreaterThanOrEqual,
    LessThanOrEqual,
    GreaterThan,
    LessThan,
}

/// A semantic version bound to the comparison it was requested with.
#[derive(Clone, Copy, Debug, PartialEq, Eq, Structural)]
pub struct VersionStruct {
    pub major: u64,
    pub minor: u64,
    pub patch: u64,
    pub condition: VersionComparison,
}

/// Mathematical model of a version constraint.
pub struct VersionStructV {
    pub major: nat,
    pub minor: nat,
    pub patch: nat,
    pub condition: VersionComparison,
}

impl View for VersionStruct {
    type V = VersionStructV;

    open spec fn view(&self) -> VersionStructV {
        VersionStructV {
            major: self.major as nat,
            minor: self.minor as nat,
            patch: self.patch as nat,
            condition: self.condition,
        }
    }
}

/// A parsed package specifier: a non-empty name, optionally constrained
/// to versions satisfying `condition`.
#[derive(Clone, Debug)]
pub struct PkgToQuery {
    pub name: String,
    pub version: Option<VersionStruct>,
}

/// Mathematical model of a package specifier.
pub struct PkgToQueryV {
    pub name: Seq<char>,
    pub version: Option<VersionStructV>,
}

impl View for PkgToQuery {
    type V = PkgToQueryV;

    open spec fn view(&self) -> PkgToQueryV {
        PkgToQueryV {
            name: self.name@,
            version: match self.version {
                Option::Some(v) => Option::Some(v@),
                Option::None => Option::None,
            },
        }
    }
}

/// The operator's textual form.
pub open spec fn op_chars(c: VersionComparison) -> Seq<char> {
    match c {
        VersionComparison::Equal => seq!['='],
        VersionComparison::GreaterThanOrEqual => seq!['>', '='],
        VersionComparison::LessThanOrEqual => seq!['<', '='],
        VersionComparison::GreaterThan => seq!['>'],
        VersionComparison::LessThan => seq!['<'],
    }
}

/// The `major.minor.patch` textual form of a version.
pub open spec fn version_chars(v: VersionStructV) -> Seq<char> {
    dec_str(v.major) + seq!['.'] + dec_str(v.minor) + seq!['.'] + dec_str(v.patch)
}

/// The canonical textual form of a specifier.
pub open spec fn query_chars(q: PkgToQueryV) -> Seq<char> {
    match q.version {
        Option::None => q.name,
        Option::Some(v) => q.name + seq!['@'] + op_chars(v.condition) + version_chars(v),
    }
}

/// Index of the first occurrence of `c` in `s`, or -1 when absent.
pub open spec fn first_idx(s: Seq<char>, c: char) -> int
    decreases s.len(),
{
    if s.len() == 0 {
        -1
    } else if s[0] == c {
        0
    } else {
        let r = first_idx(s.drop_first(), c);
        if r < 0 {
            -1
        } else {
            r + 1
        }
    }
}

pub proof fn lemma_first_idx_position(s: Seq<char>, c: char, k: int)
    requires
        0 <= k < s.len(),
        s[k] == c,
        forall|j: int| 0 <= j < k ==> s[j] != c,
    ensures
        first_idx(s, c) == k,
    decreases k,
{
    if k == 0 {
    } else {
        assert(s[0] != c);
        let t = s.drop_first();
        assert(forall|j: int| 0 <= j < k - 1 ==> t[j] == s[j + 1]);
        lemma_first_idx_position(t, c, k - 1);
    }
}

pub proof fn lemma_first_idx_none(s: Seq<char>, c: char)
    requires
        forall|j: int| 0 <= j < s.len() ==> s[j] != c,
    ensures
        first_idx(s, c) == -1,
    decreases s.len(),
{
    if s.len() > 0 {
        let t = s.drop_first();
        assert(forall|j: int| 0 <= j < t.len() ==> t[j] == s[j + 1]);
        lemma_first_idx_none(t, c);
    }
}

pub proof fn lemma_first_idx_found(s: Seq<char>, c: char)
    requires
        first_idx(s, c) >= 0,
    ensures
        first_idx(s, c) < s.len(),
        s[first_idx(s, c)] == c,
        forall|j: int| 0 <= j < first_idx(s, c) ==> s[j] != c,
    decreases s.len(),
{
    if s.len() > 0 && s[0] != c {
        let t = s.drop_first();
        lemma_first_idx_found(t, c);
        assert(forall|j: int| 0 <= j < t.len() ==> t[j] == s[j + 1]);
        assert forall|j: int| 0 <= j < first_idx(s, c) implies s[j] != c by {
            if j > 0 {
                assert(s[j] == t[j - 1]);
            }
        }
    }
}

/// A digit run that denotes a machine-representable number.
pub open spec fn is_num_seg(s: Seq<char>) -> bool {
    s.len() > 0 && all_digits(s) && dec_val(s) <= u64::MAX
}

/// Parses the comparison operator at the head of `s`, returning it with
/// the remainder.
pub open spec fn parse_op(s: Seq<char>) -> Option<(VersionComparison, Seq<char>)> {
    if s.len() >= 2 && s[0] == '>' && s[1] == '=' {
        Option::Some((VersionComparison::GreaterThanOrEqual, s.skip(2)))
    } else if s.len() >= 2 && s[0] == '<' && s[1] == '=' {
        Option::Some((VersionComparison::LessThanOrEqual, s.skip(2)))
    } else if s.len() >= 1 && s[0] == '=' {
        Option::Some((VersionComparison::Equal, s.skip(1)))
    } else if s.len() >= 1 && s[0] == '>' {
        Option::Some((VersionComparison::GreaterThan, s.skip(1)))
    } else if s.len() >= 1 && s[0] == '<' {
        Option::Some((VersionComparison::LessThan, s.skip(1)))
    } else {
        Option::None
    }
}

/// Parses `major.minor.patch`.
pub open spec fn parse_version_nums(s: Seq<char>) -> Option<(nat, nat, nat)> {
    let i = first_idx(s, '.');
    if i < 0 {
        Option::None
    } else {
        let first = s.take(i);
        let rest = s.skip(i + 1);
        let j = first_idx(rest, '.');
        if j < 0 {
            Option::None
        } else {
            let second = rest.take(j);
            let third = rest.skip(j + 1);
            if is_num_seg(first) && is_num_seg(second) && is_num_seg(third) {
                Option::Some(
                    (dec_val(first) as nat, dec_val(second) as nat, dec_val(third) as nat),
                )
            } else {
                Option::None
            }
        }
    }
}

/// Parses a package specifier: a bare non-empty name, or
/// `name@<op><major>.<minor>.<patch>`. Malformed input parses to
/// nothing; a specifier is never partially populated.
pub open spec fn parse_query(s: Seq<char>) -> Option<PkgToQueryV> {
    let i = first_idx(s, '@');
    if i < 0 {
        if s.len() > 0 {
            Option::Some(PkgToQueryV { name: s, version: Option::None })
        } else {
            Option::None
        }
    } else if i == 0 {
        Option::None
    } else {
        let name = s.take(i);
        let rest = s.skip(i + 1);
        match parse_op(rest) {
            Option::None => Option::None,
            Option::Some((cond, vstr)) => match parse_version_nums(vstr) {
                Option::None => Option::None,
                Option::Some((a, b, c)) => Option::Some(
                    PkgToQueryV {
                        name: name,
                        version: Option::Some(
                            VersionStructV { major: a, minor: b, patch: c, condition: cond },
                        ),
                    },
                ),
            },
        }
    }
}

/// The specifiers that formatting can produce: a non-empty name free of
/// `@`, and version numbers a machine can hold.
pub open spec fn query_wf(q: PkgToQueryV) -> bool {
    &&& q.name.len() > 0
    &&& (forall|i: int| 0 <= i < q.name.len() ==> q.name[i] != '@')
    &&& match q.version {
        Option::None => true,
        Option::Some(v) => v.major <= u64::MAX && v.minor <= u64::MAX && v.patch <= u64::MAX,
    }
}

/// A rendered version constraint parses back to the numbers it was made
/// from.
proof fn lemma_version_chars_parse(v: VersionStructV)
    requires
        v.major <= u64::MAX,
        v.minor <= u64::MAX,
        v.patch <= u64::MAX,
    ensures
        parse_version_nums(version_chars(v)) == Option::Some((v.major, v.minor, v.patch)),
{
    let a = dec_str(v.major);
    let b = dec_str(v.minor);
    let c = dec_str(v.patch);
    lemma_dec_str_val(v.major);
    lemma_dec_str_val(v.minor);
    lemma_dec_str_val(v.patch);
    let s = version_chars(v);
    assert(s == a + seq!['.'] + b + seq!['.'] + c);
    assert forall|j: int| 0 <= j < a.len() implies s[j] != '.' by {
        assert(s[j] == a[j]);
        assert(is_dec_digit(a[j]));
    }
    assert(s[a.len() as int] == '.');
    lemma_first_idx_position(s, '.', a.len() as int);
    assert(s.take(a.len() as int) =~= a);
    let rest = s.skip(a.len() as int + 1);
    assert(rest =~= b + seq!['.'] + c);
    assert forall|j: int| 0 <= j < b.len() implies rest[j] != '.' by {
        assert(rest[j] == b[j]);
        assert(is_dec_digit(b[j]));
    }
    assert(rest[b.len() as int] == '.');
    lemma_first_idx_position(rest, '.', b.len() as int);
    assert(rest.take(b.len() as int) =~= b);
    assert(rest.skip(b.len() as int + 1) =~= c);
}

/// Formatting a well-formed specifier and parsing the result yields the
/// specifier again: parse is a left inverse of format.
pub proof fn lemma_query_format_parses(q: PkgToQueryV)
    requires
        query_wf(q),
    ensures
        parse_query(query_chars(q)) == Option::Some(q),
{
    let s = query_chars(q);
    match q.version {
        Option::None => {
            lemma_first_idx_none(s, '@');
            assert(parse_query(s) == Option::Some(PkgToQueryV { name: s, version: Option::None }));
        },
        Option::Some(v) => {
            let n = q.name.len() as int;
            let tail = op_chars(v.condition) + version_chars(v);
            assert(s =~= q.name + seq!['@'] + tail);
            assert forall|j: int| 0 <= j < n implies s[j] != '@' by {
                assert(s[j] == q.name[j]);
            }
            assert(s[n] == '@');
            lemma_first_idx_position(s, '@', n);
            assert(s.take(n) =~= q.name);
            let rest = s.skip(n + 1);
            assert(rest =~= tail);
            lemma_dec_str_val(v.major);
            assert(version_chars(v)[0] == dec_str(v.major)[0]);
            assert(is_dec_digit(version_chars(v)[0]));
            match v.condition {
                VersionComparison::Equal => {
                    assert(rest[0] == '=');
                    assert(rest.skip(1) =~= version_chars(v));
                },
                VersionComparison::GreaterThanOrEqual => {
                    assert(rest[0] == '>' && rest[1] == '=');
                    assert(rest.skip(2) =~= version_chars(v));
                },
                VersionComparison::LessThanOrEqual => {
                    assert(rest[0] == '<' && rest[1] == '=');
                    assert(rest.skip(2) =~= version_chars(v));
                },
                VersionComparison::GreaterThan => {
                    assert(rest[0] == '>');
                    assert(rest.len() >= 2 ==> rest[1] == version_chars(v)[0]);
                    assert(rest.skip(1) =~= version_chars(v));
                },
                VersionComparison::LessThan => {
                    assert(rest[0] == '<');
                    assert(rest.len() >= 2 ==> rest[1] == version_chars(v)[0]);
                    assert(rest.skip(1) =~= version_chars(v));
                },
            }
            assert(parse_op(rest) == Option::Some((v.condition, version_chars(v))));
            lemma_version_chars_parse(v);
        },
    }
}

/// Whatever parses is well-formed, so it can be formatted and parsed
/// again.
pub proof fn lemma_parse_query_wf(s: Seq<char>)
    requires
        parse_query(s) is Some,
    ensures
        query_wf(parse_query(s)->Some_0),
{
    let i = first_idx(s, '@');
    if i < 0 {
        lemma_first_idx_found_neg(s, '@');
    } else {
        lemma_first_idx_found(s, '@');
        assert forall|j: int| 0 <= j < s.take(i).len() implies s.take(i)[j] != '@' by {
            assert(s.take(i)[j] == s[j]);
        }
        let rest = s.skip(i + 1);
        let (cond, vstr) = parse_op(rest)->Some_0;
        let fi = first_idx(vstr, '.');
        let first = vstr.take(fi);
        let rest2 = vstr.skip(fi + 1);
        let sj = first_idx(rest2, '.');
        let second = rest2.take(sj);
        let third = rest2.skip(sj + 1);
        assert(is_num_seg(first) && is_num_seg(second) && is_num_seg(third));
        lemma_dec_val_nonneg(first);
        lemma_dec_val_nonneg(second);
        lemma_dec_val_nonneg(third);
    }
}

/// When `c` does not occur, no position holds it.
proof fn lemma_first_idx_found_neg(s: Seq<char>, c: char)
    requires
        first_idx(s, c) < 0,
    ensures
        forall|j: int| 0 <= j < s.len() ==> s[j] != c,
    decreases s.len(),
{
    if s.len() > 0 {
        let t = s.drop_first();
        assert(s[0] != c);
        lemma_first_idx_found_neg(t, c);
        assert forall|j: int| 0 <= j < s.len() implies s[j] != c by {
            if j > 0 {
                assert(s[j] == t[j - 1]);
            }
        }
    }
}

/// Round trip: a valid specifier, parsed and formatted, parses back to
/// the very same constraint (same name, operator and version).
pub proof fn lemma_specifier_round_trip(s: Seq<char>)
    requires
        parse_query(s) is Some,
    ensures
        parse_query(query_chars(parse_query(s)->Some_0)) == parse_query(s),
{
    lemma_parse_query_wf(s);
    lemma_query_format_parses(parse_query(s)->Some_0);
}

/// Text after the last slash: a path's file name (the path itself when
/// it has no slash).
pub open spec fn basename_chars(s: Seq<char>) -> Seq<char>
    decreases s.len(),
{
    let i = first_idx(s, '/');
    if 0 <= i && i < s.len() {
        basename_chars(s.skip(i + 1))
    } else {
        s
    }
}

/// The text after the last slash is the basename.
proof fn lemma_basename_after_last_slash(s: Seq<char>, k: int)
    requires
        0 <= k < s.len(),
        s[k] == '/',
        forall|j: int| k < j < s.len() ==> s[j] != '/',
    ensures
        basename_chars(s) == s.skip(k + 1),
    decreases s.len(),
{
    let i = first_idx(s, '/');
    if i < 0 {
        lemma_first_idx_found_neg(s, '/');
        assert(s[k] != '/');
    } else {
        lemma_first_idx_found(s, '/');
        assert(i <= k);
        if i == k {
            let t = s.skip(k + 1);
            assert forall|j: int| 0 <= j < t.len() implies t[j] != '/' by {
                assert(t[j] == s[k + 1 + j]);
            }
            lemma_first_idx_none(t, '/');
            assert(basename_chars(t) == t);
            assert(basename_chars(s) == basename_chars(t));
        } else {
            let t = s.skip(i + 1);
            assert(t[k - i - 1] == s[k]);
            assert forall|j: int| k - i - 1 < j < t.len() implies t[j] != '/' by {
                assert(t[j] == s[i + 1 + j]);
            }
            lemma_basename_after_last_slash(t, k - i - 1);
            assert(t.skip(k - i) =~= s.skip(k + 1));
        }
    }
}

/// The file name of a path: the text after its last slash.
pub fn basename(s: &str) -> (r: String)
    ensures
        r@ == basename_chars(s@),
{
    let len = s.unicode_len();
    let mut last: Option<usize> = Option::None;
    let mut i: usize = 0;
    while i < len
        invariant
            i <= len,
            len == s@.len(),
            match last {
                Option::Some(k) => k < i && s@[k as int] == '/' && (forall|j: int|
                    k < j < i ==> s@[j] != '/'),
                Option::None => forall|j: int| 0 <= j < i ==> s@[j] != '/',
            },
        decreases len - i,
    {
        let ch = s.get_char(i);
        if ch == '/' {
            last = Option::Some(i);
        }
        i = i + 1;
    }
    match last {
        Option::None => {
            proof {
                lemma_first_idx_none(s@, '/');
            }
            String::from_str(s)
        },
        Option::Some(k) => {
            proof {
                lemma_basename_after_last_slash(s@, k as int);
            }
            let tail = s.substring_char(k + 1, len);
            proof {
                assert(tail@ =~= s@.skip(k as int + 1));
            }
            String::from_str(tail)
        },
    }
}


impl VersionComparison {
    /// The operator text used in a specifier.
    pub fn to_str_operator(&self) -> (r: &'static str)
        ensures
            r@ == op_chars(*self),
    {
        match self {
            VersionComparison::Equal => {
                let r = "=";
                proof {
                    reveal_strlit("=");
                    assert(r@ =~= op_chars(*self));
                }
                r
            },
            VersionComparison::GreaterThanOrEqual => {
                let r = ">=";
                proof {
                    reveal_strlit(">=");
                    assert(r@ =~= op_chars(*self));
                }
                r
            },
            VersionComparison::LessThanOrEqual => {
                let r = "<=";
                proof {
                    reveal_strlit("<=");
                    assert(r@ =~= op_chars(*self));
                }
                r
            },
            VersionComparison::GreaterThan => {
                let r = ">";
                proof {
                    reveal_strlit(">");
                    assert(r@ =~= op_chars(*self));
                }
                r
            },
            VersionComparison::LessThan => {
                let r = "<";
                proof {
                    reveal_strlit("<");
                    assert(r@ =~= op_chars(*self));
                }
                r
            },
        }
    }
}

impl VersionStruct {
    /// Renders the version as `major.minor.patch`.
    pub fn readable_format(&self) -> (r: String)
        ensures
            r@ == version_chars(self@),
    {
        let mut r = u64_to_string(self.major);
        r.append(".");
        let minor = u64_to_string(self.minor);
        r.append(minor.as_str());
        r.append(".");
        let patch = u64_to_string(self.patch);
        r.append(patch.as_str());
        proof {
            reveal_strlit(".");
            assert(r@ =~= version_chars(self@));
        }
        r
    }
}

impl PkgToQuery {
    /// The version constraint, or an exact-zero placeholder when the
    /// specifier gave none.
    pub fn version_struct(&self) -> (r: VersionStruct)
        ensures
            match self.version {
                Option::Some(v) => r == v,
                Option::None => r == (VersionStruct {
                    major: 0,
                    minor: 0,
                    patch: 0,
                    condition: VersionComparison::Equal,
                }),
            },
    {
        match &self.version {
            Option::Some(v) => *v,
            Option::None => VersionStruct {
                major: 0,
                minor: 0,
                patch: 0,
                condition: VersionComparison::Equal,
            },
        }
    }

    /// Renders the specifier in its canonical textual form.
    pub fn to_string(&self) -> (r: String)
        ensures
            r@ == query_chars(self@),
    {
        match &self.version {
            Option::None => self.name.clone(),
            Option::Some(v) => {
                let mut r = self.name.clone();
                r.append("@");
                r.append(v.condition.to_str_operator());
                let ver = v.readable_format();
                r.append(ver.as_str());
                proof {
                    reveal_strlit("@");
                    assert(r@ =~= query_chars(self@));
                }
                r
            },
        }
    }
}

/// Position of the first occurrence of `c` in `s` at or after `from`.
fn find_char(s: &str, from: usize, len: usize, c: char) -> (r: Option<usize>)
    requires
        from <= len,
        len == s@.len(),
    ensures
        match r {
            Option::Some(k) => from <= k < len && s@[k as int] == c && (forall|j: int|
                from <= j < k ==> s@[j] != c),
            Option::None => forall|j: int| from <= j < len ==> s@[j] != c,
        },
{
    let mut i: usize = from;
    while i < len
        invariant
            from <= i <= len,
            len == s@.len(),
            forall|j: int| from <= j < i ==> s@[j] != c,
        decreases len - i,
    {
        let ch = s.get_char(i);
        if ch == c {
            return Option::Some(i);
        }
        i = i + 1;
    }
    Option::None
}

/// Reads the digit run `s[from..to]` as a number, refusing empty runs,
/// non-digits and values over `u64::MAX`.
fn parse_num_range(s: &str, from: usize, to: usize) -> (r: Option<u64>)
    requires
        from <= to <= s@.len(),
    ensures
        ({
            let seg = s@.subrange(from as int, to as int);
            match r {
                Option::Some(n) => is_num_seg(seg) && dec_val(seg) == n,
                Option::None => !is_num_seg(seg),
            }
        }),
{
    let ghost seg = s@.subrange(from as int, to as int);
    if from == to {
        return Option::None;
    }
    let mut acc: u64 = 0;
    let mut i: usize = from;
    while i < to
        invariant
            from <= i <= to,
            to <= s@.len(),
            seg == s@.subrange(from as int, to as int),
            all_digits(s@.subrange(from as int, i as int)),
            acc == dec_val(s@.subrange(from as int, i as int)),
        decreases to - i,
    {
        let ch = s.get_char(i);
        let cu = ch as u32;
        if cu < 48 || cu > 57 {
            proof {
                assert(seg[i - from] == s@[i as int]);
                assert(!is_dec_digit(seg[i - from]));
            }
            return Option::None;
        }
        let d = (cu - 48) as u64;
        proof {
            assert(is_dec_digit(s@[i as int]));
            assert(digit_val(s@[i as int]) == d);
            assert(s@.subrange(from as int, i as int + 1) =~= s@.subrange(from as int, i as int)
                + seq![s@[i as int]]);
            lemma_dec_val_push(s@.subrange(from as int, i as int), s@[i as int]);
        }
        let stepped = acc.checked_mul(10);
        match stepped {
            Option::None => {
                proof {
                    lemma_num_overflow(s@, from as int, i as int, to as int, acc * 10 + d);
                }
                return Option::None;
            },
            Option::Some(m) => {
                let summed = m.checked_add(d);
                match summed {
                    Option::None => {
                        proof {
                            lemma_num_overflow(s@, from as int, i as int, to as int, acc * 10 + d);
                        }
                        return Option::None;
                    },
                    Option::Some(a) => {
                        acc = a;
                    },
                }
            },
        }
        i = i + 1;
    }
    proof {
        assert(s@.subrange(from as int, i as int) == seg);
    }
    Option::Some(acc)
}

/// A digit prefix already worth more than `u64::MAX` spoils the whole
/// run.
proof fn lemma_num_overflow(s: Seq<char>, from: int, i: int, to: int, prefix_val: int)
    requires
        0 <= from <= i < to <= s.len(),
        all_digits(s.subrange(from, i + 1)),
        dec_val(s.subrange(from, i + 1)) == prefix_val,
        prefix_val > u64::MAX,
    ensures
        !is_num_seg(s.subrange(from, to)),
{
    let seg = s.subrange(from, to);
    if all_digits(seg) {
        assert(seg.take(i + 1 - from) =~= s.subrange(from, i + 1));
        lemma_dec_val_take_mono(seg, i + 1 - from);
    }
}

impl PkgToQuery {
    /// Parses a package specifier; malformed input yields nothing.
    pub fn parse(s: &str) -> (r: Option<PkgToQuery>)
        ensures
            match r {
                Option::Some(q) => parse_query(s@) == Option::Some(q@),
                Option::None => parse_query(s@) is None,
            },
    {
        let len = s.unicode_len();
        let at_opt = find_char(s, 0, len, '@');
        match at_opt {
            Option::None => {
                proof {
                    lemma_first_idx_none(s@, '@');
                }
                if len == 0 {
                    Option::None
                } else {
                    let q = PkgToQuery { name: String::from_str(s), version: Option::None };
                    proof {
                        assert(parse_query(s@) == Option::Some(q@));
                    }
                    Option::Some(q)
                }
            },
            Option::Some(at) => {
                proof {
                    lemma_first_idx_position(s@, '@', at as int);
                }
                if at == 0 {
                    return Option::None;
                }
                let name_str = s.substring_char(0, at);
                match parse_op_at(s, at + 1, len) {
                    Option::None => Option::None,
                    Option::Some((cond, vstart)) => {
                        match parse_version_at(s, vstart, len) {
                            Option::None => {
                                proof {
                                    assert(parse_op(s@.skip(at + 1))->Some_0.1 == s@.skip(
                                        vstart as int,
                                    ));
                                }
                                Option::None
                            },
                            Option::Some((major, minor, patch)) => {
                                let q = PkgToQuery {
                                    name: String::from_str(name_str),
                                    version: Option::Some(
                                        VersionStruct { major, minor, patch, condition: cond },
                                    ),
                                };
                                proof {
                                    assert(q@.name =~= s@.take(at as int));
                                    assert(parse_query(s@) == Option::Some(q@));
                                }
                                Option::Some(q)
                            },
                        }
                    },
                }
            },
        }
    }
}

/// Reads the comparison operator that starts at `pos`, returning it with
/// the position just past it.
fn parse_op_at(s: &str, pos: usize, len: usize) -> (r: Option<(VersionComparison, usize)>)
    requires
        pos <= len,
        len == s@.len(),
    ensures
        ({
            let rest = s@.skip(pos as int);
            match r {
                Option::Some((cond, vstart)) => pos < vstart <= len && parse_op(rest)
                    == Option::Some((cond, s@.skip(vstart as int))),
                Option::None => parse_op(rest) is None,
            }
        }),
{
    let ghost rest = s@.skip(pos as int);
    if pos >= len {
        return Option::None;
    }
    let c1 = s.get_char(pos);
    proof {
        assert(rest[0] == s@[pos as int]);
    }
    if c1 == '>' {
        if pos + 1 < len && s.get_char(pos + 1) == '=' {
            proof {
                assert(rest[1] == s@[pos as int + 1]);
                assert(rest.skip(2) =~= s@.skip(pos as int + 2));
            }
            Option::Some((VersionComparison::GreaterThanOrEqual, pos + 2))
        } else {
            proof {
                if rest.len() >= 2 {
                    assert(rest[1] == s@[pos as int + 1]);
                }
                assert(rest.skip(1) =~= s@.skip(pos as int + 1));
            }
            Option::Some((VersionComparison::GreaterThan, pos + 1))
        }
    } else if c1 == '<' {
        if pos + 1 < len && s.get_char(pos + 1) == '=' {
            proof {
                assert(rest[1] == s@[pos as int + 1]);
                assert(rest.skip(2) =~= s@.skip(pos as int + 2));
            }
            Option::Some((VersionComparison::LessThanOrEqual, pos + 2))
        } else {
            proof {
                if rest.len() >= 2 {
                    assert(rest[1] == s@[pos as int + 1]);
                }
                assert(rest.skip(1) =~= s@.skip(pos as int + 1));
            }
            Option::Some((VersionComparison::LessThan, pos + 1))
        }
    } else if c1 == '=' {
        proof {
            assert(rest.skip(1) =~= s@.skip(pos as int + 1));
        }
        Option::Some((VersionComparison::Equal, pos + 1))
    } else {
        Option::None
    }
}

/// Reads `major.minor.patch` spanning `s[vstart..len]`.
fn parse_version_at(s: &str, vstart: usize, len: usize) -> (r: Option<(u64, u64, u64)>)
    requires
        vstart <= len,
        len == s@.len(),
    ensures
        ({
            let vstr = s@.skip(vstart as int);
            match r {
                Option::Some((a, b, c)) => parse_version_nums(vstr) == Option::Some(
                    (a as nat, b as nat, c as nat),
                ),
                Option::None => parse_version_nums(vstr) is None,
            }
        }),
{
    let ghost vstr = s@.skip(vstart as int);
    let d1_opt = find_char(s, vstart, len, '.');
    match d1_opt {
        Option::None => {
            proof {
                assert forall|j: int| 0 <= j < vstr.len() implies vstr[j] != '.' by {
                    assert(vstr[j] == s@[vstart + j]);
                }
                lemma_first_idx_none(vstr, '.');
            }
            Option::None
        },
        Option::Some(d1) => {
            proof {
                assert forall|j: int| 0 <= j < d1 - vstart implies vstr[j] != '.' by {
                    assert(vstr[j] == s@[vstart + j]);
                }
                assert(vstr[d1 - vstart] == s@[d1 as int]);
                lemma_first_idx_position(vstr, '.', d1 as int - vstart);
            }
            let ghost rest2 = vstr.skip(d1 - vstart + 1);
            proof {
                assert(rest2 =~= s@.skip(d1 as int + 1));
            }
            let d2_opt = find_char(s, d1 + 1, len, '.');
            match d2_opt {
                Option::None => {
                    proof {
                        assert forall|j: int| 0 <= j < rest2.len() implies rest2[j] != '.' by {
                            assert(rest2[j] == s@[d1 + 1 + j]);
                        }
                        lemma_first_idx_none(rest2, '.');
                    }
                    Option::None
                },
                Option::Some(d2) => {
                    proof {
                        assert forall|j: int| 0 <= j < d2 - (d1 + 1) implies rest2[j] != '.' by {
                            assert(rest2[j] == s@[d1 + 1 + j]);
                        }
                        assert(rest2[d2 - (d1 + 1)] == s@[d2 as int]);
                        lemma_first_idx_position(rest2, '.', d2 as int - (d1 as int + 1));
                        assert(vstr.take(d1 - vstart) =~= s@.subrange(vstart as int, d1 as int));
                        assert(rest2.take(d2 - (d1 + 1)) =~= s@.subrange(d1 as int + 1, d2 as int));
                        assert(rest2.skip(d2 - (d1 + 1) + 1) =~= s@.subrange(d2 as int + 1, len as int));
                    }
                    let major_opt = parse_num_range(s, vstart, d1);
                    match major_opt {
                        Option::None => Option::None,
                        Option::Some(major) => {
                            let minor_opt = parse_num_range(s, d1 + 1, d2);
                            match minor_opt {
                                Option::None => Option::None,
                                Option::Some(minor) => {
                                    let patch_opt = parse_num_range(s, d2 + 1, len);
                                    match patch_opt {
                                        Option::None => Option::None,
                                        Option::Some(patch) => Option::Some((major, minor, patch)),
                                    }
                                },
                            }
                        },
                    }
                },
            }
        },
    }
}

} // verus!
