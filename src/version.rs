use vstd::prelude::*;
use crate::commit::Commit;
use crate::commit_type::CommitType;
use crate::text::{chars_of, find_char, find_char_before};

verus! {

/// A release version `major.minor.patch`.
#[derive(Debug, Clone, Copy, PartialEq, Eq, Structural)]
pub struct SemVer {
    pub major: u64,
    pub minor: u64,
    pub patch: u64,
}

/// How the next version is chosen.
#[derive(Debug, PartialEq, Eq)]
pub enum VersionIncrement {
    Major,
    Minor,
    Patch,
    /// An explicit version, as text.
    Manual(String),
    /// The highest bump that the commits call for.
    Auto,
}

/// Why no next version could be chosen.
#[derive(Debug, Clone, Copy, PartialEq, Eq, Structural)]
pub enum VersionError {
    /// The explicit version is not above the current one.
    NotGreaterThanCurrent,
    /// No commit calls for a bump.
    NoApplicableCommits,
    /// The explicit version is not a semantic version.
    InvalidSemVer,
}

/// Whether `a` comes before `b` in version order.
pub open spec fn version_lt(a: SemVer, b: SemVer) -> bool {
    a.major < b.major || (a.major == b.major && (a.minor < b.minor || (a.minor == b.minor
        && a.patch < b.patch)))
}

/// Whether all three components of `v` can still grow by one.
pub open spec fn bumpable(v: SemVer) -> bool {
    v.major < u64::MAX && v.minor < u64::MAX && v.patch < u64::MAX
}

/// The version after a major bump.
pub open spec fn next_major(v: SemVer) -> SemVer {
    SemVer { major: (v.major + 1) as u64, minor: 0, patch: 0 }
}

/// The version after a minor bump.
pub open spec fn next_minor(v: SemVer) -> SemVer {
    SemVer { major: v.major, minor: (v.minor + 1) as u64, patch: 0 }
}

/// The version after a patch bump.
pub open spec fn next_patch(v: SemVer) -> SemVer {
    SemVer { major: v.major, minor: v.minor, patch: (v.patch + 1) as u64 }
}

pub open spec fn is_fix(t: CommitType) -> bool {
    t is BugFix || t is Performance
}

/// The bump that a set of commits calls for, whatever their order: major for
/// any breaking change, else minor for any feature, else patch for any fix or
/// performance change, else none.
pub open spec fn auto_bump(cs: Seq<Commit>) -> Option<VersionIncrement> {
    if exists|i: int| 0 <= i < cs.len() && #[trigger] cs[i].breaking {
        Some(VersionIncrement::Major)
    } else if exists|i: int| 0 <= i < cs.len() && (#[trigger] cs[i]).commit_type is Feature {
        Some(VersionIncrement::Minor)
    } else if exists|i: int| 0 <= i < cs.len() && is_fix((#[trigger] cs[i]).commit_type) {
        Some(VersionIncrement::Patch)
    } else {
        None
    }
}

pub open spec fn is_digit(c: char) -> bool {
    '0' <= c <= '9'
}

/// A numeric component: digits without a leading zero.
pub open spec fn numeric(d: Seq<char>) -> bool {
    &&& d.len() > 0
    &&& forall|k: int| 0 <= k < d.len() ==> is_digit(#[trigger] d[k])
    &&& (d.len() == 1 || d[0] != '0')
}

/// The number that a run of digits spells.
pub open spec fn digits_value(d: Seq<char>) -> nat
    decreases d.len(),
{
    if d.len() == 0 {
        0
    } else {
        digits_value(d.drop_last()) * 10 + ((d.last() as u32) - ('0' as u32)) as nat
    }
}

pub open spec fn ident_char(c: char) -> bool {
    is_digit(c) || ('a' <= c <= 'z') || ('A' <= c <= 'Z') || c == '-' || c == '.'
}

/// A pre-release or build label: a non-empty run of `[0-9A-Za-z.-]`.
pub open spec fn label(d: Seq<char>) -> bool {
    d.len() > 0 && forall|k: int| 0 <= k < d.len() ==> ident_char(#[trigger] d[k])
}

/// The first index at or after `i` of `-` or `+`: where the suffix starts.
pub open spec fn suffix_from(s: Seq<char>, i: int) -> int
    decreases s.len() - i,
{
    if i < 0 || i >= s.len() {
        s.len() as int
    } else if s[i] == '-' || s[i] == '+' {
        i
    } else {
        suffix_from(s, i + 1)
    }
}

/// The suffix `s[e..]` is empty, `+build`, `-pre` or `-pre+build`.
pub open spec fn suffix_ok(s: Seq<char>, e: int) -> bool {
    e == s.len() || (s[e] == '+' && label(s.subrange(e + 1, s.len() as int))) || (s[e] == '-'
        && match find_char(s, '+', e) {
        Some(p) => label(s.subrange(e + 1, p)) && label(s.subrange(p + 1, s.len() as int)),
        None => label(s.subrange(e + 1, s.len() as int)),
    })
}

/// The three numeric fields of a semantic version text, if it is one; any
/// pre-release or build suffix is dropped.
pub open spec fn version_parts(s: Seq<char>) -> Option<(Seq<char>, Seq<char>, Seq<char>)> {
    let e = suffix_from(s, 0);
    let core = s.subrange(0, e);
    match find_char(core, '.', 0) {
        Some(a) => match find_char(core, '.', a + 1) {
            Some(b) => {
                let x = core.subrange(0, a);
                let y = core.subrange(a + 1, b);
                let z = core.subrange(b + 1, core.len() as int);
                if numeric(x) && numeric(y) && numeric(z) && suffix_ok(s, e) {
                    Some((x, y, z))
                } else {
                    None
                }
            },
            None => None,
        },
        None => None,
    }
}

/// The version a text spells, when it is a semantic version whose fields fit
/// in 64 bits.
pub open spec fn version_of(s: Seq<char>) -> Option<SemVer> {
    match version_parts(s) {
        Some((x, y, z)) => if digits_value(x) <= u64::MAX && digits_value(y) <= u64::MAX
            && digits_value(z) <= u64::MAX {
            Some(
                SemVer {
                    major: digits_value(x) as u64,
                    minor: digits_value(y) as u64,
                    patch: digits_value(z) as u64,
                },
            )
        } else {
            None
        },
        None => None,
    }
}

/// Larger runs of digits spell no smaller numbers than their prefixes.
proof fn lemma_prefix_value_le(d: Seq<char>, j: int)
    requires
        0 <= j <= d.len(),
        forall|k: int| 0 <= k < d.len() ==> is_digit(#[trigger] d[k]),
    ensures
        digits_value(d.subrange(0, j)) <= digits_value(d),
    decreases d.len(),
{
    if j < d.len() {
        let p = d.drop_last();
        assert forall|k: int| 0 <= k < p.len() implies is_digit(#[trigger] p[k]) by {
            assert(p[k] == d[k]);
        }
        lemma_prefix_value_le(p, j);
        assert(p.subrange(0, j) =~= d.subrange(0, j));
    } else {
        assert(d.subrange(0, j) =~= d);
    }
}

/// The number that `m[a..b]` spells, when it is a numeric field that fits in 64 bits.
fn parse_number(m: &Vec<char>, a: usize, b: usize) -> (r: Option<u64>)
    requires
        a <= b <= m.len(),
    ensures
        r is Some <==> numeric(m@.subrange(a as int, b as int)) && digits_value(
            m@.subrange(a as int, b as int),
        ) <= u64::MAX,
        r matches Some(v) ==> v == digits_value(m@.subrange(a as int, b as int)),
{
    let ghost d = m@.subrange(a as int, b as int);
    if a == b {
        return None;
    }
    if b - a > 1 && m[a] == '0' {
        assert(d[0] == '0');
        return None;
    }
    let mut acc: u64 = 0;
    let mut i = a;
    assert(m@.subrange(a as int, a as int) =~= Seq::<char>::empty());
    while i < b
        invariant
            a <= i <= b <= m.len(),
            d == m@.subrange(a as int, b as int),
            forall|k: int| a <= k < i ==> is_digit(#[trigger] m@[k]),
            acc == digits_value(m@.subrange(a as int, i as int)),
        decreases b - i,
    {
        let c = m[i];
        if !('0' <= c && c <= '9') {
            assert(d[i - a] == c);
            return None;
        }
        let digit = (c as u32 - '0' as u32) as u64;
        assert(m@.subrange(a as int, i + 1).drop_last() =~= m@.subrange(a as int, i as int));
        if acc > (u64::MAX - digit) / 10 {
            assert(acc * 10 + digit > u64::MAX) by (nonlinear_arith)
                requires
                    acc > (u64::MAX - digit) / 10,
                    digit <= 9,
            ;
            proof {
                if numeric(d) {
                    lemma_prefix_value_le(d, i + 1 - a);
                    assert(d.subrange(0, i + 1 - a) =~= m@.subrange(a as int, i + 1));
                }
            }
            return None;
        }
        assert(acc * 10 + digit <= u64::MAX) by (nonlinear_arith)
            requires
                acc <= (u64::MAX - digit) / 10,
                digit <= 9,
        ;
        acc = acc * 10 + digit;
        i = i + 1;
    }
    assert(m@.subrange(a as int, b as int) =~= d);
    assert forall|k: int| 0 <= k < d.len() implies is_digit(#[trigger] d[k]) by {
        assert(d[k] == m@[a + k]);
    }
    Some(acc)
}

/// Whether `m[a..b]` is a pre-release or build label.
fn label_in(m: &Vec<char>, a: usize, b: usize) -> (r: bool)
    requires
        a <= b <= m.len(),
    ensures
        r == label(m@.subrange(a as int, b as int)),
{
    if a == b {
        return false;
    }
    let mut i = a;
    while i < b
        invariant
            a <= i <= b <= m.len(),
            forall|k: int| a <= k < i ==> ident_char(#[trigger] m@[k]),
        decreases b - i,
    {
        let c = m[i];
        if !(('0' <= c && c <= '9') || ('a' <= c && c <= 'z') || ('A' <= c && c <= 'Z') || c
            == '-' || c == '.') {
            assert(m@.subrange(a as int, b as int)[i - a] == c);
            return false;
        }
        i = i + 1;
    }
    assert forall|k: int| 0 <= k < b - a implies ident_char(
        #[trigger] m@.subrange(a as int, b as int)[k],
    ) by {
        assert(m@.subrange(a as int, b as int)[k] == m@[a + k]);
    }
    true
}

/// Whether `m[e..]` is an empty, `+build`, `-pre` or `-pre+build` suffix.
fn suffix_ok_exec(m: &Vec<char>, e: usize) -> (r: bool)
    requires
        e <= m.len(),
    ensures
        r == suffix_ok(m@, e as int),
{
    let n = m.len();
    if e == n {
        true
    } else if m[e] == '+' {
        label_in(m, e + 1, n)
    } else if m[e] == '-' {
        assert(m@.subrange(0, n as int) =~= m@);
        assert(find_char(m@, '+', e as int) == find_char(m@, '+', e + 1));
        match find_char_before(m, '+', e + 1, n) {
            Some(p) => label_in(m, e + 1, p) && label_in(m, p + 1, n),
            None => label_in(m, e + 1, n),
        }
    } else {
        false
    }
}

/// Reads a semantic version `major.minor.patch`, with an optional
/// `-pre-release` and `+build` suffix, which is dropped.
pub fn parse_version(s: &str) -> (r: Result<SemVer, VersionError>)
    ensures
        r == match version_of(s@) {
            Some(v) => Ok::<SemVer, VersionError>(v),
            None => Err(VersionError::InvalidSemVer),
        },
{
    let m = chars_of(s);
    let n = m.len();
    let mut e: usize = 0;
    while e < n && m[e] != '-' && m[e] != '+'
        invariant
            e <= n == m@.len(),
            suffix_from(m@, 0) == suffix_from(m@, e as int),
        decreases n - e,
    {
        e = e + 1;
    }
    let ghost core = m@.subrange(0, e as int);
    let a = match find_char_before(&m, '.', 0, e) {
        Some(a) => a,
        None => {
            return Err(VersionError::InvalidSemVer);
        },
    };
    let b = match find_char_before(&m, '.', a + 1, e) {
        Some(b) => b,
        None => {
            return Err(VersionError::InvalidSemVer);
        },
    };
    assert(core.subrange(0, a as int) =~= m@.subrange(0, a as int));
    assert(core.subrange(a + 1, b as int) =~= m@.subrange(a + 1, b as int));
    assert(core.subrange(b + 1, core.len() as int) =~= m@.subrange(b + 1, e as int));
    let x = parse_number(&m, 0, a);
    let y = parse_number(&m, a + 1, b);
    let z = parse_number(&m, b + 1, e);
    let ok = suffix_ok_exec(&m, e);
    match (x, y, z) {
        (Some(x), Some(y), Some(z)) => {
            if ok {
                Ok(SemVer { major: x, minor: y, patch: z })
            } else {
                Err(VersionError::InvalidSemVer)
            }
        },
        _ => Err(VersionError::InvalidSemVer),
    }
}

/// What resolving a request against a base version and commits gives.
pub open spec fn resolve_spec(base: SemVer, request: VersionIncrement, cs: Seq<Commit>) -> Result<
    SemVer,
    VersionError,
> {
    match request {
        VersionIncrement::Major => Ok(next_major(base)),
        VersionIncrement::Minor => Ok(next_minor(base)),
        VersionIncrement::Patch => Ok(next_patch(base)),
        VersionIncrement::Manual(text) => match version_of(text@) {
            Some(v) => if version_lt(base, v) {
                Ok(v)
            } else {
                Err(VersionError::NotGreaterThanCurrent)
            },
            None => Err(VersionError::InvalidSemVer),
        },
        VersionIncrement::Auto => match auto_bump(cs) {
            Some(VersionIncrement::Major) => Ok(next_major(base)),
            Some(VersionIncrement::Minor) => Ok(next_minor(base)),
            Some(_) => Ok(next_patch(base)),
            None => Err(VersionError::NoApplicableCommits),
        },
    }
}

impl SemVer {
    /// The next major version: major + 1, minor and patch reset to zero.
    pub fn bump_major(&self) -> (r: SemVer)
        requires
            self.major < u64::MAX,
        ensures
            r == next_major(*self),
    {
        SemVer { major: self.major + 1, minor: 0, patch: 0 }
    }

    /// The next minor version: minor + 1, patch reset to zero.
    pub fn bump_minor(&self) -> (r: SemVer)
        requires
            self.minor < u64::MAX,
        ensures
            r == next_minor(*self),
    {
        SemVer { major: self.major, minor: self.minor + 1, patch: 0 }
    }

    /// The next patch version: patch + 1.
    pub fn bump_patch(&self) -> (r: SemVer)
        requires
            self.patch < u64::MAX,
        ensures
            r == next_patch(*self),
    {
        SemVer { major: self.major, minor: self.minor, patch: self.patch + 1 }
    }

    /// Whether this version comes before `other`.
    pub fn is_before(&self, other: &SemVer) -> (r: bool)
        ensures
            r == version_lt(*self, *other),
    {
        self.major < other.major || (self.major == other.major && (self.minor < other.minor || (
        self.minor == other.minor && self.patch < other.patch)))
    }
}

/// The highest bump that the commits call for, whatever their order.
pub fn auto_increment(commits: &Vec<Commit>) -> (r: Option<VersionIncrement>)
    ensures
        r == auto_bump(commits@),
{
    let mut breaking = false;
    let mut feature = false;
    let mut fix = false;
    let mut i: usize = 0;
    while i < commits.len()
        invariant
            i <= commits.len(),
            breaking == exists|k: int| 0 <= k < i && #[trigger] commits@[k].breaking,
            feature == exists|k: int| 0 <= k < i && (#[trigger] commits@[k]).commit_type is Feature,
            fix == exists|k: int| 0 <= k < i && is_fix((#[trigger] commits@[k]).commit_type),
        decreases commits.len() - i,
    {
        let c = &commits[i];
        if c.breaking {
            breaking = true;
        }
        match c.commit_type {
            CommitType::Feature => {
                feature = true;
            },
            CommitType::BugFix | CommitType::Performance => {
                fix = true;
            },
            _ => {},
        }
        i = i + 1;
    }
    if breaking {
        Some(VersionIncrement::Major)
    } else if feature {
        Some(VersionIncrement::Minor)
    } else if fix {
        Some(VersionIncrement::Patch)
    } else {
        None
    }
}

/// The next version: a bump of `base`, an explicit version above it, or the
/// highest bump that the commits call for.
pub fn resolve(base: SemVer, request: &VersionIncrement, commits: &Vec<Commit>) -> (r: Result<
    SemVer,
    VersionError,
>)
    requires
        !(request is Manual) ==> bumpable(base),
    ensures
        r == resolve_spec(base, *request, commits@),
{
    match request {
        VersionIncrement::Major => Ok(base.bump_major()),
        VersionIncrement::Minor => Ok(base.bump_minor()),
        VersionIncrement::Patch => Ok(base.bump_patch()),
        VersionIncrement::Manual(text) => match parse_version(text.as_str()) {
            Ok(v) => {
                if base.is_before(&v) {
                    Ok(v)
                } else {
                    Err(VersionError::NotGreaterThanCurrent)
                }
            },
            Err(e) => Err(e),
        },
        VersionIncrement::Auto => match auto_increment(commits) {
            Some(VersionIncrement::Major) => Ok(base.bump_major()),
            Some(VersionIncrement::Minor) => Ok(base.bump_minor()),
            Some(_) => Ok(base.bump_patch()),
            None => Err(VersionError::NoApplicableCommits),
        },
    }
}

/// A major, minor or patch bump gives a greater version in which exactly that
/// component grew by one and the components below it are zero.
pub proof fn lemma_bump_increases(v: SemVer)
    requires
        bumpable(v),
    ensures
        version_lt(v, next_major(v)),
        version_lt(v, next_minor(v)),
        version_lt(v, next_patch(v)),
        next_major(v).major == v.major + 1 && next_major(v).minor == 0 && next_major(v).patch == 0,
        next_minor(v).major == v.major && next_minor(v).minor == v.minor + 1 && next_minor(v).patch
            == 0,
        next_patch(v).major == v.major && next_patch(v).minor == v.minor && next_patch(v).patch
            == v.patch + 1,
        resolve_spec(v, VersionIncrement::Major, Seq::empty()) == Ok::<SemVer, VersionError>(
            next_major(v),
        ),
        resolve_spec(v, VersionIncrement::Minor, Seq::empty()) == Ok::<SemVer, VersionError>(
            next_minor(v),
        ),
        resolve_spec(v, VersionIncrement::Patch, Seq::empty()) == Ok::<SemVer, VersionError>(
            next_patch(v),
        ),
{
}

/// A breaking commit makes `Auto` a major bump, whatever else the commits hold.
pub proof fn lemma_breaking_dominates(base: SemVer, cs: Seq<Commit>, i: int)
    requires
        0 <= i < cs.len(),
        cs[i].breaking,
    ensures
        auto_bump(cs) == Some(VersionIncrement::Major),
        resolve_spec(base, VersionIncrement::Auto, cs) == Ok::<SemVer, VersionError>(
            next_major(base),
        ),
{
}

/// Commits that are all non-breaking chores or documentation call for no bump:
/// `Auto` then fails with `NoApplicableCommits`.
pub proof fn lemma_chores_call_for_nothing(base: SemVer, cs: Seq<Commit>)
    requires
        forall|i: int|
            0 <= i < cs.len() ==> !(#[trigger] cs[i]).breaking && (cs[i].commit_type is Chore
                || cs[i].commit_type is Documentation),
    ensures
        auto_bump(cs) is None,
        resolve_spec(base, VersionIncrement::Auto, cs) == Err::<SemVer, VersionError>(
            VersionError::NoApplicableCommits,
        ),
{
}

} // verus!
