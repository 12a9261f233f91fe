use vstd::prelude::*;
use crate::commit::{opt_view, Commit};
use crate::commit_type::{same_type, CommitType};

verus! {

/// One predicate over commits.
#[derive(Debug, PartialEq, Eq)]
pub enum CommitFilter {
    Type(CommitType),
    Scope(String),
    Author(String),
    BreakingChange,
    /// Not a predicate: asks the caller to leave parse errors out of its report.
    NoError,
}

/// A set of filters: those of one kind are joined by "or", the kinds by "and".
#[derive(Debug, PartialEq, Eq)]
pub struct CommitFilters(pub Vec<CommitFilter>);

/// The kind of a filter: type, scope, author, breaking change, or the directive.
pub open spec fn kind_of(f: CommitFilter) -> int {
    match f {
        CommitFilter::Type(_) => 0,
        CommitFilter::Scope(_) => 1,
        CommitFilter::Author(_) => 2,
        CommitFilter::BreakingChange => 3,
        CommitFilter::NoError => 4,
    }
}

/// Whether one filter accepts a commit.
pub open spec fn hits(f: CommitFilter, c: Commit) -> bool {
    match f {
        CommitFilter::Type(t) => same_type(t, c.commit_type),
        CommitFilter::Scope(s) => opt_view(c.scope) == Some(s@),
        CommitFilter::Author(a) => c.author@ == a@,
        CommitFilter::BreakingChange => c.breaking,
        CommitFilter::NoError => true,
    }
}

/// Whether the set holds a filter of kind `k`.
pub open spec fn has_kind(fs: Seq<CommitFilter>, k: int) -> bool {
    exists|i: int| 0 <= i < fs.len() && kind_of(#[trigger] fs[i]) == k
}

/// Whether some filter of kind `k` accepts the commit.
pub open spec fn kind_hits(fs: Seq<CommitFilter>, k: int, c: Commit) -> bool {
    exists|i: int| 0 <= i < fs.len() && kind_of(#[trigger] fs[i]) == k && hits(fs[i], c)
}

/// Whether a filter set accepts a commit: for each predicate kind present,
/// one of its filters accepts it.
pub open spec fn matches_spec(fs: Seq<CommitFilter>, c: Commit) -> bool {
    forall|k: int| 0 <= k < 4 ==> (#[trigger] has_kind(fs, k) ==> kind_hits(fs, k, c))
}

/// The indices, in order, of the first `n` commits that the set accepts.
pub open spec fn selected(fs: Seq<CommitFilter>, cs: Seq<Commit>, n: int) -> Seq<usize>
    decreases n,
{
    if n <= 0 {
        Seq::empty()
    } else if matches_spec(fs, cs[n - 1]) {
        selected(fs, cs, n - 1).push((n - 1) as usize)
    } else {
        selected(fs, cs, n - 1)
    }
}

impl CommitFilter {
    /// Whether this filter accepts the commit.
    pub fn accepts(&self, commit: &Commit) -> (r: bool)
        ensures
            r == hits(*self, *commit),
    {
        match self {
            CommitFilter::Type(t) => t.same_as(&commit.commit_type),
            CommitFilter::Scope(s) => match &commit.scope {
                Some(cs) => *cs == *s,
                None => false,
            },
            CommitFilter::Author(a) => commit.author == *a,
            CommitFilter::BreakingChange => commit.breaking,
            CommitFilter::NoError => true,
        }
    }

    /// The kind of this filter.
    pub fn kind(&self) -> (r: u8)
        ensures
            r == kind_of(*self),
    {
        match self {
            CommitFilter::Type(_) => 0,
            CommitFilter::Scope(_) => 1,
            CommitFilter::Author(_) => 2,
            CommitFilter::BreakingChange => 3,
            CommitFilter::NoError => 4,
        }
    }
}

impl CommitFilters {
    /// Whether the set accepts the commit. The empty set accepts every commit.
    pub fn matches(&self, commit: &Commit) -> (r: bool)
        ensures
            r == matches_spec(self.0@, *commit),
    {
        let fs = &self.0;
        let mut present: [bool; 4] = [false, false, false, false];
        let mut accepted: [bool; 4] = [false, false, false, false];
        let mut i: usize = 0;
        while i < fs.len()
            invariant
                i <= fs.len(),
                forall|k: int|
                    0 <= k < 4 ==> present@[k] == exists|j: int|
                        0 <= j < i && kind_of(#[trigger] fs@[j]) == k,
                forall|k: int|
                    0 <= k < 4 ==> accepted@[k] == exists|j: int|
                        0 <= j < i && kind_of(#[trigger] fs@[j]) == k && hits(fs@[j], *commit),
            decreases fs.len() - i,
        {
            let f = &fs[i];
            let k = f.kind();
            if k < 4 {
                present[k as usize] = true;
                if f.accepts(commit) {
                    accepted[k as usize] = true;
                }
            }
            i = i + 1;
        }
        let r = (!present[0] || accepted[0]) && (!present[1] || accepted[1]) && (!present[2] || accepted[2]) && (!present[3]
            || accepted[3]);
        assert(r == matches_spec(fs@, *commit)) by {
            assert(has_kind(fs@, 0) == present@[0]);
            assert(has_kind(fs@, 1) == present@[1]);
            assert(has_kind(fs@, 2) == present@[2]);
            assert(has_kind(fs@, 3) == present@[3]);
            assert(kind_hits(fs@, 0, *commit) == accepted@[0]);
            assert(kind_hits(fs@, 1, *commit) == accepted@[1]);
            assert(kind_hits(fs@, 2, *commit) == accepted@[2]);
            assert(kind_hits(fs@, 3, *commit) == accepted@[3]);
        }
        r
    }

    /// The indices, in order, of the commits that the set accepts.
    pub fn select(&self, commits: &Vec<Commit>) -> (r: Vec<usize>)
        ensures
            r@ == selected(self.0@, commits@, commits@.len() as int),
    {
        let mut r: Vec<usize> = Vec::new();
        let mut i: usize = 0;
        while i < commits.len()
            invariant
                i <= commits.len(),
                r@ == selected(self.0@, commits@, i as int),
            decreases commits.len() - i,
        {
            if self.matches(&commits[i]) {
                r.push(i);
            }
            i = i + 1;
        }
        r
    }

    /// Whether the set asks the caller to leave parse errors out of its report.
    pub fn suppresses_errors(&self) -> (r: bool)
        ensures
            r == has_kind(self.0@, 4),
    {
        let mut i: usize = 0;
        while i < self.0.len()
            invariant
                i <= self.0.len(),
                forall|j: int| 0 <= j < i ==> kind_of(#[trigger] self.0@[j]) != 4,
            decreases self.0.len() - i,
        {
            if self.0[i].kind() == 4 {
                return true;
            }
            i = i + 1;
        }
        false
    }
}

/// Filters of the type kind alone accept the union of their types: a commit
/// passes when its type is any one of theirs.
pub proof fn lemma_type_filters_union(fs: Seq<CommitFilter>, c: Commit)
    requires
        fs.len() > 0,
        forall|i: int| 0 <= i < fs.len() ==> (#[trigger] fs[i]) is Type,
    ensures
        matches_spec(fs, c) <==> exists|i: int|
            0 <= i < fs.len() && same_type(#[trigger] fs[i]->Type_0, c.commit_type),
{
    assert(has_kind(fs, 0)) by {
        assert(kind_of(fs[0]) == 0);
    }
    assert forall|k: int| 1 <= k < 4 implies !#[trigger] has_kind(fs, k) by {
        if has_kind(fs, k) {
            let i = choose|i: int| 0 <= i < fs.len() && kind_of(#[trigger] fs[i]) == k;
            assert(fs[i] is Type);
        }
    }
    if matches_spec(fs, c) {
        assert(has_kind(fs, 0));
        let i = choose|i: int| 0 <= i < fs.len() && kind_of(#[trigger] fs[i]) == 0 && hits(fs[i], c);
        assert(same_type(fs[i]->Type_0, c.commit_type));
    }
    if exists|i: int| 0 <= i < fs.len() && same_type(#[trigger] fs[i]->Type_0, c.commit_type) {
        let i = choose|i: int| 0 <= i < fs.len() && same_type(#[trigger] fs[i]->Type_0, c.commit_type);
        assert(kind_of(fs[i]) == 0 && hits(fs[i], c));
        assert(kind_hits(fs, 0, c));
    }
}

/// A set with no predicate filter accepts every commit.
pub proof fn lemma_no_predicate_accepts_all(fs: Seq<CommitFilter>, c: Commit)
    requires
        forall|i: int| 0 <= i < fs.len() ==> (#[trigger] fs[i]) is NoError,
    ensures
        matches_spec(fs, c),
{
    assert forall|k: int| 0 <= k < 4 implies !#[trigger] has_kind(fs, k) by {
        if has_kind(fs, k) {
            let i = choose|i: int| 0 <= i < fs.len() && kind_of(#[trigger] fs[i]) == k;
            assert(fs[i] is NoError);
        }
    }
}

} // verus!
