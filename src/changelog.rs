use vstd::prelude::*;
use crate::commit::Commit;
use crate::commit_type::{rank_spec, same_type, CommitType};
use crate::text::{chars_of, seq_le, seq_le_exec};

verus! {

/// One changelog section: a kind, and the indices of its commits in the
/// rendered sequence, in display order.
#[derive(Debug, PartialEq, Eq)]
pub struct Section {
    pub commit_type: CommitType,
    pub commits: Vec<usize>,
}

/// Whether scope `a` sorts strictly after scope `b`: no scope comes first,
/// then scopes in lexicographic order.
pub open spec fn scope_after(a: Option<String>, b: Option<String>) -> bool {
    match (a, b) {
        (None, _) => false,
        (Some(_), None) => true,
        (Some(x), Some(y)) => !seq_le(x@, y@),
    }
}

/// `s` with index `i` inserted before the first entry whose scope sorts after its own.
pub open spec fn insert_sorted(cs: Seq<Commit>, s: Seq<usize>, i: usize) -> Seq<usize>
    decreases s.len(),
{
    if s.len() == 0 {
        seq![i]
    } else if scope_after(cs[s[0] as int].scope, cs[i as int].scope) {
        seq![i] + s
    } else {
        seq![s[0]] + insert_sorted(cs, s.drop_first(), i)
    }
}

/// The indices of the first `n` commits of kind `t`, sorted by scope, ties
/// kept in discovery order.
pub open spec fn group_of(cs: Seq<Commit>, t: CommitType, n: int) -> Seq<usize>
    decreases n,
{
    if n <= 0 {
        Seq::empty()
    } else if same_type(cs[n - 1].commit_type, t) {
        insert_sorted(cs, group_of(cs, t, n - 1), (n - 1) as usize)
    } else {
        group_of(cs, t, n - 1)
    }
}

/// The closed kind at place `r` of the section order.
pub open spec fn type_of_rank(r: int) -> CommitType {
    if r == 0 {
        CommitType::Feature
    } else if r == 1 {
        CommitType::BugFix
    } else if r == 2 {
        CommitType::Performance
    } else if r == 3 {
        CommitType::Revert
    } else if r == 4 {
        CommitType::Documentation
    } else if r == 5 {
        CommitType::Style
    } else if r == 6 {
        CommitType::Refactoring
    } else if r == 7 {
        CommitType::Test
    } else if r == 8 {
        CommitType::Build
    } else if r == 9 {
        CommitType::Ci
    } else {
        CommitType::Chore
    }
}

/// Whether some commit has the kind at place `r` of the section order.
pub open spec fn has_rank(cs: Seq<Commit>, r: int) -> bool {
    exists|i: int| 0 <= i < cs.len() && rank_spec((#[trigger] cs[i]).commit_type) == r
}

/// The closed kinds before place `r` that some commit has, in section order.
pub open spec fn closed_upto(cs: Seq<Commit>, r: int) -> Seq<CommitType>
    decreases r,
{
    if r <= 0 {
        Seq::empty()
    } else if has_rank(cs, r - 1) {
        closed_upto(cs, r - 1).push(type_of_rank(r - 1))
    } else {
        closed_upto(cs, r - 1)
    }
}

/// Whether kind `t` is among `s`.
pub open spec fn seen(s: Seq<CommitType>, t: CommitType) -> bool {
    exists|j: int| 0 <= j < s.len() && same_type(#[trigger] s[j], t)
}

/// The custom kinds of the first `n` commits, in first-seen order.
pub open spec fn custom_seen(cs: Seq<Commit>, n: int) -> Seq<CommitType>
    decreases n,
{
    if n <= 0 {
        Seq::empty()
    } else {
        let s = custom_seen(cs, n - 1);
        let t = cs[n - 1].commit_type;
        if t is Custom && !seen(s, t) {
            s.push(t)
        } else {
            s
        }
    }
}

/// The kinds of the sections, in order: the closed kinds present in fixed
/// priority, then the custom kinds in first-seen order.
pub open spec fn section_types(cs: Seq<Commit>) -> Seq<CommitType> {
    closed_upto(cs, 11) + custom_seen(cs, cs.len() as int)
}

/// What rendering a commit sequence gives: one section per kind present, in
/// section order, each with its commits sorted by scope.
pub open spec fn rendered(cs: Seq<Commit>, r: Seq<Section>) -> bool {
    let ts = section_types(cs);
    &&& r.len() == ts.len()
    &&& forall|k: int|
        0 <= k < r.len() ==> (#[trigger] r[k]).commit_type == ts[k] && r[k].commits@ == group_of(
            cs,
            ts[k],
            cs.len() as int,
        )
}

proof fn lemma_insert_sorted(cs: Seq<Commit>, s: Seq<usize>, i: usize, p: int)
    requires
        0 <= p <= s.len(),
        forall|k: int| 0 <= k < p ==> !scope_after(cs[(#[trigger] s[k]) as int].scope, cs[i as int].scope),
        p < s.len() ==> scope_after(cs[s[p] as int].scope, cs[i as int].scope),
    ensures
        insert_sorted(cs, s, i) == s.insert(p, i),
    decreases s.len(),
{
    if p == 0 {
        assert(insert_sorted(cs, s, i) =~= s.insert(p, i));
    } else {
        let t = s.drop_first();
        assert forall|k: int| 0 <= k < p - 1 implies !scope_after(
            cs[(#[trigger] t[k]) as int].scope,
            cs[i as int].scope,
        ) by {
            assert(t[k] == s[k + 1]);
        }
        lemma_insert_sorted(cs, t, i, p - 1);
        assert(insert_sorted(cs, s, i) =~= s.insert(p, i));
    }
}

/// Whether scope `a` sorts strictly after scope `b`.
fn scope_after_exec(a: &Option<String>, b: &Option<String>) -> (r: bool)
    ensures
        r == scope_after(*a, *b),
{
    match (a, b) {
        (None, _) => false,
        (Some(_), None) => true,
        (Some(x), Some(y)) => !seq_le_exec(&chars_of(x.as_str()), &chars_of(y.as_str())),
    }
}

/// The indices of the commits of kind `t`, sorted by scope, ties in discovery order.
fn group(commits: &Vec<Commit>, t: &CommitType) -> (r: Vec<usize>)
    ensures
        r@ == group_of(commits@, *t, commits@.len() as int),
        r@.len() > 0 <==> exists|i: int|
            0 <= i < commits@.len() && same_type((#[trigger] commits@[i]).commit_type, *t),
{
    let mut g: Vec<usize> = Vec::new();
    let mut i: usize = 0;
    while i < commits.len()
        invariant
            i <= commits.len(),
            g@ == group_of(commits@, *t, i as int),
            forall|k: int| 0 <= k < g@.len() ==> (#[trigger] g@[k]) < i,
            g@.len() > 0 <==> exists|j: int|
                0 <= j < i && same_type((#[trigger] commits@[j]).commit_type, *t),
        decreases commits.len() - i,
    {
        if commits[i].commit_type.same_as(t) {
            let mut p: usize = 0;
            while p < g.len() && !scope_after_exec(&commits[g[p]].scope, &commits[i].scope)
                invariant
                    i < commits.len(),
                    p <= g@.len(),
                    forall|k: int| 0 <= k < g@.len() ==> (#[trigger] g@[k]) < i,
                    forall|k: int|
                        0 <= k < p ==> !scope_after(
                            commits@[(#[trigger] g@[k]) as int].scope,
                            commits@[i as int].scope,
                        ),
                decreases g@.len() - p,
            {
                p = p + 1;
            }
            proof {
                lemma_insert_sorted(commits@, g@, i, p as int);
            }
            let ghost before = g@;
            g.insert(p, i);
            assert forall|k: int| 0 <= k < g@.len() implies (#[trigger] g@[k]) < i + 1 by {
                if k < p {
                    assert(g@[k] == before[k]);
                } else if k > p {
                    assert(g@[k] == before[k - 1]);
                }
            }
        }
        i = i + 1;
    }
    g
}

/// The closed kind at place `r` of the section order.
fn type_for_rank(r: u8) -> (t: CommitType)
    requires
        r < 11,
    ensures
        t == type_of_rank(r as int),
        forall|u: CommitType| same_type(u, t) <==> rank_spec(u) == r,
{
    if r == 0 {
        CommitType::Feature
    } else if r == 1 {
        CommitType::BugFix
    } else if r == 2 {
        CommitType::Performance
    } else if r == 3 {
        CommitType::Revert
    } else if r == 4 {
        CommitType::Documentation
    } else if r == 5 {
        CommitType::Style
    } else if r == 6 {
        CommitType::Refactoring
    } else if r == 7 {
        CommitType::Test
    } else if r == 8 {
        CommitType::Build
    } else if r == 9 {
        CommitType::Ci
    } else {
        CommitType::Chore
    }
}

/// Groups commits into changelog sections: the closed kinds present in the
/// order Feature, BugFix, Performance, Revert, Documentation, Style,
/// Refactoring, Test, Build, Ci, Chore, then the custom kinds in first-seen
/// order. Each section lists the indices of its commits by scope (no scope
/// first), ties in discovery order.
pub fn render(commits: &Vec<Commit>) -> (r: Vec<Section>)
    ensures
        rendered(commits@, r@),
{
    let ghost cs = commits@;
    let n = commits.len();
    let mut out: Vec<Section> = Vec::new();
    let mut rank: u8 = 0;
    while rank < 11
        invariant
            cs == commits@,
            n == cs.len(),
            rank <= 11,
            out@.len() == closed_upto(cs, rank as int).len(),
            forall|k: int|
                0 <= k < out@.len() ==> (#[trigger] out@[k]).commit_type == closed_upto(
                    cs,
                    rank as int,
                )[k] && out@[k].commits@ == group_of(cs, closed_upto(cs, rank as int)[k], n as int),
        decreases 11 - rank,
    {
        let t = type_for_rank(rank);
        let g = group(commits, &t);
        assert(g@.len() > 0 <==> has_rank(cs, rank as int)) by {
            if g@.len() > 0 {
                let i = choose|i: int| 0 <= i < cs.len() && same_type((#[trigger] cs[i]).commit_type, t);
                assert(rank_spec(cs[i].commit_type) == rank);
            }
            if has_rank(cs, rank as int) {
                let i = choose|i: int| 0 <= i < cs.len() && rank_spec((#[trigger] cs[i]).commit_type) == rank;
                assert(same_type(cs[i].commit_type, t));
            }
        }
        if g.len() > 0 {
            out.push(Section { commit_type: t, commits: g });
        }
        rank = rank + 1;
    }
    let ghost closed = closed_upto(cs, 11);
    let mut customs: Vec<CommitType> = Vec::new();
    let mut i: usize = 0;
    while i < n
        invariant
            cs == commits@,
            n == cs.len(),
            i <= n,
            customs@ == custom_seen(cs, i as int),
        decreases n - i,
    {
        let t = &commits[i].commit_type;
        if let CommitType::Custom(_, _) = t {
            let mut j: usize = 0;
            while j < customs.len() && !customs[j].same_as(t)
                invariant
                    j <= customs@.len(),
                    forall|k: int| 0 <= k < j ==> !same_type(#[trigger] customs@[k], *t),
                decreases customs@.len() - j,
            {
                j = j + 1;
            }
            if j == customs.len() {
                customs.push(t.duplicate());
            }
        }
        i = i + 1;
    }
    let mut j: usize = 0;
    while j < customs.len()
        invariant
            cs == commits@,
            n == cs.len(),
            customs@ == custom_seen(cs, n as int),
            j <= customs@.len(),
            out@.len() == closed.len() + j,
            forall|k: int|
                0 <= k < out@.len() ==> (#[trigger] out@[k]).commit_type == (closed + customs@)[k]
                    && out@[k].commits@ == group_of(cs, (closed + customs@)[k], n as int),
        decreases customs@.len() - j,
    {
        let t = customs[j].duplicate();
        let g = group(commits, &t);
        out.push(Section { commit_type: t, commits: g });
        j = j + 1;
    }
    out
}

/// The closed sections come in the same order for any two commit sequences
/// with the same closed kinds, whatever order the commits were found in.
pub proof fn lemma_closed_order_stable(a: Seq<Commit>, b: Seq<Commit>, r: int)
    requires
        forall|q: int| 0 <= q < 11 ==> has_rank(a, q) == has_rank(b, q),
        r <= 11,
    ensures
        closed_upto(a, r) == closed_upto(b, r),
    decreases r,
{
    if r > 0 {
        lemma_closed_order_stable(a, b, r - 1);
    }
}

/// Whether the commits at indices `g` come in scope order.
pub open spec fn scope_sorted(cs: Seq<Commit>, g: Seq<usize>) -> bool {
    forall|k: int|
        0 <= k < g.len() - 1 ==> !scope_after(
            cs[(#[trigger] g[k]) as int].scope,
            cs[g[k + 1] as int].scope,
        )
}

proof fn lemma_seq_le_total(a: Seq<char>, b: Seq<char>)
    ensures
        seq_le(a, b) || seq_le(b, a),
    decreases a.len(),
{
    if a.len() > 0 && b.len() > 0 && a[0] == b[0] {
        lemma_seq_le_total(a.drop_first(), b.drop_first());
    }
}

proof fn lemma_scope_after_asymmetric(a: Option<String>, b: Option<String>)
    ensures
        scope_after(a, b) ==> !scope_after(b, a),
{
    if let (Some(x), Some(y)) = (a, b) {
        lemma_seq_le_total(x@, y@);
    }
}

proof fn lemma_insert_keeps_order(cs: Seq<Commit>, s: Seq<usize>, i: usize)
    requires
        scope_sorted(cs, s),
    ensures
        scope_sorted(cs, insert_sorted(cs, s, i)),
        insert_sorted(cs, s, i).len() == s.len() + 1,
        insert_sorted(cs, s, i)[0] == i || (s.len() > 0 && insert_sorted(cs, s, i)[0] == s[0]),
    decreases s.len(),
{
    let r = insert_sorted(cs, s, i);
    if s.len() == 0 {
    } else if scope_after(cs[s[0] as int].scope, cs[i as int].scope) {
        lemma_scope_after_asymmetric(cs[s[0] as int].scope, cs[i as int].scope);
        assert forall|k: int| 0 <= k < r.len() - 1 implies !scope_after(
            cs[(#[trigger] r[k]) as int].scope,
            cs[r[k + 1] as int].scope,
        ) by {
            if k > 0 {
                assert(r[k] == s[k - 1] && r[k + 1] == s[k]);
            }
        }
    } else {
        let t = s.drop_first();
        assert forall|k: int| 0 <= k < t.len() - 1 implies !scope_after(
            cs[(#[trigger] t[k]) as int].scope,
            cs[t[k + 1] as int].scope,
        ) by {
            assert(t[k] == s[k + 1] && t[k + 1] == s[k + 2]);
        }
        lemma_insert_keeps_order(cs, t, i);
        let u = insert_sorted(cs, t, i);
        assert(r == seq![s[0]] + u);
        assert forall|k: int| 0 <= k < r.len() - 1 implies !scope_after(
            cs[(#[trigger] r[k]) as int].scope,
            cs[r[k + 1] as int].scope,
        ) by {
            if k == 0 {
                assert(r[1] == u[0]);
            } else {
                assert(r[k] == u[k - 1] && r[k + 1] == u[k]);
            }
        }
    }
}

/// Every section lists its commits in scope order, no scope first.
pub proof fn lemma_group_scope_sorted(cs: Seq<Commit>, t: CommitType, n: int)
    ensures
        scope_sorted(cs, group_of(cs, t, n)),
    decreases n,
{
    if n > 0 {
        lemma_group_scope_sorted(cs, t, n - 1);
        if same_type(cs[n - 1].commit_type, t) {
            lemma_insert_keeps_order(cs, group_of(cs, t, n - 1), (n - 1) as usize);
        }
    }
}

/// Rendering is determined by the commits alone: two renderings of the same
/// commits hold the same sections, kinds and indices alike.
pub proof fn lemma_render_determined(cs: Seq<Commit>, a: Seq<Section>, b: Seq<Section>)
    requires
        rendered(cs, a),
        rendered(cs, b),
    ensures
        a.len() == b.len(),
        forall|k: int|
            0 <= k < a.len() ==> (#[trigger] a[k]).commit_type == b[k].commit_type
                && a[k].commits@ == b[k].commits@,
{
    assert forall|k: int| 0 <= k < a.len() implies (#[trigger] a[k]).commit_type
        == b[k].commit_type && a[k].commits@ == b[k].commits@ by {
        assert(a[k].commit_type == section_types(cs)[k]);
        assert(b[k].commit_type == section_types(cs)[k]);
    }
}

} // verus!
