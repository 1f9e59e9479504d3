//! The facts outside the code that verdicts rest on, collated across
//! verdicts so a fact three verdicts share is shown once.

use vstd::prelude::*;
use crate::verdict::{Adjudication, Dependency, DependencyKind, DependencyView, Verdict, VerdictView, spec_dependencies, verdict_views, dependency_views};
use crate::text::{copy_string, str_eq};

verus! {

/// One fact and every verdict resting on it.
#[derive(Debug, Clone, PartialEq, Eq)]
pub struct SharedDependency {
    pub fact: String,
    pub kind: DependencyKind,
    pub verify: String,
    /// The opening comment ids of the threads whose verdicts rest on it, in
    /// first-seen order, each once.
    pub comment_ids: Vec<String>,
    /// What the verdicts would become were the fact false; `None` when they
    /// said nothing or did not agree.
    pub flips_to: Option<Adjudication>,
}

/// A collated fact as plain values.
pub struct SharedView {
    pub fact: Seq<char>,
    pub kind: DependencyKind,
    pub verify: Seq<char>,
    pub comment_ids: Seq<Seq<char>>,
    pub flips_to: Option<Adjudication>,
}

impl View for SharedDependency {
    type V = SharedView;

    open spec fn view(&self) -> SharedView {
        SharedView {
            fact: self.fact@,
            kind: self.kind,
            verify: self.verify@,
            comment_ids: self.comment_ids@.map_values(|s: String| s@),
            flips_to: self.flips_to,
        }
    }
}

pub open spec fn shared_views(v: Seq<SharedDependency>) -> Seq<SharedView> {
    v.map_values(|s: SharedDependency| s@)
}

impl SharedDependency {
    /// How many verdicts rest on this fact.
    pub fn verdict_count(&self) -> (r: usize)
        ensures
            r == self@.comment_ids.len(),
    {
        self.comment_ids.len()
    }

    /// Whether more than one verdict rests on this fact.
    pub fn is_shared(&self) -> (r: bool)
        ensures
            r == (self@.comment_ids.len() > 1),
    {
        self.comment_ids.len() > 1
    }
}

/// Every `(comment id, dependency)` pair of the verdicts, in order.
pub open spec fn dependency_pairs(vs: Seq<VerdictView>) -> Seq<(Seq<char>, DependencyView)>
    decreases vs.len(),
{
    if vs.len() == 0 {
        Seq::empty()
    } else {
        let v = vs.last();
        dependency_pairs(vs.drop_last()) + spec_dependencies(v).map_values(|d: DependencyView| (v.comment_id, d))
    }
}

/// The index of the entry for `fact`, if any.
pub open spec fn entry_for(entries: Seq<SharedView>, fact: Seq<char>) -> Option<int>
    decreases entries.len(),
{
    if entries.len() == 0 {
        None
    } else {
        match entry_for(entries.drop_last(), fact) {
            Some(i) => Some(i),
            None => if entries.last().fact == fact { Some(entries.len() - 1) } else { None },
        }
    }
}

/// An entry with one more verdict folded in: its id added once, and its
/// `flips_to` kept only while every verdict agrees.
pub open spec fn merged(e: SharedView, d: DependencyView, id: Seq<char>) -> SharedView {
    SharedView {
        comment_ids: if e.comment_ids.contains(id) { e.comment_ids } else { e.comment_ids.push(id) },
        flips_to: if e.flips_to != d.flips_to { None } else { e.flips_to },
        ..e
    }
}

/// Collation of the pairs, in the order facts are first met.
pub open spec fn collated(pairs: Seq<(Seq<char>, DependencyView)>) -> Seq<SharedView>
    decreases pairs.len(),
{
    if pairs.len() == 0 {
        Seq::empty()
    } else {
        let entries = collated(pairs.drop_last());
        let (id, d) = pairs.last();
        match entry_for(entries, d.fact) {
            Some(i) => entries.update(i, merged(entries[i], d, id)),
            None => entries.push(SharedView { fact: d.fact, kind: d.kind, verify: d.verify, comment_ids: seq![id], flips_to: d.flips_to }),
        }
    }
}

proof fn lemma_entry_for(entries: Seq<SharedView>, fact: Seq<char>)
    ensures
        match entry_for(entries, fact) {
            Some(i) => 0 <= i < entries.len() && entries[i].fact == fact && forall|k: int| 0 <= k < i ==> (#[trigger] entries[k]).fact != fact,
            None => forall|k: int| 0 <= k < entries.len() ==> (#[trigger] entries[k]).fact != fact,
        },
    decreases entries.len(),
{
    if entries.len() > 0 {
        lemma_entry_for(entries.drop_last(), fact);
        assert forall|k: int| 0 <= k < entries.len() - 1 implies #[trigger] entries[k] == entries.drop_last()[k] by {}
    }
}

proof fn lemma_merged(e: SharedView, d: DependencyView, id: Seq<char>)
    ensures
        merged(e, d, id).fact == e.fact,
        merged(e, d, id).comment_ids.contains(id),
        forall|x: Seq<char>| e.comment_ids.contains(x) ==> merged(e, d, id).comment_ids.contains(x),
        e.comment_ids.no_duplicates() ==> merged(e, d, id).comment_ids.no_duplicates(),
        forall|m: int| 0 <= m < merged(e, d, id).comment_ids.len() ==> (#[trigger] merged(e, d, id).comment_ids[m] == id
            || (m < e.comment_ids.len() && merged(e, d, id).comment_ids[m] == e.comment_ids[m])),
{
    let ids = e.comment_ids;
    if !ids.contains(id) {
        let pushed = ids.push(id);
        assert(pushed[ids.len() as int] == id);
        assert forall|x: Seq<char>| ids.contains(x) implies pushed.contains(x) by {
            let w = choose|w: int| 0 <= w < ids.len() && ids[w] == x;
            assert(pushed[w] == x);
        }
        if ids.no_duplicates() {
            assert forall|a: int, b: int| 0 <= a < pushed.len() && 0 <= b < pushed.len() && a != b
                implies pushed[a] != pushed[b] by {
                if a == ids.len() {
                    assert(pushed[b] == ids[b]);
                } else if b == ids.len() {
                    assert(pushed[a] == ids[a]);
                }
            }
        }
    }
}

proof fn lemma_collated_step(pairs: Seq<(Seq<char>, DependencyView)>)
    requires
        pairs.len() > 0,
    ensures
        ({
            let entries = collated(pairs.drop_last());
            let c = collated(pairs);
            let (id, d) = pairs.last();
            &&& c.len() >= entries.len()
            &&& forall|j: int| 0 <= j < entries.len() ==> (#[trigger] c[j]).fact == entries[j].fact
            &&& exists|j: int| 0 <= j < c.len() && (#[trigger] c[j]).fact == d.fact && c[j].comment_ids.contains(id)
            &&& c.len() == entries.len() || (c.len() == entries.len() + 1 && c[entries.len() as int].fact == d.fact
                && c[entries.len() as int].comment_ids == seq![id]
                && forall|j: int| 0 <= j < entries.len() ==> (#[trigger] entries[j]).fact != d.fact)
            &&& forall|j: int| 0 <= j < entries.len() ==> (#[trigger] c[j]) == entries[j]
                    || c[j] == merged(entries[j], d, id)
        }),
{
    let entries = collated(pairs.drop_last());
    let c = collated(pairs);
    let (id, d) = pairs.last();
    lemma_entry_for(entries, d.fact);
    match entry_for(entries, d.fact) {
        Some(i) => {
            lemma_merged(entries[i], d, id);
            assert(c[i].comment_ids.contains(id));
        },
        None => {
            assert(c[entries.len() as int].comment_ids[0] == id);
        },
    }
}

/// Collation shows each fact once: no two entries share a fact.
pub proof fn lemma_collation_shows_each_fact_once(pairs: Seq<(Seq<char>, DependencyView)>)
    ensures
        forall|i: int, j: int| 0 <= i < j < collated(pairs).len()
            ==> (#[trigger] collated(pairs)[i]).fact != (#[trigger] collated(pairs)[j]).fact,
    decreases pairs.len(),
{
    if pairs.len() > 0 {
        lemma_collation_shows_each_fact_once(pairs.drop_last());
        lemma_collated_step(pairs);
    }
}

/// A collated fact names what the verdicts would become only by consensus:
/// its `flips_to` is `Some(x)` only if every verdict resting on that fact
/// declared `Some(x)`. Where they differ, or one declared nothing, it is
/// `None`.
pub proof fn lemma_flip_only_by_consensus(pairs: Seq<(Seq<char>, DependencyView)>)
    ensures
        forall|j: int, k: int| 0 <= j < collated(pairs).len() && 0 <= k < pairs.len()
            && (#[trigger] collated(pairs)[j]).fact == (#[trigger] pairs[k]).1.fact
            && collated(pairs)[j].flips_to is Some
            ==> pairs[k].1.flips_to == collated(pairs)[j].flips_to,
    decreases pairs.len(),
{
    if pairs.len() > 0 {
        let prev = pairs.drop_last();
        let entries = collated(prev);
        let c = collated(pairs);
        let (id, d) = pairs.last();
        lemma_flip_only_by_consensus(prev);
        lemma_entry_for(entries, d.fact);
        lemma_collation_loses_no_comment(prev);
        lemma_collation_shows_each_fact_once(prev);
        assert forall|j: int, k: int| 0 <= j < c.len() && 0 <= k < pairs.len()
            && (#[trigger] c[j]).fact == (#[trigger] pairs[k]).1.fact && c[j].flips_to is Some
            implies pairs[k].1.flips_to == c[j].flips_to by {
            match entry_for(entries, d.fact) {
                Some(i) => {
                    if j == i {
                        assert(c[j] == merged(entries[i], d, id));
                        assert(entries[i].flips_to == d.flips_to);
                        if k < pairs.len() - 1 {
                            assert(pairs[k] == prev[k]);
                            assert(entries[i].fact == prev[k].1.fact);
                        }
                    } else {
                        assert(c[j] == entries[j]);
                        if k < pairs.len() - 1 {
                            assert(pairs[k] == prev[k]);
                        } else {
                            assert(entries[j].fact == d.fact);
                            assert(entries[i].fact == d.fact);
                            if j < i {
                            } else {
                                assert(entries[i].fact != entries[j].fact);
                            }
                        }
                    }
                },
                None => {
                    if j == entries.len() {
                        assert(c[j].fact == d.fact && c[j].flips_to == d.flips_to);
                        if k < pairs.len() - 1 {
                            assert(pairs[k] == prev[k]);
                            let w = choose|w: int| 0 <= w < entries.len() && (#[trigger] entries[w]).fact == prev[k].1.fact
                                && entries[w].comment_ids.contains(prev[k].0);
                            assert(entries[w].fact == d.fact);
                        }
                    } else {
                        assert(c[j] == entries[j]);
                        if k < pairs.len() - 1 {
                            assert(pairs[k] == prev[k]);
                        } else {
                            assert(entries[j].fact == d.fact);
                        }
                    }
                },
            }
        }
    }
}

/// An entry lists each comment resting on its fact once.
pub proof fn lemma_collation_lists_each_comment_once(pairs: Seq<(Seq<char>, DependencyView)>)
    ensures
        forall|j: int| 0 <= j < collated(pairs).len() ==> (#[trigger] collated(pairs)[j]).comment_ids.no_duplicates(),
    decreases pairs.len(),
{
    if pairs.len() > 0 {
        let entries = collated(pairs.drop_last());
        let (id, d) = pairs.last();
        lemma_collation_lists_each_comment_once(pairs.drop_last());
        lemma_collated_step(pairs);
        assert forall|j: int| 0 <= j < entries.len() implies (#[trigger] entries[j]).comment_ids.no_duplicates()
            ==> merged(entries[j], d, id).comment_ids.no_duplicates() by {
            lemma_merged(entries[j], d, id);
        }
    }
}

/// Collation loses nothing: every comment that declared a fact is listed in
/// an entry for that fact.
pub proof fn lemma_collation_loses_no_comment(pairs: Seq<(Seq<char>, DependencyView)>)
    ensures
        forall|k: int| 0 <= k < pairs.len() ==> exists|j: int| 0 <= j < collated(pairs).len()
            && (#[trigger] collated(pairs)[j]).fact == (#[trigger] pairs[k]).1.fact
            && collated(pairs)[j].comment_ids.contains(pairs[k].0),
    decreases pairs.len(),
{
    if pairs.len() > 0 {
        let prev = pairs.drop_last();
        let entries = collated(prev);
        let c = collated(pairs);
        lemma_collation_loses_no_comment(prev);
        lemma_collated_step(pairs);
        assert forall|k: int| 0 <= k < pairs.len() - 1 implies exists|j: int| 0 <= j < c.len()
            && (#[trigger] c[j]).fact == (#[trigger] pairs[k]).1.fact && c[j].comment_ids.contains(pairs[k].0) by {
            assert(pairs[k] == prev[k]);
            let j = choose|j: int| 0 <= j < entries.len() && (#[trigger] entries[j]).fact == prev[k].1.fact
                && entries[j].comment_ids.contains(prev[k].0);
            assert(entries[j].comment_ids.contains(prev[k].0));
            lemma_merged(entries[j], pairs.last().1, pairs.last().0);
            assert(c[j].fact == pairs[k].1.fact);
        }
    }
}

/// Collation invents nothing: every comment an entry lists declared that
/// entry's fact.
pub proof fn lemma_collation_invents_no_comment(pairs: Seq<(Seq<char>, DependencyView)>)
    ensures
        forall|j: int, m: int| #![trigger collated(pairs)[j].comment_ids[m]]
            0 <= j < collated(pairs).len() && 0 <= m < collated(pairs)[j].comment_ids.len()
            ==> exists|k: int| #![trigger pairs[k]] 0 <= k < pairs.len() && pairs[k].0 == collated(pairs)[j].comment_ids[m]
                && pairs[k].1.fact == collated(pairs)[j].fact,
    decreases pairs.len(),
{
    if pairs.len() > 0 {
        let prev = pairs.drop_last();
        let entries = collated(prev);
        let c = collated(pairs);
        let (id, d) = pairs.last();
        let n = pairs.len() - 1;
        lemma_collation_invents_no_comment(prev);
        lemma_collated_step(pairs);
        assert forall|j: int, m: int| #![trigger c[j].comment_ids[m]] 0 <= j < c.len() && 0 <= m < c[j].comment_ids.len()
            implies exists|k: int| #![trigger pairs[k]] 0 <= k < pairs.len() && pairs[k].0 == c[j].comment_ids[m]
                && pairs[k].1.fact == c[j].fact by {
            if j >= entries.len() {
                assert(c[j].comment_ids[m] == id);
                assert(pairs[n].0 == c[j].comment_ids[m]);
            } else {
                lemma_merged(entries[j], d, id);
                if c[j].comment_ids[m] == id && (c[j] != entries[j]) {
                    assert(c[j] == merged(entries[j], d, id));
                    lemma_entry_for(entries, d.fact);
                    assert(pairs[n].0 == c[j].comment_ids[m]);
                    assert(entries[j].fact == d.fact) by {
                        match entry_for(entries, d.fact) {
                            Some(i) => { if i != j { assert(c[j] == entries[j]); } },
                            None => {},
                        }
                    }
                } else {
                    assert(m < entries[j].comment_ids.len() && c[j].comment_ids[m] == entries[j].comment_ids[m]);
                    let k = choose|k: int| #![trigger prev[k]] 0 <= k < prev.len() && prev[k].0 == entries[j].comment_ids[m]
                        && prev[k].1.fact == entries[j].fact;
                    assert(pairs[k] == prev[k]);
                }
            }
        }
    }
}

fn find_entry(entries: &Vec<SharedDependency>, fact: &str) -> (r: Option<usize>)
    ensures
        match r {
            Some(i) => entry_for(shared_views(entries@), fact@) == Some(i as int),
            None => entry_for(shared_views(entries@), fact@) is None,
        },
{
    let mut i: usize = 0;
    while i < entries.len()
        invariant
            i <= entries@.len(),
            forall|k: int| 0 <= k < i ==> (#[trigger] shared_views(entries@)[k]).fact != fact@,
        decreases entries@.len() - i,
    {
        if str_eq(entries[i].fact.as_str(), fact) {
            proof {
                lemma_entry_for(shared_views(entries@), fact@);
                match entry_for(shared_views(entries@), fact@) {
                    Some(j) => { if j > i { assert(shared_views(entries@)[i as int].fact == fact@); } },
                    None => { assert(shared_views(entries@)[i as int].fact == fact@); },
                }
            }
            return Some(i);
        }
        i = i + 1;
    }
    proof {
        lemma_entry_for(shared_views(entries@), fact@);
        if let Some(j) = entry_for(shared_views(entries@), fact@) {
            assert(shared_views(entries@)[j].fact == fact@);
        }
    }
    None
}

fn contains_id(ids: &Vec<String>, id: &str) -> (r: bool)
    ensures
        r == ids@.map_values(|s: String| s@).contains(id@),
{
    let mut i: usize = 0;
    while i < ids.len()
        invariant
            i <= ids@.len(),
            forall|k: int| 0 <= k < i ==> (#[trigger] ids@[k])@ != id@,
        decreases ids@.len() - i,
    {
        if str_eq(ids[i].as_str(), id) {
            assert(ids@.map_values(|s: String| s@)[i as int] == id@);
            return true;
        }
        i = i + 1;
    }
    proof {
        let m = ids@.map_values(|s: String| s@);
        if m.contains(id@) {
            let k = choose|k: int| 0 <= k < m.len() && m[k] == id@;
            assert(ids@[k]@ == id@);
        }
    }
    false
}

/// `existing` with the verdict of `comment_id` folded in.
pub fn merge_into(existing: &mut SharedDependency, dependency: &Dependency, comment_id: &str)
    ensures
        final(existing)@ == merged(old(existing)@, dependency@, comment_id@),
{
    if !contains_id(&existing.comment_ids, comment_id) {
        let ghost before = existing.comment_ids@;
        existing.comment_ids.push(comment_id.to_owned());
        assert(existing.comment_ids@.map_values(|s: String| s@) =~= before.map_values(|s: String| s@).push(comment_id@));
    }
    if !crate::verdict::same_flip(existing.flips_to, dependency.flips_to) {
        existing.flips_to = None;
    }
}

fn duplicate_shared(s: &SharedDependency) -> (r: SharedDependency)
    ensures
        r@ == s@,
{
    let mut ids: Vec<String> = Vec::new();
    let mut i: usize = 0;
    while i < s.comment_ids.len()
        invariant
            i <= s.comment_ids@.len(),
            ids@.len() == i,
            forall|k: int| 0 <= k < i ==> (#[trigger] ids@[k])@ == s.comment_ids@[k]@,
        decreases s.comment_ids@.len() - i,
    {
        ids.push(copy_string(&s.comment_ids[i]));
        i = i + 1;
    }
    let r = SharedDependency { fact: copy_string(&s.fact), kind: s.kind, verify: copy_string(&s.verify), comment_ids: ids, flips_to: s.flips_to };
    assert(r@.comment_ids =~= s@.comment_ids);
    r
}

/// Collapse the facts of several verdicts so each is presented once, with
/// every verdict that rests on it, in the order facts are first met.
pub fn collate(verdicts: &[Verdict]) -> (r: Vec<SharedDependency>)
    ensures
        shared_views(r@) == collated(dependency_pairs(verdict_views(verdicts@))),
{
    let mut out: Vec<SharedDependency> = Vec::new();
    let mut i: usize = 0;
    while i < verdicts.len()
        invariant
            i <= verdicts@.len(),
            shared_views(out@) == collated(dependency_pairs(verdict_views(verdicts@).take(i as int))),
        decreases verdicts@.len() - i,
    {
        let verdict = &verdicts[i];
        let deps = verdict.dependencies();
        let ghost vv = verdict_views(verdicts@).take(i + 1);
        assert(vv.drop_last() =~= verdict_views(verdicts@).take(i as int));
        assert(vv.last() == verdict@);
        let ghost base = dependency_pairs(vv.drop_last());
        let ghost mapped = spec_dependencies(verdict@).map_values(|d: DependencyView| (verdict@.comment_id, d));
        let mut j: usize = 0;
        while j < deps.len()
            invariant
                j <= deps@.len(),
                dependency_views(deps@) == spec_dependencies(verdict@),
                mapped == spec_dependencies(verdict@).map_values(|d: DependencyView| (verdict@.comment_id, d)),
                shared_views(out@) == collated(base + mapped.take(j as int)),
            decreases deps@.len() - j,
        {
            let dependency = &deps[j];
            let ghost ps = base + mapped.take(j + 1);
            assert(ps.drop_last() =~= base + mapped.take(j as int));
            assert(ps.last() == (verdict@.comment_id, dependency@));
            let ghost before = shared_views(out@);
            match find_entry(&out, dependency.fact.as_str()) {
                Some(k) => {
                    proof { lemma_entry_for(before, dependency@.fact); }
                    let mut e = duplicate_shared(&out[k]);
                    merge_into(&mut e, dependency, verdict.comment_id.as_str());
                    out.set(k, e);
                    assert(shared_views(out@) =~= before.update(k as int, merged(before[k as int], dependency@, verdict@.comment_id)));
                },
                None => {
                    let mut ids: Vec<String> = Vec::new();
                    ids.push(copy_string(&verdict.comment_id));
                    let e = SharedDependency {
                        fact: copy_string(&dependency.fact),
                        kind: dependency.kind,
                        verify: copy_string(&dependency.verify),
                        comment_ids: ids,
                        flips_to: dependency.flips_to,
                    };
                    assert(e@.comment_ids =~= seq![verdict@.comment_id]);
                    out.push(e);
                    assert(shared_views(out@) =~= before.push(e@));
                },
            }
            j = j + 1;
        }
        assert(mapped.take(deps@.len() as int) =~= mapped);
        i = i + 1;
    }
    assert(verdict_views(verdicts@).take(verdicts@.len() as int) =~= verdict_views(verdicts@));
    out
}

} // verus!
