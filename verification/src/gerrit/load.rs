//! Loading a change into the threads triage consumes: the change's current
//! patchset, both comment endpoints merged per path, threads assembled per
//! path in a stable path order, and the triagable ones selected. Drafts are
//! absent by construction: the API has no way to fetch them.

use vstd::prelude::*;
use crate::gerrit::api::{ChangeInfo, GerritApi, GroupsView, spec_current_patch_set};
use crate::gerrit::comment::Comment;
use crate::gerrit::error::GerritError;
use crate::gerrit::thread::{count_skipped, lemma_selected_come_from_input, thread_wf, Thread, ThreadSet, ThreadView, assemble, assembled, comment_views, is_triagable,
    lemma_selected_are_triagable, select_triagable, thread_views, triagable};
use crate::gerrit::comment::CommentView;
use crate::order::{KeyView, SortKey, is_permutation, sort_keys, sorted_by_key};
use crate::text::{chars_of, copy_string, str_eq};

verus! {

/// A change and its triagable threads.
#[derive(Debug, Clone, PartialEq, Eq)]
pub struct LoadedChange {
    pub change: ChangeInfo,
    pub threads: ThreadSet,
}

impl LoadedChange {
    /// Whether there is nothing to triage; a change with no unresolved threads
    /// exits gracefully rather than opening an empty screen.
    pub fn is_empty(&self) -> (r: bool)
        ensures
            r == (self.threads.threads@.len() == 0),
    {
        self.threads.threads.len() == 0
    }
}

/// Comments grouped by path, as plain values.
pub open spec fn path_groups(g: Seq<(String, Vec<Comment>)>) -> Seq<(Seq<char>, Seq<CommentView>)> {
    g.map_values(|e: (String, Vec<Comment>)| (e.0@, comment_views(e.1@)))
}

/// The index of the group for `path`, if any.
pub open spec fn group_index(g: Seq<(Seq<char>, Seq<CommentView>)>, path: Seq<char>) -> Option<int>
    decreases g.len(),
{
    if g.len() == 0 {
        None
    } else {
        match group_index(g.drop_last(), path) {
            Some(i) => Some(i),
            None => if g.last().0 == path { Some(g.len() - 1) } else { None },
        }
    }
}

proof fn lemma_group_index(g: Seq<(Seq<char>, Seq<CommentView>)>, path: Seq<char>)
    ensures
        match group_index(g, path) {
            Some(i) => 0 <= i < g.len() && g[i].0 == path,
            None => forall|k: int| 0 <= k < g.len() ==> (#[trigger] g[k]).0 != path,
        },
    decreases g.len(),
{
    if g.len() > 0 {
        lemma_group_index(g.drop_last(), path);
        assert forall|k: int| 0 <= k < g.len() - 1 implies #[trigger] g[k] == g.drop_last()[k] by {}
    }
}

/// Robot comments merged into the human ones, path by path: a path's robot
/// comments follow its human comments, and a path only robots commented on
/// is added after the others.
pub open spec fn merged(human: Seq<(Seq<char>, Seq<CommentView>)>, robot: Seq<(Seq<char>, Seq<CommentView>)>) -> Seq<(Seq<char>, Seq<CommentView>)>
    decreases robot.len(),
{
    if robot.len() == 0 {
        human
    } else {
        let g = merged(human, robot.drop_last());
        let (path, cs) = robot.last();
        match group_index(g, path) {
            Some(i) => g.update(i, (g[i].0, g[i].1 + cs)),
            None => g.push((path, cs)),
        }
    }
}

/// Merging robot comments into the published ones keeps one group per path:
/// Gerrit answers each with a map from path to comments, and a robot path
/// already present joins its group rather than starting another.
pub proof fn lemma_merging_keeps_one_group_per_path(human: Seq<(Seq<char>, Seq<CommentView>)>, robot: Seq<(Seq<char>, Seq<CommentView>)>)
    requires
        forall|i: int, j: int| 0 <= i < j < human.len() ==> (#[trigger] human[i]).0 != (#[trigger] human[j]).0,
    ensures
        forall|i: int, j: int| 0 <= i < j < merged(human, robot).len()
            ==> (#[trigger] merged(human, robot)[i]).0 != (#[trigger] merged(human, robot)[j]).0,
    decreases robot.len(),
{
    if robot.len() > 0 {
        let g = merged(human, robot.drop_last());
        let path = robot.last().0;
        lemma_merging_keeps_one_group_per_path(human, robot.drop_last());
        lemma_group_index(g, path);
        let g2 = merged(human, robot);
        assert forall|i: int, j: int| 0 <= i < j < g2.len() implies (#[trigger] g2[i]).0 != (#[trigger] g2[j]).0 by {
            match group_index(g, path) {
                Some(k) => {
                    assert(g2[i].0 == g[i].0);
                    assert(g2[j].0 == g[j].0);
                },
                None => {
                    if j == g.len() {
                        assert(g[i].0 != path);
                    } else {
                        assert(g2[i] == g[i]);
                        assert(g2[j] == g[j]);
                    }
                },
            }
        }
    }
}

fn copy_comments(v: &Vec<Comment>) -> (r: Vec<Comment>)
    ensures
        comment_views(r@) == comment_views(v@),
{
    let mut r: Vec<Comment> = Vec::new();
    let mut i: usize = 0;
    while i < v.len()
        invariant
            i <= v@.len(),
            r@.len() == i,
            forall|k: int| 0 <= k < i ==> (#[trigger] r@[k])@ == v@[k]@,
        decreases v@.len() - i,
    {
        r.push(v[i].duplicate());
        i = i + 1;
    }
    assert(comment_views(r@) =~= comment_views(v@));
    r
}

/// Copy the comment groups.
pub fn copy_groups(g: &Vec<(String, Vec<Comment>)>) -> (r: Vec<(String, Vec<Comment>)>)
    ensures
        path_groups(r@) == path_groups(g@),
{
    let mut r: Vec<(String, Vec<Comment>)> = Vec::new();
    let mut i: usize = 0;
    while i < g.len()
        invariant
            i <= g@.len(),
            path_groups(r@) == path_groups(g@).take(i as int),
        decreases g@.len() - i,
    {
        let e = (copy_string(&g[i].0), copy_comments(&g[i].1));
        let ghost before = r@;
        r.push(e);
        assert(path_groups(r@) =~= path_groups(before).push((g@[i as int].0@, comment_views(g@[i as int].1@))));
        assert(path_groups(g@).take(i + 1) =~= path_groups(g@).take(i as int).push((g@[i as int].0@, comment_views(g@[i as int].1@))));
        i = i + 1;
    }
    assert(path_groups(g@).take(g@.len() as int) =~= path_groups(g@));
    r
}

fn find_group(g: &Vec<(String, Vec<Comment>)>, path: &str) -> (r: Option<usize>)
    ensures
        match r {
            Some(i) => group_index(path_groups(g@), path@) == Some(i as int),
            None => group_index(path_groups(g@), path@) is None,
        },
{
    let mut i: usize = 0;
    while i < g.len()
        invariant
            i <= g@.len(),
            forall|k: int| 0 <= k < i ==> (#[trigger] path_groups(g@)[k]).0 != path@,
        decreases g@.len() - i,
    {
        if str_eq(g[i].0.as_str(), path) {
            proof { lemma_group_index_first(path_groups(g@), path@, i as int); }
            return Some(i);
        }
        i = i + 1;
    }
    proof {
        lemma_group_index(path_groups(g@), path@);
        if let Some(j) = group_index(path_groups(g@), path@) {
            assert(path_groups(g@)[j].0 == path@);
        }
    }
    None
}

proof fn lemma_group_index_first(g: Seq<(Seq<char>, Seq<CommentView>)>, path: Seq<char>, i: int)
    requires
        0 <= i < g.len(),
        g[i].0 == path,
        forall|k: int| 0 <= k < i ==> (#[trigger] g[k]).0 != path,
    ensures
        group_index(g, path) == Some(i),
    decreases g.len(),
{
    if i < g.len() - 1 {
        assert forall|k: int| 0 <= k < i implies (#[trigger] g.drop_last()[k]).0 != path by {
            assert(g.drop_last()[k] == g[k]);
        }
        lemma_group_index_first(g.drop_last(), path, i);
    } else {
        lemma_group_index(g.drop_last(), path);
        if let Some(j) = group_index(g.drop_last(), path) {
            assert(g.drop_last()[j] == g[j]);
        }
    }
}

/// Merge robot comments into the human ones, path by path.
pub fn merge_comments(human: Vec<(String, Vec<Comment>)>, robot: &Vec<(String, Vec<Comment>)>) -> (r: Vec<(String, Vec<Comment>)>)
    ensures
        path_groups(r@) == merged(path_groups(human@), path_groups(robot@)),
{
    let mut g = human;
    let mut i: usize = 0;
    while i < robot.len()
        invariant
            i <= robot@.len(),
            path_groups(g@) == merged(path_groups(human@), path_groups(robot@).take(i as int)),
        decreases robot@.len() - i,
    {
        let ghost rb = path_groups(robot@).take(i + 1);
        assert(rb.drop_last() =~= path_groups(robot@).take(i as int));
        assert(rb.last() == (robot@[i as int].0@, comment_views(robot@[i as int].1@)));
        let ghost before = path_groups(g@);
        let extra = copy_comments(&robot[i].1);
        match find_group(&g, robot[i].0.as_str()) {
            Some(k) => {
                proof { lemma_group_index(before, robot@[i as int].0@); }
                let mut list = copy_comments(&g[k].1);
                let name = copy_string(&g[k].0);
                let mut j: usize = 0;
                let ghost base = comment_views(list@);
                while j < extra.len()
                    invariant
                        j <= extra@.len(),
                        comment_views(list@) == base + comment_views(extra@).take(j as int),
                    decreases extra@.len() - j,
                {
                    let ghost lb = list@;
                    list.push(extra[j].duplicate());
                    assert(comment_views(list@) =~= comment_views(lb).push(extra@[j as int]@));
                    assert(comment_views(extra@).take(j + 1) =~= comment_views(extra@).take(j as int).push(extra@[j as int]@));
                    j = j + 1;
                }
                assert(comment_views(extra@).take(extra@.len() as int) =~= comment_views(extra@));
                g.set(k, (name, list));
                assert(path_groups(g@) =~= before.update(k as int, (before[k as int].0, before[k as int].1 + comment_views(robot@[i as int].1@))));
            },
            None => {
                let name = copy_string(&robot[i].0);
                g.push((name, extra));
                assert(path_groups(g@) =~= before.push((robot@[i as int].0@, comment_views(robot@[i as int].1@))));
            },
        }
        i = i + 1;
    }
    assert(path_groups(robot@).take(robot@.len() as int) =~= path_groups(robot@));
    g
}

/// The sort key of a path group: its path, and its position to keep ties stable.
pub open spec fn path_key(g: Seq<(Seq<char>, Seq<CommentView>)>, i: int) -> KeyView {
    KeyView { line: None, first: g[i].0, second: Seq::empty(), position: i }
}

/// `ts` are the threads of every path group, each group assembled on its
/// own, the groups taken in path order.
pub open spec fn assembled_all(g: Seq<(Seq<char>, Seq<CommentView>)>, ts: Seq<ThreadView>) -> bool {
    exists|order: Seq<usize>, groups: Seq<Seq<ThreadView>>| {
        &&& is_permutation(order, g.len() as int)
        &&& sorted_by_key(Seq::new(g.len(), |i: int| path_key(g, i)), order)
        &&& groups.len() == g.len()
        &&& (forall|k: int| 0 <= k < groups.len() ==> assembled(g[order[k] as int].0, g[order[k] as int].1, #[trigger] groups[k]))
        &&& ts == groups.flatten_alt()
    }
}

/// Assemble every path's comments into threads, paths in sorted order.
pub fn assemble_all(by_path: Vec<(String, Vec<Comment>)>) -> (r: Vec<Thread>)
    ensures
        assembled_all(path_groups(by_path@), thread_views(r@)),
{
    let n = by_path.len();
    let mut keys: Vec<SortKey> = Vec::new();
    let mut i: usize = 0;
    while i < n
        invariant
            n == by_path@.len(),
            i <= n,
            keys@.len() == i,
            forall|k: int| 0 <= k < i ==> (#[trigger] keys@[k])@ == path_key(path_groups(by_path@), k),
        decreases n - i,
    {
        keys.push(SortKey { line: None, first: chars_of(by_path[i].0.as_str()), second: Vec::new(), position: i });
        i = i + 1;
    }
    let ghost kv = Seq::new(n as nat, |i: int| path_key(path_groups(by_path@), i));
    assert(keys@.map_values(|k: SortKey| k@) =~= kv);
    let order = sort_keys(&keys);
    let mut threads: Vec<Thread> = Vec::new();
    let ghost mut groups: Seq<Seq<ThreadView>> = Seq::empty();
    let mut k: usize = 0;
    while k < n
        invariant
            n == by_path@.len(),
            is_permutation(order@, n as int),
            k <= n,
            groups.len() == k,
            forall|q: int| 0 <= q < k ==> assembled(path_groups(by_path@)[order@[q] as int].0,
                path_groups(by_path@)[order@[q] as int].1, #[trigger] groups[q]),
            thread_views(threads@) == groups.flatten_alt(),
        decreases n - k,
    {
        let idx = order[k];
        let comments = copy_comments(&by_path[idx].1);
        let part = assemble(by_path[idx].0.as_str(), comments);
        let ghost before = threads@;
        let mut j: usize = 0;
        let mut part = part;
        let ghost pv = thread_views(part@);
        let mut moved: Vec<Thread> = Vec::new();
        while j < part.len()
            invariant
                j <= part@.len(),
                pv == thread_views(part@),
                thread_views(threads@) == thread_views(before) + pv.take(j as int),
            decreases part@.len() - j,
        {
            let t = part[j].duplicate();
            let ghost tb = threads@;
            threads.push(t);
            assert(thread_views(threads@) =~= thread_views(tb).push(t@));
            assert(pv.take(j + 1) =~= pv.take(j as int).push(pv[j as int]));
            j = j + 1;
        }
        assert(pv.take(part@.len() as int) =~= pv);
        proof {
            assert(path_groups(by_path@)[idx as int] == (by_path@[idx as int].0@, comment_views(by_path@[idx as int].1@)));
            let old_groups = groups;
            groups = groups.push(pv);
            assert(groups.drop_last() =~= old_groups);
            assert(groups.flatten_alt() == old_groups.flatten_alt() + pv);
        }
        k = k + 1;
    }
    proof {
        assert(sorted_by_key(kv, order@));
        let g = path_groups(by_path@);
        assert(Seq::new(g.len(), |i: int| path_key(g, i)) =~= kv);
        let o = order@;
        assert({
            &&& is_permutation(o, g.len() as int)
            &&& sorted_by_key(Seq::new(g.len(), |i: int| path_key(g, i)), o)
            &&& groups.len() == g.len()
            &&& (forall|q: int| 0 <= q < groups.len() ==> assembled(g[o[q] as int].0, g[o[q] as int].1, #[trigger] groups[q]))
            &&& thread_views(threads@) == groups.flatten_alt()
        });
    }
    threads
}

/// `l` is what a change loads into from its published comments `human` and
/// robot comments `robot`: the two merged per path, every path's threads
/// assembled in path order, the triagable ones on the change's current
/// patchset selected, and the unresolved threads of earlier patchsets counted.
pub open spec fn loads_from(l: LoadedChange, human: Seq<(Seq<char>, Seq<CommentView>)>, robot: Seq<(Seq<char>, Seq<CommentView>)>) -> bool {
    exists|all: Seq<ThreadView>| {
        &&& #[trigger] assembled_all(merged(human, robot), all)
        &&& thread_views(l.threads.threads@) == triagable(all, spec_current_patch_set(l.change@))
        &&& l.threads.skipped_older_patchsets == count_skipped(all, spec_current_patch_set(l.change@))
    }
}

/// What a change loads into, given Gerrit's answers: the human and robot
/// comments merged per path, every path's threads assembled in path order,
/// and the triagable ones on the change's current patchset selected, with
/// the unresolved threads of earlier patchsets counted.
pub fn loaded_from(change: ChangeInfo, human: Vec<(String, Vec<Comment>)>, robot: &Vec<(String, Vec<Comment>)>)
    -> (r: LoadedChange)
    ensures
        r.change == change,
        loads_from(r, path_groups(human@), path_groups(robot@)),
        forall|i: int| 0 <= i < r.threads.threads@.len()
            ==> is_triagable(#[trigger] r.threads.threads@[i]@, spec_current_patch_set(change@)),
        forall|i: int| 0 <= i < r.threads.threads@.len() ==> thread_wf(#[trigger] r.threads.threads@[i]@),
{
    let by_path = merge_comments(human, &robot);
    let threads = assemble_all(by_path);
    let current = change.current_patch_set();
    proof {
        let g = path_groups(by_path@);
        let ghost (order, groups) = choose|order: Seq<usize>, groups: Seq<Seq<ThreadView>>| {
            &&& is_permutation(order, g.len() as int)
            &&& sorted_by_key(Seq::new(g.len(), |i: int| path_key(g, i)), order)
            &&& groups.len() == g.len()
            &&& (forall|k: int| 0 <= k < groups.len() ==> assembled(g[order[k] as int].0, g[order[k] as int].1, #[trigger] groups[k]))
            &&& thread_views(threads@) == groups.flatten_alt()
        };
        lemma_groups_nonempty_threads(groups);
        assert forall|t: int| 0 <= t < threads@.len() implies (#[trigger] threads@[t])@.comments.len() > 0 by {
            assert(thread_views(threads@)[t] == threads@[t]@);
        }
    }
    let set = select_triagable(threads, current);
    proof {
        lemma_selected_are_triagable(thread_views(threads@), current);
        assert forall|i: int| 0 <= i < set.threads@.len() implies is_triagable(#[trigger] set.threads@[i]@, current) by {
            assert(thread_views(set.threads@)[i] == set.threads@[i]@);
        }
        lemma_selected_come_from_input(thread_views(threads@), current);
        assert forall|i: int| 0 <= i < set.threads@.len() implies thread_wf(#[trigger] set.threads@[i]@) by {
            assert(thread_views(set.threads@)[i] == set.threads@[i]@);
            let tv = thread_views(threads@);
            let w = choose|w: int| 0 <= w < tv.len() && tv[w] == thread_views(set.threads@)[i];
            assert(tv[w] == threads@[w]@);
        }
    }
    LoadedChange { change, threads: set }
}

/// Fetch a change and assemble its triagable threads. Human and robot
/// comments are merged per path before assembly, so a robot comment and a
/// human one on the same file stay separate threads unless `in_reply_to`
/// actually links them.
pub fn load_change<A: GerritApi>(api: &A, change_id: &str) -> (r: Result<LoadedChange, GerritError>)
    ensures
        // The change and both kinds of comment are Gerrit's answers for
        // `change_id`, and what loads is what `loaded_from` makes of them.
        r matches Ok(l) ==> api.change_answer(change_id@, Ok(l.change@))
            && exists|h: GroupsView, rb: GroupsView|
                #![trigger api.comments_answer(change_id@, Ok(h)), api.robot_comments_answer(change_id@, Ok(rb))]
                api.comments_answer(change_id@, Ok(h)) && api.robot_comments_answer(change_id@, Ok(rb)) && loads_from(l, h, rb),
        // A failure is Gerrit's answer to one of the three requests.
        r matches Err(e) ==> api.change_answer(change_id@, Err(e)) || api.comments_answer(change_id@, Err(e))
            || api.robot_comments_answer(change_id@, Err(e)),
        r matches Ok(l) ==> forall|i: int| 0 <= i < l.threads.threads@.len()
            ==> is_triagable(#[trigger] l.threads.threads@[i]@, spec_current_patch_set(l.change@)),
        r matches Ok(l) ==> forall|i: int| 0 <= i < l.threads.threads@.len() ==> thread_wf(#[trigger] l.threads.threads@[i]@),
{
    let change = match api.change(change_id) {
        Ok(c) => c,
        Err(e) => return Err(e),
    };
    let human = match api.comments(change_id) {
        Ok(c) => c,
        Err(e) => return Err(e),
    };
    let robot = match api.robot_comments(change_id) {
        Ok(c) => c,
        Err(e) => return Err(e),
    };
    proof {
        assert(api.change_answer(change_id@, Ok(change@)));
        assert(api.comments_answer(change_id@, Ok(path_groups(human@))));
        assert(api.robot_comments_answer(change_id@, Ok(path_groups(robot@))));
    }
    Ok(loaded_from(change, human, &robot))
}

proof fn lemma_groups_nonempty_threads(groups: Seq<Seq<ThreadView>>)
    requires
        forall|k: int, t: int| 0 <= k < groups.len() && 0 <= t < groups[k].len() ==> (#[trigger] groups[k][t]).comments.len() > 0,
    ensures
        forall|t: int| 0 <= t < groups.flatten_alt().len() ==> (#[trigger] groups.flatten_alt()[t]).comments.len() > 0,
    decreases groups.len(),
{
    if groups.len() > 0 {
        let prefix = groups.drop_last();
        assert forall|k: int, t: int| 0 <= k < prefix.len() && 0 <= t < prefix[k].len() implies (#[trigger] prefix[k][t]).comments.len() > 0 by {
            assert(prefix[k] == groups[k]);
        }
        lemma_groups_nonempty_threads(prefix);
        let f = groups.flatten_alt();
        assert(f == prefix.flatten_alt() + groups.last());
        assert forall|t: int| 0 <= t < f.len() implies (#[trigger] f[t]).comments.len() > 0 by {
            if t < prefix.flatten_alt().len() {
                assert(f[t] == prefix.flatten_alt()[t]);
            } else {
                assert(f[t] == groups.last()[t - prefix.flatten_alt().len()]);
            }
        }
    }
}

} // verus!
