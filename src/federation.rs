use vstd::prelude::*;

use crate::model::{copy_coordinate, Library, ResolverError, SearchEntity, SearchResponse};
use crate::namespace::{belongs_to, in_namespace, tag, tagged};

verus! {

/// The text of each string.
pub open spec fn texts(v: Seq<String>) -> Seq<Seq<char>> {
    v.map_values(|s: String| s@)
}

/// The ids among `ids` that lie in the namespace of `rid`, in their order.
pub open spec fn ids_for(ids: Seq<Seq<char>>, rid: Seq<char>) -> Seq<Seq<char>>
    decreases ids.len(),
{
    if ids.len() == 0 {
        seq![]
    } else {
        let rest = ids_for(ids.drop_last(), rid);
        if in_namespace(ids.last(), rid) {
            rest.push(ids.last())
        } else {
            rest
        }
    }
}

/// The resolvers that a search over `ids` reaches, each with its share of the
/// ids, in the order of the registry.
pub open spec fn planned(rids: Seq<Seq<char>>, ids: Seq<Seq<char>>) -> Seq<(int, Seq<Seq<char>>)>
    decreases rids.len(),
{
    if rids.len() == 0 {
        seq![]
    } else {
        let before = planned(rids.drop_last(), ids);
        let share = ids_for(ids, rids.last());
        if share.len() > 0 {
            before.push(((rids.len() - 1) as int, share))
        } else {
            before
        }
    }
}

/// One resolver's share of a search: its place in the registry and the ids
/// of the request that lie in its namespace.
pub struct SearchTask {
    pub resolver: usize,
    pub library_ids: Vec<String>,
}

/// What a list of tasks says, over plain values.
pub open spec fn task_views(tasks: Seq<SearchTask>) -> Seq<(int, Seq<Seq<char>>)> {
    tasks.map_values(|t: SearchTask| (t.resolver as int, texts(t.library_ids@)))
}

/// The ids among `ids` that lie in the namespace of `rid`.
pub fn ids_in_namespace(ids: &Vec<String>, rid: &str) -> (r: Vec<String>)
    ensures
        texts(r@) == ids_for(texts(ids@), rid@),
{
    let mut r: Vec<String> = Vec::new();
    let ghost all = texts(ids@);
    let mut j: usize = 0;
    while j < ids.len()
        invariant
            j <= ids@.len(),
            all == texts(ids@),
            texts(r@) == ids_for(all.take(j as int), rid@),
        decreases ids.len() - j,
    {
        let id = &ids[j];
        let keep = belongs_to(id.as_str(), rid);
        let ghost before = r@;
        if keep {
            r.push(id.clone());
            assert(texts(r@) =~= texts(before).push(all[j as int]));
        }
        assert(all.take(j + 1).drop_last() =~= all.take(j as int));
        j += 1;
    }
    assert(all.take(j as int) =~= all);
    r
}

/// Splits the ids of a search request among the resolvers of the registry,
/// whose ids are `resolver_ids`. A resolver with no id in the request gets no
/// task; an id in no resolver's namespace goes to none.
pub fn plan_search(resolver_ids: &Vec<String>, library_ids: &Vec<String>) -> (r: Vec<SearchTask>)
    ensures
        task_views(r@) == planned(texts(resolver_ids@), texts(library_ids@)),
{
    let ghost rids = texts(resolver_ids@);
    let ghost ids = texts(library_ids@);
    let mut r: Vec<SearchTask> = Vec::new();
    let mut i: usize = 0;
    while i < resolver_ids.len()
        invariant
            i <= resolver_ids@.len(),
            rids == texts(resolver_ids@),
            ids == texts(library_ids@),
            task_views(r@) == planned(rids.take(i as int), ids),
        decreases resolver_ids.len() - i,
    {
        let share = ids_in_namespace(library_ids, resolver_ids[i].as_str());
        let ghost before = r@;
        assert(rids.take(i + 1).drop_last() =~= rids.take(i as int));
        assert(rids.take(i + 1).last() == rids[i as int]);
        if share.len() > 0 {
            r.push(SearchTask { resolver: i, library_ids: share });
            assert(task_views(r@) =~= task_views(before).push((i as int, texts(share@))));
        }
        i += 1;
    }
    assert(rids.take(i as int) =~= rids);
    r
}

/// An id is kept for `rid` exactly when the request holds it and it lies in
/// the namespace of `rid`.
pub proof fn lemma_ids_for_members(ids: Seq<Seq<char>>, rid: Seq<char>, x: Seq<char>)
    ensures
        ids_for(ids, rid).contains(x) <==> (ids.contains(x) && in_namespace(x, rid)),
    decreases ids.len(),
{
    if ids.len() > 0 {
        let d = ids.drop_last();
        let l = ids.last();
        lemma_ids_for_members(d, rid, x);
        let rest = ids_for(d, rid);
        assert(ids.contains(x) <==> (d.contains(x) || l == x)) by {
            if ids.contains(x) {
                let i = choose|i: int| 0 <= i < ids.len() && ids[i] == x;
                if i < d.len() {
                    assert(d[i] == x);
                }
            }
            if d.contains(x) {
                let i = choose|i: int| 0 <= i < d.len() && d[i] == x;
                assert(ids[i] == x);
            }
            if l == x {
                assert(ids[ids.len() - 1] == x);
            }
        }
        if in_namespace(l, rid) {
            assert(rest.push(l).contains(x) <==> (rest.contains(x) || l == x)) by {
                if rest.push(l).contains(x) {
                    let i = choose|i: int| 0 <= i < rest.len() + 1 && rest.push(l)[i] == x;
                    if i < rest.len() {
                        assert(rest[i] == x);
                    }
                }
                if rest.contains(x) {
                    let i = choose|i: int| 0 <= i < rest.len() && rest[i] == x;
                    assert(rest.push(l)[i] == x);
                }
                if l == x {
                    assert(rest.push(l)[rest.len() as int] == x);
                }
            }
        }
    }
}

/// Search partitioning: a resolver of the registry gets a task if and only if
/// an id of the request lies in its namespace; each task goes to a resolver of
/// the registry, at most one task to each, and holds exactly the ids of the
/// request that lie in that resolver's namespace.
pub proof fn lemma_search_partitioning(rids: Seq<Seq<char>>, ids: Seq<Seq<char>>)
    ensures
        forall|k: int|
            0 <= k < planned(rids, ids).len() ==> {
                let (i, share) = #[trigger] planned(rids, ids)[k];
                &&& 0 <= i < rids.len()
                &&& share == ids_for(ids, rids[i])
                &&& share.len() > 0
            },
        forall|k: int, l: int|
            0 <= k < l < planned(rids, ids).len() ==> #[trigger] planned(rids, ids)[k].0
                < #[trigger] planned(rids, ids)[l].0,
        forall|i: int|
            0 <= i < rids.len() ==> ((exists|k: int|
                0 <= k < planned(rids, ids).len() && #[trigger] planned(rids, ids)[k].0 == i)
                <==> ids_for(ids, #[trigger] rids[i]).len() > 0),
        forall|rid: Seq<char>, x: Seq<char>|
            #[trigger] ids_for(ids, rid).contains(x) <==> (ids.contains(x) && in_namespace(x, rid)),
    decreases rids.len(),
{
    assert forall|rid: Seq<char>, x: Seq<char>|
        #[trigger] ids_for(ids, rid).contains(x) <==> (ids.contains(x) && in_namespace(x, rid)) by {
        lemma_ids_for_members(ids, rid, x);
    }
    if rids.len() > 0 {
        let front = rids.drop_last();
        lemma_search_partitioning(front, ids);
        let p = planned(rids, ids);
        let q = planned(front, ids);
        assert forall|j: int| 0 <= j < front.len() implies front[j] == rids[j] by {}
        assert forall|k: int| 0 <= k < q.len() implies p[k] == q[k] by {}
        assert forall|k: int| 0 <= k < q.len() implies q[k].0 < rids.len() - 1 by {}
        assert forall|i: int|
            0 <= i < rids.len() implies ((exists|k: int| 0 <= k < p.len() && #[trigger] p[k].0 == i)
                <==> ids_for(ids, #[trigger] rids[i]).len() > 0) by {
            if i < rids.len() - 1 {
                assert(front[i] == rids[i]);
                if exists|k: int| 0 <= k < p.len() && #[trigger] p[k].0 == i {
                    let k = choose|k: int| 0 <= k < p.len() && #[trigger] p[k].0 == i;
                    if k >= q.len() {
                        assert(p[k].0 == rids.len() - 1);
                    }
                    assert(q[k].0 == i);
                }
                if ids_for(ids, rids[i]).len() > 0 {
                    let k = choose|k: int| 0 <= k < q.len() && #[trigger] q[k].0 == i;
                    assert(p[k].0 == i);
                }
            } else {
                if ids_for(ids, rids[i]).len() > 0 {
                    assert(p[q.len() as int].0 == i);
                }
            }
        }
    }
}

/// A library as resolver `rid` hands it on: `t` is `l` with its id tagged.
pub open spec fn tagged_library(rid: Seq<char>, l: Library, t: Library) -> bool {
    &&& t.id@ == tagged(rid, l.id@)
    &&& t.name == l.name
    &&& t.coordinate == l.coordinate
}

/// What one resolver's worker of a "list libraries" call came back with; an
/// error stands for a failure or a deadline that passed.
pub struct LibraryOutcome {
    pub resolver_id: String,
    pub result: Result<Vec<Library>, ResolverError>,
}

/// The libraries that the outcomes bring, each beside the id of the resolver
/// that gave it, in the order of the outcomes and within each in its order.
pub open spec fn contributed(outs: Seq<LibraryOutcome>) -> Seq<(Seq<char>, Library)>
    decreases outs.len(),
{
    if outs.len() == 0 {
        seq![]
    } else {
        let before = contributed(outs.drop_last());
        let last = outs.last();
        match last.result {
            Ok(libs) => before + libs@.map_values(|l: Library| (last.resolver_id@, l)),
            Err(_) => before,
        }
    }
}

/// Outcome `o` succeeded for resolver `rid` and holds `l`.
pub open spec fn gave(o: LibraryOutcome, rid: Seq<char>, l: Library) -> bool {
    &&& o.result is Ok
    &&& o.resolver_id@ == rid
    &&& o.result->Ok_0@.contains(l)
}

/// Some outcome among `outs` succeeded for resolver `e.0` and holds `e.1`.
pub open spec fn sourced(outs: Seq<LibraryOutcome>, e: (Seq<char>, Library)) -> bool {
    exists|i: int| 0 <= i < outs.len() && gave(#[trigger] outs[i], e.0, e.1)
}

/// A copy of `l` whose id is tagged with the namespace of `rid`.
pub fn tag_library(rid: &str, l: &Library) -> (r: Library)
    ensures
        tagged_library(rid@, *l, r),
{
    let coordinate = match &l.coordinate {
        Some(c) => Some(copy_coordinate(c)),
        None => None,
    };
    Library { id: tag(rid, l.id.as_str()), name: l.name.clone(), coordinate }
}

/// The union of what every resolver's worker gathered: the libraries of each
/// outcome that succeeded, tagged with its resolver's namespace, and nothing of
/// an outcome that failed.
pub fn merge_libraries(outcomes: &Vec<LibraryOutcome>) -> (r: Vec<Library>)
    ensures
        r@.len() == contributed(outcomes@).len(),
        forall|k: int|
            0 <= k < r@.len() ==> tagged_library(
                #[trigger] contributed(outcomes@)[k].0,
                contributed(outcomes@)[k].1,
                r@[k],
            ),
{
    let ghost outs = outcomes@;
    let mut r: Vec<Library> = Vec::new();
    let mut i: usize = 0;
    while i < outcomes.len()
        invariant
            i <= outs.len(),
            outs == outcomes@,
            r@.len() == contributed(outs.take(i as int)).len(),
            forall|k: int|
                0 <= k < r@.len() ==> tagged_library(
                    #[trigger] contributed(outs.take(i as int))[k].0,
                    contributed(outs.take(i as int))[k].1,
                    r@[k],
                ),
        decreases outcomes.len() - i,
    {
        let outcome = &outcomes[i];
        assert(outs.take(i + 1).drop_last() =~= outs.take(i as int));
        assert(outs.take(i + 1).last() == outs[i as int]);
        let ghost before = contributed(outs.take(i as int));
        match &outcome.result {
            Ok(libs) => {
                let ghost added = libs@.map_values(|l: Library| (outcome.resolver_id@, l));
                assert(contributed(outs.take(i + 1)) == before + added);
                let mut j: usize = 0;
                while j < libs.len()
                    invariant
                        j <= libs@.len(),
                        added == libs@.map_values(|l: Library| (outcome.resolver_id@, l)),
                        r@.len() == before.len() + j,
                        forall|k: int|
                            0 <= k < r@.len() ==> tagged_library(
                                #[trigger] (before + added)[k].0,
                                (before + added)[k].1,
                                r@[k],
                            ),
                    decreases libs.len() - j,
                {
                    let t = tag_library(outcome.resolver_id.as_str(), &libs[j]);
                    let ghost prev = r@;
                    r.push(t);
                    assert((before + added)[before.len() + j] == added[j as int]);
                    assert(added[j as int] == (outcome.resolver_id@, libs@[j as int]));
                    assert forall|k: int| 0 <= k < r@.len() implies tagged_library(
                        #[trigger] (before + added)[k].0,
                        (before + added)[k].1,
                        r@[k],
                    ) by {
                        if k < prev.len() {
                            assert(r@[k] == prev[k]);
                        }
                    }
                    j += 1;
                }
            },
            Err(_) => {
                assert(contributed(outs.take(i + 1)) == before);
            },
        }
        i += 1;
    }
    assert(outs.take(i as int) =~= outs);
    r
}

/// Everything gathered comes from an outcome that succeeded, and every library
/// of such an outcome is gathered.
pub proof fn lemma_contributed_sources(outs: Seq<LibraryOutcome>)
    ensures
        forall|k: int|
            0 <= k < contributed(outs).len() ==> sourced(outs, #[trigger] contributed(outs)[k]),
        forall|i: int, j: int|
            0 <= i < outs.len() && outs[i].result is Ok && 0 <= j
                < outs[i].result->Ok_0@.len() ==> contributed(outs).contains(
                (outs[i].resolver_id@, #[trigger] outs[i].result->Ok_0@[j]),
            ),
    decreases outs.len(),
{
    if outs.len() > 0 {
        let front = outs.drop_last();
        lemma_contributed_sources(front);
        let c = contributed(outs);
        let b = contributed(front);
        let n = (outs.len() - 1) as int;
        assert forall|i: int| 0 <= i < front.len() implies front[i] == outs[i] by {}
        assert forall|k: int|
            0 <= k < c.len() implies sourced(outs, #[trigger] c[k]) by {
            if k < b.len() {
                assert(c[k] == b[k]);
                assert(sourced(front, b[k]));
                let i = choose|i: int| 0 <= i < front.len() && gave(#[trigger] front[i], b[k].0, b[k].1);
                assert(outs[i] == front[i]);
                assert(gave(outs[i], c[k].0, c[k].1));
            } else {
                let libs = outs[n].result->Ok_0;
                assert(c[k].1 == libs@[k - b.len()]);
                assert(libs@.contains(c[k].1));
                assert(gave(outs[n], c[k].0, c[k].1));
            }
        }
        assert forall|i: int, j: int|
            0 <= i < outs.len() && outs[i].result is Ok && 0 <= j
                < outs[i].result->Ok_0@.len() implies c.contains(
                (outs[i].resolver_id@, #[trigger] outs[i].result->Ok_0@[j]),
            ) by {
            let e = (outs[i].resolver_id@, outs[i].result->Ok_0@[j]);
            if i < n {
                assert(front[i] == outs[i]);
                assert(b.contains(e));
                let k = choose|k: int| 0 <= k < b.len() && b[k] == e;
                assert(c[k] == e);
            } else {
                assert(c[b.len() + j] == e);
            }
        }
    }
}

/// Partial-failure isolation for "list libraries": when resolver `a` failed
/// and resolver `b` succeeded, every library of `b` is in the union, and none
/// of what is gathered is credited to `a`.
pub proof fn lemma_library_failure_isolation(outs: Seq<LibraryOutcome>, a: int, b: int)
    requires
        0 <= a < outs.len(),
        0 <= b < outs.len(),
        outs[a].result is Err,
        outs[b].result is Ok,
        forall|i: int, j: int|
            0 <= i < j < outs.len() ==> #[trigger] outs[i].resolver_id@
                != #[trigger] outs[j].resolver_id@,
    ensures
        forall|j: int|
            0 <= j < outs[b].result->Ok_0@.len() ==> contributed(outs).contains(
                (outs[b].resolver_id@, #[trigger] outs[b].result->Ok_0@[j]),
            ),
        forall|k: int|
            0 <= k < contributed(outs).len() ==> #[trigger] contributed(outs)[k].0
                != outs[a].resolver_id@,
{
    lemma_contributed_sources(outs);
    assert forall|j: int|
        0 <= j < outs[b].result->Ok_0@.len() implies contributed(outs).contains(
            (outs[b].resolver_id@, #[trigger] outs[b].result->Ok_0@[j]),
        ) by {
        assert(outs[b].result is Ok);
    }
    assert forall|k: int| 0 <= k < contributed(outs).len() implies #[trigger] contributed(outs)[k].0
        != outs[a].resolver_id@ by {
        assert(sourced(outs, contributed(outs)[k]));
        let i = choose|i: int|
            0 <= i < outs.len() && gave(
                #[trigger] outs[i],
                contributed(outs)[k].0,
                contributed(outs)[k].1,
            );
        if i < a {
            assert(outs[i].resolver_id@ != outs[a].resolver_id@);
        } else if a < i {
            assert(outs[a].resolver_id@ != outs[i].resolver_id@);
        }
    }
}

/// What the stream does with one worker's outcome.
pub enum StreamAction {
    /// Send this message to the caller now.
    Emit(SearchResponse),
    /// The worker failed or its deadline passed: record it and send nothing.
    Skip(ResolverError),
    /// The worker had already been accounted for: send nothing.
    Discard,
}

/// Which workers are still owed an outcome, after worker `w` reported.
pub open spec fn settle(pending: Seq<bool>, w: int) -> Seq<bool> {
    if 0 <= w < pending.len() {
        pending.update(w, false)
    } else {
        pending
    }
}

/// Which workers are still owed an outcome after the workers `ws` reported, in
/// that order.
pub open spec fn settle_all(pending: Seq<bool>, ws: Seq<int>) -> Seq<bool>
    decreases ws.len(),
{
    if ws.len() == 0 {
        pending
    } else {
        settle(settle_all(pending, ws.drop_last()), ws.last())
    }
}

/// No worker is owed an outcome.
pub open spec fn all_settled(pending: Seq<bool>) -> bool {
    forall|i: int| 0 <= i < pending.len() ==> !#[trigger] pending[i]
}

/// The state of one search stream: which of its workers have not yet
/// reported, by their place in the plan.
pub struct SearchRun {
    pub pending: Vec<bool>,
}

impl SearchRun {
    /// A stream over `workers` workers, none of which has reported.
    pub fn new(workers: usize) -> (r: SearchRun)
        ensures
            r.pending@ == Seq::new(workers as nat, |i: int| true),
    {
        let mut pending: Vec<bool> = Vec::new();
        let mut i: usize = 0;
        while i < workers
            invariant
                i <= workers,
                pending@ == Seq::new(i as nat, |k: int| true),
            decreases workers - i,
        {
            pending.push(true);
            i += 1;
            assert(pending@ =~= Seq::new(i as nat, |k: int| true));
        }
        SearchRun { pending }
    }

    /// Takes worker `worker`'s outcome as soon as it arrives. A success of a
    /// worker that is still owed is emitted at once, whole; a failure is
    /// skipped; anything from a worker already accounted for is discarded.
    pub fn on_outcome(&mut self, worker: usize, outcome: Result<Vec<SearchEntity>, ResolverError>) -> (r: StreamAction)
        ensures
            final(self).pending@ == settle(old(self).pending@, worker as int),
            (worker < old(self).pending@.len() && old(self).pending@[worker as int]) ==> match outcome {
                Ok(entities) => r == StreamAction::Emit(SearchResponse { entities }),
                Err(e) => r == StreamAction::Skip(e),
            },
            !(worker < old(self).pending@.len() && old(self).pending@[worker as int]) ==> r is Discard,
    {
        if worker < self.pending.len() && self.pending[worker] {
            self.pending.set(worker, false);
            match outcome {
                Ok(entities) => StreamAction::Emit(SearchResponse { entities }),
                Err(e) => StreamAction::Skip(e),
            }
        } else {
            StreamAction::Discard
        }
    }

    /// Tells whether every worker has reported, so that the stream ends.
    pub fn is_finished(&self) -> (r: bool)
        ensures
            r == all_settled(self.pending@),
    {
        let mut i: usize = 0;
        while i < self.pending.len()
            invariant
                i <= self.pending@.len(),
                forall|k: int| 0 <= k < i ==> !#[trigger] self.pending@[k],
            decreases self.pending.len() - i,
        {
            if self.pending[i] {
                return false;
            }
            i += 1;
        }
        true
    }
}

/// Workers that reported stay settled, and the others keep their state.
pub proof fn lemma_settle_all(pending: Seq<bool>, ws: Seq<int>)
    ensures
        settle_all(pending, ws).len() == pending.len(),
        forall|i: int|
            0 <= i < pending.len() ==> (#[trigger] settle_all(pending, ws)[i] == (pending[i]
                && !ws.contains(i))),
    decreases ws.len(),
{
    if ws.len() > 0 {
        let front = ws.drop_last();
        lemma_settle_all(pending, front);
        assert forall|i: int| 0 <= i < pending.len() implies (#[trigger] settle_all(pending, ws)[i]
            == (pending[i] && !ws.contains(i))) by {
            assert(ws.contains(i) <==> (front.contains(i) || ws.last() == i)) by {
                if ws.contains(i) {
                    let j = choose|j: int| 0 <= j < ws.len() && ws[j] == i;
                    if j < front.len() {
                        assert(front[j] == i);
                    }
                }
                if front.contains(i) {
                    let j = choose|j: int| 0 <= j < front.len() && front[j] == i;
                    assert(ws[j] == i);
                }
                if ws.last() == i {
                    assert(ws[ws.len() - 1] == i);
                }
            }
        }
    }
}

/// Deadline bound: once every worker of a stream has reported, by a result,
/// an error or its deadline, the stream is finished.
pub proof fn lemma_stream_ends(workers: nat, ws: Seq<int>)
    requires
        forall|i: int| 0 <= i < workers ==> ws.contains(i),
    ensures
        all_settled(settle_all(Seq::new(workers, |i: int| true), ws)),
{
    lemma_settle_all(Seq::new(workers, |i: int| true), ws);
}

/// Partial-failure isolation for search: one worker's failure settles only
/// that worker, emits nothing, and leaves every other worker owed, so that a
/// later success of another worker is still emitted whole.
pub proof fn lemma_search_failure_isolation(pending: Seq<bool>, a: int, b: int)
    requires
        0 <= a < pending.len(),
        0 <= b < pending.len(),
        a != b,
        pending[b],
    ensures
        settle(pending, a)[b],
        settle(settle(pending, a), b)[a] == false,
        settle(settle(pending, a), b)[b] == false,
{
}

} // verus!
