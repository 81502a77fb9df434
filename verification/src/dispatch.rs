use vstd::prelude::*;

use crate::event::Event;
use crate::matcher::Matcher;

verus! {

/// One registered dispatch entry: a description, a priority (higher runs
/// earlier), the matcher that selects events, and the handler invoked on
/// them. Immutable once built.
pub struct MatchUnion<H> {
    pub description: String,
    pub priority: i32,
    pub matcher: Matcher,
    pub handler: H,
}

impl<H> MatchUnion<H> {
    pub fn new(description: String, priority: i32, matcher: Matcher, handler: H) -> (r: MatchUnion<
        H,
    >)
        ensures
            r == (MatchUnion { description, priority, matcher, handler }),
    {
        MatchUnion { description, priority, matcher, handler }
    }
}

/// Dispatch precedence among registered entries: `a` comes before `b`
/// when its priority is higher, or equal with `a` registered earlier.
/// This is the whole ordering: stable, by priority, descending.
pub open spec fn comes_before(priorities: Seq<i32>, a: int, b: int) -> bool {
    priorities[a] > priorities[b] || (priorities[a] == priorities[b] && a < b)
}

/// One insertion step keeps the order sorted, stable and complete:
/// inserting the next registration position right after every entry of
/// no lower priority preserves all three properties.
proof fn lemma_stable_insert(p: Seq<i32>, prev: Seq<usize>, pos: int, idx: usize, ord: Seq<usize>)
    requires
        ord == prev.insert(pos, idx),
        0 <= pos <= prev.len(),
        idx < p.len(),
        forall|k: int| 0 <= k < prev.len() ==> (#[trigger] prev[k]) < idx,
        forall|k1: int, k2: int|
            0 <= k1 < k2 < prev.len() ==> comes_before(p, prev[k1] as int, prev[k2] as int),
        forall|x: int| 0 <= x < idx ==> #[trigger] prev.contains(x as usize),
        forall|k: int| 0 <= k < pos ==> p[#[trigger] prev[k] as int] >= p[idx as int],
        pos == prev.len() || p[prev[pos] as int] < p[idx as int],
    ensures
        ord.len() == prev.len() + 1,
        forall|k: int| 0 <= k < ord.len() ==> (#[trigger] ord[k]) < idx + 1,
        forall|k1: int, k2: int|
            0 <= k1 < k2 < ord.len() ==> comes_before(p, ord[k1] as int, ord[k2] as int),
        forall|x: int| 0 <= x < idx + 1 ==> #[trigger] ord.contains(x as usize),
{
    prev.insert_ensures(pos, idx);
    assert forall|k: int| 0 <= k < ord.len() implies (#[trigger] ord[k]) < idx + 1 by {
        if k < pos {
            assert(ord[k] == prev[k]);
        } else if k > pos {
            assert(ord[k] == prev[k - 1]);
        }
    }
    assert forall|k1: int, k2: int| 0 <= k1 < k2 < ord.len() implies comes_before(
        p,
        ord[k1] as int,
        ord[k2] as int,
    ) by {
        if k2 < pos {
            assert(ord[k1] == prev[k1] && ord[k2] == prev[k2]);
        } else if k1 < pos && k2 == pos {
            assert(ord[k1] == prev[k1] && ord[k2] == idx);
            assert(p[prev[k1] as int] >= p[idx as int]);
            assert(prev[k1] < idx);
        } else if k1 < pos && k2 > pos {
            assert(ord[k1] == prev[k1] && ord[k2] == prev[k2 - 1]);
            assert(comes_before(p, prev[k1] as int, prev[k2 - 1] as int));
        } else if k1 == pos {
            assert(ord[k1] == idx && ord[k2] == prev[k2 - 1]);
            assert(pos < prev.len());
            assert(p[prev[pos] as int] < p[idx as int]);
            if k2 - 1 > pos {
                assert(comes_before(p, prev[pos] as int, prev[k2 - 1] as int));
            }
            assert(p[prev[k2 - 1] as int] < p[idx as int]);
        } else {
            assert(ord[k1] == prev[k1 - 1] && ord[k2] == prev[k2 - 1]);
            assert(comes_before(p, prev[k1 - 1] as int, prev[k2 - 1] as int));
        }
    }
    assert forall|x: int| 0 <= x < idx + 1 implies #[trigger] ord.contains(x as usize) by {
        if x == idx {
            assert(ord[pos] == idx);
        } else {
            assert(prev.contains(x as usize));
            let k0 = choose|k: int| 0 <= k < prev.len() && prev[k] == x as usize;
            if k0 < pos {
                assert(ord[k0] == x as usize);
            } else {
                assert(ord[k0 + 1] == x as usize);
            }
        }
    }
}

/// The dispatch order of the registered priorities: a permutation of the
/// positions, arranged so that higher priorities come first and equal
/// priorities keep their registration order. The contract pins the
/// result completely: there is exactly one such arrangement.
pub fn stable_order(priorities: &Vec<i32>) -> (ord: Vec<usize>)
    ensures
        ord@.len() == priorities@.len(),
        forall|k: int| 0 <= k < ord@.len() ==> (#[trigger] ord@[k]) < priorities@.len(),
        forall|k1: int, k2: int|
            0 <= k1 < k2 < ord@.len() ==> comes_before(
                priorities@,
                ord@[k1] as int,
                ord@[k2] as int,
            ),
        forall|x: int| 0 <= x < priorities@.len() ==> #[trigger] ord@.contains(x as usize),
{
    let n = priorities.len();
    let mut ord: Vec<usize> = Vec::new();
    let mut idx: usize = 0;
    while idx < n
        invariant
            idx <= n,
            n == priorities@.len(),
            ord@.len() == idx,
            forall|k: int| 0 <= k < ord@.len() ==> (#[trigger] ord@[k]) < idx,
            forall|k1: int, k2: int|
                0 <= k1 < k2 < ord@.len() ==> comes_before(
                    priorities@,
                    ord@[k1] as int,
                    ord@[k2] as int,
                ),
            forall|x: int| 0 <= x < idx ==> #[trigger] ord@.contains(x as usize),
        decreases n - idx,
    {
        let mut pos: usize = 0;
        while pos < ord.len() && priorities[ord[pos]] >= priorities[idx]
            invariant
                pos <= ord@.len(),
                idx < n,
                n == priorities@.len(),
                forall|k: int| 0 <= k < ord@.len() ==> (#[trigger] ord@[k]) < idx,
                forall|k: int|
                    0 <= k < pos ==> priorities@[#[trigger] ord@[k] as int] >= priorities@[idx as int],
            decreases ord@.len() - pos,
        {
            pos += 1;
        }
        let ghost prev = ord@;
        ord.insert(pos, idx);
        proof {
            lemma_stable_insert(priorities@, prev, pos as int, idx, ord@);
        }
        idx += 1;
    }
    ord
}

/// The globally sorted dispatch list: every registered match union, with
/// the one dispatch order over them, computed exactly once before any
/// event is dispatched and immutable afterwards. Dispatch tasks share it
/// read-only.
pub struct DispatchTable<H> {
    unions: Vec<MatchUnion<H>>,
    order: Vec<usize>,
}

impl<H> DispatchTable<H> {
    /// The registered entries, in registration order.
    pub closed spec fn spec_unions(&self) -> Seq<MatchUnion<H>> {
        self.unions@
    }

    /// The dispatch order, as positions into the registration order.
    pub closed spec fn spec_order(&self) -> Seq<usize> {
        self.order@
    }

    /// Registered priorities, in registration order.
    pub open spec fn spec_priorities(&self) -> Seq<i32> {
        self.spec_unions().map_values(|mu: MatchUnion<H>| mu.priority)
    }

    /// The order is a permutation of the registration positions, highest
    /// priority first, registration order preserved among equals.
    pub open spec fn inv(&self) -> bool {
        &&& self.spec_order().len() == self.spec_unions().len()
        &&& forall|k: int|
            0 <= k < self.spec_order().len() ==> (#[trigger] self.spec_order()[k])
                < self.spec_unions().len()
        &&& forall|k1: int, k2: int|
            0 <= k1 < k2 < self.spec_order().len() ==> comes_before(
                self.spec_priorities(),
                self.spec_order()[k1] as int,
                self.spec_order()[k2] as int,
            )
        &&& forall|x: int|
            0 <= x < self.spec_unions().len() ==> #[trigger] self.spec_order().contains(x as usize)
    }

    /// Sorts the flattened registrations into the one dispatch order.
    pub fn new(unions: Vec<MatchUnion<H>>) -> (r: DispatchTable<H>)
        ensures
            r.inv(),
            r.spec_unions() == unions@,
    {
        let n = unions.len();
        let mut priorities: Vec<i32> = Vec::new();
        let mut i: usize = 0;
        while i < n
            invariant
                i <= n,
                n == unions@.len(),
                priorities@.len() == i,
                forall|j: int| 0 <= j < i ==> priorities@[j] == unions@[j].priority,
            decreases n - i,
        {
            priorities.push(unions[i].priority);
            i += 1;
        }
        let order = stable_order(&priorities);
        let table = DispatchTable { unions, order };
        proof {
            assert(priorities@ =~= table.spec_priorities());

        }
        table
    }

    /// How many entries the table dispatches over.
    pub fn len(&self) -> (r: usize)
        ensures
            r == self.spec_unions().len(),
    {
        self.unions.len()
    }

    /// The entry at one position of the dispatch order.
    pub open spec fn spec_at(&self, k: int) -> MatchUnion<H> {
        self.spec_unions()[self.spec_order()[k] as int]
    }

    pub fn get(&self, k: usize) -> (r: &MatchUnion<H>)
        requires
            self.inv(),
            k < self.spec_unions().len(),
        ensures
            *r == self.spec_at(k as int),
    {
        &self.unions[self.order[k]]
    }
}

/// What one handler invocation reported: it claimed the event, it passed,
/// or it failed. A failure is logged by the surrounding loop and treated
/// like a pass — it never aborts routing to the remaining candidates.
pub enum HandlerOutcome {
    Handled,
    Pass,
    Error(String),
}

/// The first position at or after `from` in the dispatch order whose
/// matcher matches the event, if any.
pub open spec fn first_candidate_from<H>(table: DispatchTable<H>, event: Event, from: int) -> Option<
    int,
>
    decreases table.spec_order().len() - from,
{
    if from >= table.spec_order().len() {
        None
    } else if table.spec_at(from).matcher.spec_matches(event) {
        Some(from)
    } else {
        first_candidate_from(table, event, from + 1)
    }
}

/// The scan visits every matching entry: from any start at or before a
/// matching position, it finds a candidate, and no later than that
/// position.
pub proof fn lemma_first_candidate_finds<H>(
    table: DispatchTable<H>,
    event: Event,
    from: int,
    k: int,
)
    requires
        0 <= from <= k < table.spec_order().len(),
        table.spec_at(k).matcher.spec_matches(event),
    ensures
        first_candidate_from(table, event, from) matches Some(c) && from <= c <= k,
    decreases k - from,
{
    if from < k && !table.spec_at(from).matcher.spec_matches(event) {
        lemma_first_candidate_finds(table, event, from + 1, k);
    }
}

/// What the scan yields is sound: a candidate matches, and nothing
/// between the start and the candidate does.
pub proof fn lemma_first_candidate_sound<H>(table: DispatchTable<H>, event: Event, from: int)
    requires
        0 <= from,
    ensures
        first_candidate_from(table, event, from) matches Some(c) ==> from <= c
            < table.spec_order().len() && table.spec_at(c).matcher.spec_matches(event) && forall|
            j: int,
        | from <= j < c ==> !(#[trigger] table.spec_at(j)).matcher.spec_matches(event),
        first_candidate_from(table, event, from) is None ==> forall|j: int|
            from <= j < table.spec_order().len() ==> !(#[trigger] table.spec_at(
                j,
            )).matcher.spec_matches(event),
    decreases table.spec_order().len() - from,
{
    if from < table.spec_order().len() && !table.spec_at(from).matcher.spec_matches(event) {
        lemma_first_candidate_sound(table, event, from + 1);
    }
}

/// Short-circuit law. Take two entries of the dispatch order that both
/// match one event, the first before the second. A fresh walk reaches a
/// candidate no later than the first. If the handler invoked there
/// claims the event, `record` stops the walk and `next_candidate`
/// yields nothing more, so the second entry is never invoked; if it
/// passes or fails, the walk continued after it reaches a candidate no
/// later than the second, so the second entry is still reached.
pub proof fn lemma_short_circuit<H>(table: DispatchTable<H>, event: Event, k1: int, k2: int)
    requires
        0 <= k1 < k2 < table.spec_order().len(),
        table.spec_at(k1).matcher.spec_matches(event),
        table.spec_at(k2).matcher.spec_matches(event),
    ensures
        first_candidate_from(table, event, 0) matches Some(c1) && c1 <= k1,
        first_candidate_from(table, event, k1 + 1) matches Some(c2) && k1 < c2 <= k2,
{
    lemma_first_candidate_finds(table, event, 0, k1);
    lemma_first_candidate_finds(table, event, k1 + 1, k2);
    lemma_first_candidate_sound(table, event, 0);
    lemma_first_candidate_sound(table, event, k1 + 1);
}

/// One dispatch task's walk over the table for one event. Candidates are
/// handed out in dispatch order; reporting `Handled` ends the walk, while
/// `Pass` and `Error` let it continue — an error from one handler never
/// aborts routing to the remaining candidates. Each event gets a fresh
/// walk; walks of different events share nothing.
pub struct DispatchRun {
    cursor: usize,
    stopped: bool,
}

impl DispatchRun {
    /// Positions before this one have been consulted already.
    pub closed spec fn spec_cursor(&self) -> int {
        self.cursor as int
    }

    /// Whether some handler claimed the event.
    pub closed spec fn spec_stopped(&self) -> bool {
        self.stopped
    }

    pub fn new() -> (r: DispatchRun)
        ensures
            r.spec_cursor() == 0,
            !r.spec_stopped(),
    {
        DispatchRun { cursor: 0, stopped: false }
    }

    /// The next entry whose matcher matches the event, in dispatch order,
    /// or `None` once the event was claimed or the order is exhausted.
    /// The caller invokes the candidate's handler and reports the outcome
    /// through `record`.
    pub fn next_candidate<H>(&mut self, table: &DispatchTable<H>, event: &Event) -> (r: Option<
        usize,
    >)
        requires
            table.inv(),
        ensures
            final(self).spec_stopped() == old(self).spec_stopped(),
            old(self).spec_stopped() ==> r is None && *final(self) == *old(self),
            !old(self).spec_stopped() ==> match first_candidate_from(
                *table,
                *event,
                old(self).spec_cursor(),
            ) {
                Some(c) => r == Some(c as usize) && final(self).spec_cursor() == c + 1,
                None => r is None,
            },
    {
        if self.stopped {
            return None;
        }
        let n = table.len();
        let mut k = self.cursor;
        while k < n
            invariant
                table.inv(),
                n == table.spec_unions().len(),
                *self == *old(self),
                !old(self).spec_stopped(),
                old(self).spec_cursor() <= k,
                first_candidate_from(*table, *event, old(self).spec_cursor())
                    == first_candidate_from(*table, *event, k as int),
            decreases n - k,
        {
            if table.get(k).matcher.is_match(event) {
                proof {
                    assert(first_candidate_from(*table, *event, k as int) == Some(k as int));
                }
                self.cursor = k + 1;
                return Some(k);
            }
            proof {
                assert(first_candidate_from(*table, *event, k as int) == first_candidate_from(
                    *table,
                    *event,
                    k + 1,
                ));
            }
            k += 1;
        }
        proof {
            assert(first_candidate_from(*table, *event, k as int) is None);
        }
        None
    }

    /// Records what the invoked handler reported: `Handled` claims the
    /// event and ends the walk; `Pass` and `Error` leave it running.
    pub fn record(&mut self, outcome: &HandlerOutcome)
        ensures
            final(self).spec_cursor() == old(self).spec_cursor(),
            final(self).spec_stopped() == (old(self).spec_stopped() || *outcome is Handled),
    {
        if matches!(outcome, HandlerOutcome::Handled) {
            self.stopped = true;
        }
    }
}

} // verus!
