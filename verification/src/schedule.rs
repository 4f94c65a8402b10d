use vstd::prelude::*;

verus! {

/// A data edge between two nodes of a graph, by their positions in its node list.
#[derive(Clone, Copy, Debug, PartialEq, Eq, Structural)]
pub struct Link {
    pub source: usize,
    pub target: usize,
}

/// Every link joins two of the `count` nodes.
pub open spec fn links_in_range(count: nat, links: Seq<Link>) -> bool {
    forall|l: int|
        0 <= l < links.len() ==> (#[trigger] links[l]).source < count && links[l].target < count
}

/// A node is ready once every node that feeds one of its input edges is among `done`.
pub open spec fn ready(links: Seq<Link>, done: Seq<usize>, node: usize) -> bool {
    forall|l: int|
        0 <= l < links.len() && (#[trigger] links[l]).target == node ==> done.contains(
            links[l].source,
        )
}

/// `schedule[k]` may run as the `k`-th node: it is a node, it has not run before, and
/// it is ready after the nodes before it.
pub open spec fn step_allowed(count: nat, links: Seq<Link>, schedule: Seq<usize>, k: int) -> bool {
    &&& schedule[k] < count
    &&& !schedule.take(k).contains(schedule[k])
    &&& ready(links, schedule.take(k), schedule[k])
}

/// `schedule[k]` is the first node, in declaration order, that may run as the `k`-th.
pub open spec fn step_first(links: Seq<Link>, schedule: Seq<usize>, k: int) -> bool {
    forall|i: usize|
        i < schedule[k] ==> schedule.take(k).contains(i) || !#[trigger] ready(
            links,
            schedule.take(k),
            i,
        )
}

/// `schedule` runs some of the nodes, each at most once and none before the nodes that
/// feed it.
pub open spec fn is_partial_schedule(count: nat, links: Seq<Link>, schedule: Seq<usize>) -> bool {
    forall|k: int| 0 <= k < schedule.len() ==> #[trigger] step_allowed(count, links, schedule, k)
}

/// `schedule` runs every node exactly once and none before the nodes that feed it.
pub open spec fn is_schedule(count: nat, links: Seq<Link>, schedule: Seq<usize>) -> bool {
    schedule.len() == count && is_partial_schedule(count, links, schedule)
}

/// Among the nodes that may run next, `schedule` always takes the one declared first.
pub open spec fn is_declaration_first(links: Seq<Link>, schedule: Seq<usize>) -> bool {
    forall|k: int| 0 <= k < schedule.len() ==> #[trigger] step_first(links, schedule, k)
}

/// The graph has no cycle: its nodes can be run one after another, data first.
pub open spec fn acyclic(count: nat, links: Seq<Link>) -> bool {
    exists|schedule: Seq<usize>| is_schedule(count, links, schedule)
}

/// A partial schedule holds no node twice.
pub proof fn lemma_schedule_distinct(count: nat, links: Seq<Link>, schedule: Seq<usize>)
    requires
        is_partial_schedule(count, links, schedule),
    ensures
        schedule.no_duplicates(),
{
    assert forall|i: int, j: int|
        0 <= i < schedule.len() && 0 <= j < schedule.len() && i != j implies schedule[i]
        != schedule[j] by {
        let (lo, hi) = if i < j {
            (i, j)
        } else {
            (j, i)
        };
        assert(step_allowed(count, links, schedule, hi));
        assert(schedule.take(hi)[lo] == schedule[lo]);
    }
}

/// Two schedules of one graph that both take the node declared first run the same
/// nodes up to any step.
proof fn lemma_schedules_agree(
    count: nat,
    links: Seq<Link>,
    one: Seq<usize>,
    other: Seq<usize>,
    k: int,
)
    requires
        is_schedule(count, links, one),
        is_declaration_first(links, one),
        is_schedule(count, links, other),
        is_declaration_first(links, other),
        0 <= k <= count,
    ensures
        one.take(k) == other.take(k),
    decreases k,
{
    if k == 0 {
        assert(one.take(0) =~= other.take(0));
    } else {
        lemma_schedules_agree(count, links, one, other, k - 1);
        let done = one.take(k - 1);
        assert(step_allowed(count, links, one, k - 1));
        assert(step_allowed(count, links, other, k - 1));
        assert(step_first(links, one, k - 1));
        assert(step_first(links, other, k - 1));
        if other[k - 1] < one[k - 1] {
            assert(done.contains(other[k - 1]) || !ready(links, done, other[k - 1]));
        }
        if one[k - 1] < other[k - 1] {
            assert(done.contains(one[k - 1]) || !ready(links, done, one[k - 1]));
        }
        assert(one.take(k) =~= one.take(k - 1).push(one[k - 1]));
        assert(other.take(k) =~= other.take(k - 1).push(other[k - 1]));
    }
}

/// A graph has one schedule at most that takes, at every step, the ready node that
/// was declared first.
pub proof fn lemma_schedule_unique(
    count: nat,
    links: Seq<Link>,
    one: Seq<usize>,
    other: Seq<usize>,
)
    requires
        is_schedule(count, links, one),
        is_declaration_first(links, one),
        is_schedule(count, links, other),
        is_declaration_first(links, other),
    ensures
        one == other,
{
    lemma_schedules_agree(count, links, one, other, count as int);
    assert(one.take(count as int) =~= one);
    assert(other.take(count as int) =~= other);
}

/// Where a partial schedule is stuck, because each node has either run or waits for a
/// node that has not, no schedule of the whole graph runs a node that is missing from it.
proof fn lemma_stuck_covers(
    count: nat,
    links: Seq<Link>,
    stuck: Seq<usize>,
    full: Seq<usize>,
    k: int,
)
    requires
        forall|i: usize| i < count ==> stuck.contains(i) || !#[trigger] ready(links, stuck, i),
        is_schedule(count, links, full),
        0 <= k <= count,
    ensures
        forall|j: int| 0 <= j < k ==> stuck.contains(#[trigger] full[j]),
    decreases k,
{
    if k > 0 {
        lemma_stuck_covers(count, links, stuck, full, k - 1);
        let node = full[k - 1];
        assert(step_allowed(count, links, full, k - 1));
        assert forall|l: int|
            0 <= l < links.len() && (#[trigger] links[l]).target == node implies stuck.contains(
            links[l].source,
        ) by {
            let before = full.take(k - 1);
            assert(before.contains(links[l].source));
            let j = choose|j: int| 0 <= j < before.len() && before[j] == links[l].source;
            assert(full[j] == links[l].source);
        }
        assert(ready(links, stuck, node));
    }
}

/// A stuck partial schedule that leaves a node out shows that the graph has a cycle.
pub proof fn lemma_stuck_is_cyclic(count: nat, links: Seq<Link>, stuck: Seq<usize>)
    requires
        stuck.len() < count,
        forall|i: usize| i < count ==> stuck.contains(i) || !#[trigger] ready(links, stuck, i),
    ensures
        !acyclic(count, links),
{
    if acyclic(count, links) {
        let full = choose|schedule: Seq<usize>| is_schedule(count, links, schedule);
        lemma_stuck_covers(count, links, stuck, full, count as int);
        lemma_schedule_distinct(count, links, full);
        full.unique_seq_to_set();
        stuck.lemma_cardinality_of_set();
        assert(full.to_set().subset_of(stuck.to_set())) by {
            assert forall|x: usize| full.to_set().contains(x) implies stuck.to_set().contains(
                x,
            ) by {
                let j = choose|j: int| 0 <= j < full.len() && full[j] == x;
                assert(stuck.contains(full[j]));
            }
        }
        vstd::seq_lib::seq_to_set_is_finite(stuck);
        vstd::set_lib::lemma_len_subset(full.to_set(), stuck.to_set());
    }
}

/// Whether every node that feeds `node` is marked in `placed`.
fn is_ready(
    links: &Vec<Link>,
    placed: &Vec<bool>,
    node: usize,
    Ghost(done): Ghost<Seq<usize>>,
) -> (yes: bool)
    requires
        links_in_range(placed.len() as nat, links@),
        forall|i: usize| i < placed.len() ==> placed@[i as int] == done.contains(i),
    ensures
        yes == ready(links@, done, node),
{
    let mut l: usize = 0;
    while l < links.len()
        invariant
            l <= links.len(),
            links_in_range(placed.len() as nat, links@),
            forall|i: usize| i < placed.len() ==> placed@[i as int] == done.contains(i),
            forall|m: int|
                0 <= m < l && (#[trigger] links@[m]).target == node ==> done.contains(
                    links@[m].source,
                ),
        decreases links.len() - l,
    {
        let link = links[l];
        if link.target == node && !placed[link.source] {
            return false;
        }
        l += 1;
    }
    true
}

/// The first node, in declaration order, that has not run and is ready.
fn next_ready(
    links: &Vec<Link>,
    placed: &Vec<bool>,
    Ghost(done): Ghost<Seq<usize>>,
) -> (next: Option<usize>)
    requires
        links_in_range(placed.len() as nat, links@),
        forall|i: usize| i < placed.len() ==> placed@[i as int] == done.contains(i),
    ensures
        match next {
            Some(node) => {
                &&& node < placed.len()
                &&& !done.contains(node)
                &&& ready(links@, done, node)
                &&& forall|i: usize|
                    i < node ==> done.contains(i) || !#[trigger] ready(links@, done, i)
            },
            None => forall|i: usize|
                i < placed.len() ==> done.contains(i) || !#[trigger] ready(links@, done, i),
        },
{
    let mut node: usize = 0;
    while node < placed.len()
        invariant
            node <= placed.len(),
            links_in_range(placed.len() as nat, links@),
            forall|i: usize| i < placed.len() ==> placed@[i as int] == done.contains(i),
            forall|i: usize| i < node ==> done.contains(i) || !#[trigger] ready(links@, done, i),
        decreases placed.len() - node,
    {
        if !placed[node] && is_ready(links, placed, node, Ghost(done)) {
            return Some(node);
        }
        node += 1;
    }
    None
}

/// The schedule of a graph of `count` nodes: at every step the first node, in
/// declaration order, whose inputs are all there. `None` where the graph has a cycle.
pub(crate) fn plan(count: usize, links: &Vec<Link>) -> (planned: Option<Vec<usize>>)
    requires
        links_in_range(count as nat, links@),
    ensures
        match planned {
            Some(schedule) => is_schedule(count as nat, links@, schedule@) && is_declaration_first(
                links@,
                schedule@,
            ),
            None => !acyclic(count as nat, links@),
        },
{
    let mut placed: Vec<bool> = Vec::new();
    while placed.len() < count
        invariant
            placed.len() <= count,
            forall|i: int| 0 <= i < placed.len() ==> !placed@[i],
        decreases count - placed.len(),
    {
        placed.push(false);
    }
    let mut schedule: Vec<usize> = Vec::new();
    while schedule.len() < count
        invariant
            placed.len() == count,
            schedule.len() <= count,
            links_in_range(count as nat, links@),
            forall|i: usize| i < count ==> placed@[i as int] == schedule@.contains(i),
            is_partial_schedule(count as nat, links@, schedule@),
            is_declaration_first(links@, schedule@),
        decreases count - schedule.len(),
    {
        let ghost done = schedule@;
        match next_ready(links, &placed, Ghost(done)) {
            Some(node) => {
                placed.set(node, true);
                schedule.push(node);
                proof {
                    let k: int = done.len() as int;
                    assert(schedule@.take(k) =~= done);
                    assert forall|j: int| 0 <= j < schedule@.len() implies #[trigger] step_allowed(
                        count as nat,
                        links@,
                        schedule@,
                        j,
                    ) by {
                        if j < k {
                            assert(schedule@.take(j) =~= done.take(j));
                            assert(step_allowed(count as nat, links@, done, j));
                        }
                    }
                    assert forall|j: int| 0 <= j < schedule@.len() implies #[trigger] step_first(
                        links@,
                        schedule@,
                        j,
                    ) by {
                        if j < k {
                            assert(schedule@.take(j) =~= done.take(j));
                            assert(step_first(links@, done, j));
                        }
                    }
                    assert forall|i: usize| i < count implies placed@[i as int]
                        == schedule@.contains(i) by {
                        if done.contains(i) {
                            let j = choose|j: int| 0 <= j < done.len() && done[j] == i;
                            assert(schedule@[j] == i);
                        }
                        if i == node {
                            assert(schedule@[k] == i);
                        }
                    }
                }
            },
            None => {
                proof {
                    lemma_stuck_is_cyclic(count as nat, links@, done);
                }
                return None;
            },
        }
    }
    Some(schedule)
}

} // verus!
