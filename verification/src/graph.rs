//! Scheduling of an execution graph: which node runs next, and when an
//! edge's target becomes ready.
use vstd::prelude::*;
use crate::text::str_eq;

verus! {

/// An edge of the execution graph, with its optional condition.
pub struct GraphEdge {
    pub from: String,
    pub to: String,
    pub condition: Option<String>,
}

/// Number of edges into the node `id`.
pub open spec fn count_to(edges: Seq<GraphEdge>, id: Seq<char>) -> nat
    decreases edges.len(),
{
    if edges.len() == 0 {
        0
    } else {
        count_to(edges.drop_last(), id) + if edges.last().to@ == id {
            1nat
        } else {
            0nat
        }
    }
}

proof fn lemma_count_to_bound(edges: Seq<GraphEdge>, id: Seq<char>)
    ensures
        count_to(edges, id) <= edges.len(),
    decreases edges.len(),
{
    if edges.len() > 0 {
        lemma_count_to_bound(edges.drop_last(), id);
    }
}

/// Number of edges into the node `id`.
pub fn incoming_count(edges: &Vec<GraphEdge>, id: &str) -> (r: usize)
    ensures
        r == count_to(edges@, id@),
{
    let mut n: usize = 0;
    let mut i: usize = 0;
    assert(edges@.take(0) =~= Seq::<GraphEdge>::empty());
    while i < edges.len()
        invariant
            i <= edges@.len(),
            n == count_to(edges@.take(i as int), id@),
        decreases edges@.len() - i,
    {
        proof {
            lemma_count_to_bound(edges@.take(i as int), id@);
        }
        assert(edges@.take(i + 1).drop_last() =~= edges@.take(i as int));
        assert(edges@.take(i + 1).last() == edges@[i as int]);
        if str_eq(edges[i].to.as_str(), id) {
            n = n + 1;
        }
        i = i + 1;
    }
    assert(edges@.take(edges@.len() as int) =~= edges@);
    n
}

/// The nodes without incoming edges, in order.
pub open spec fn roots(totals: Seq<usize>) -> Seq<usize>
    decreases totals.len(),
{
    if totals.len() == 0 {
        Seq::empty()
    } else if totals.last() == 0 {
        roots(totals.drop_last()).push((totals.len() - 1) as usize)
    } else {
        roots(totals.drop_last())
    }
}

proof fn lemma_roots_in_range(totals: Seq<usize>)
    requires
        totals.len() <= usize::MAX,
    ensures
        forall|k: int| 0 <= k < roots(totals).len() ==> (#[trigger] roots(totals)[k]) < totals.len(),
    decreases totals.len(),
{
    if totals.len() > 0 {
        let r0 = roots(totals.drop_last());
        lemma_roots_in_range(totals.drop_last());
        assert forall|k: int| 0 <= k < roots(totals).len() implies (#[trigger] roots(totals)[k])
            < totals.len() by {
            if k < r0.len() {
                assert(roots(totals)[k] == r0[k]);
            }
        }
    }
}

/// The state of a graph run: per node its number of incoming edges, how
/// many of them were decided, whether one was taken, whether the node ran;
/// and the queue of ready nodes (the entries from `head` on).
pub struct GraphScheduler {
    pub nodes: Vec<String>,
    pub incoming_total: Vec<usize>,
    pub resolved: Vec<usize>,
    pub taken: Vec<bool>,
    pub executed: Vec<bool>,
    pub queue: Vec<usize>,
    pub head: usize,
}

impl GraphScheduler {
    /// The per-node tables have one entry per node and the queue holds nodes.
    pub open spec fn well_formed(&self) -> bool {
        &&& self.incoming_total@.len() == self.nodes@.len()
        &&& self.resolved@.len() == self.nodes@.len()
        &&& self.taken@.len() == self.nodes@.len()
        &&& self.executed@.len() == self.nodes@.len()
        &&& self.head <= self.queue@.len()
        &&& forall|k: int| 0 <= k < self.queue@.len() ==> (#[trigger] self.queue@[k]) < self.nodes@.len()
    }

    /// The nodes still waiting in the queue, in order.
    pub open spec fn pending(&self) -> Seq<usize> {
        self.queue@.skip(self.head as int)
    }

    /// Starts a run: every node counts its incoming edges; the queue holds
    /// the nodes without incoming edges, or, when an entry node is named,
    /// that node followed by those of them that are the entry. `None` when
    /// the entry names no node.
    pub fn new(nodes: Vec<String>, edges: &Vec<GraphEdge>, entry: &Option<String>) -> (r: Option<Self>)
        ensures
            match r {
                None => entry matches Some(e) && forall|k: int|
                    0 <= k < nodes@.len() ==> (#[trigger] nodes@[k])@ != e@,
                Some(s) => {
                    &&& s.well_formed()
                    &&& s.nodes@ == nodes@
                    &&& s.head == 0
                    &&& forall|k: int|
                        0 <= k < nodes@.len() ==> s.incoming_total@[k] == count_to(
                            edges@,
                            (#[trigger] nodes@[k])@,
                        )
                    &&& forall|k: int|
                        0 <= k < nodes@.len() ==> s.resolved@[k] == 0 && !s.taken@[k]
                            && !s.executed@[k]
                    &&& match entry {
                        None => s.queue@ == roots(s.incoming_total@),
                        Some(e) => exists|ei: int|
                            0 <= ei < nodes@.len() && nodes@[ei]@ == e@ && (forall|k: int|
                                0 <= k < ei ==> (#[trigger] nodes@[k])@ != e@) && s.queue@ == seq![
                                ei as usize,
                            ] + roots(s.incoming_total@).filter(|q: usize| nodes@[q as int]@ == e@),
                    }
                },
            },
    {
        let n = nodes.len();
        let mut totals: Vec<usize> = Vec::new();
        let mut resolved: Vec<usize> = Vec::new();
        let mut taken: Vec<bool> = Vec::new();
        let mut executed: Vec<bool> = Vec::new();
        let mut i: usize = 0;
        while i < n
            invariant
                n == nodes@.len(),
                i <= n,
                totals@.len() == i,
                resolved@.len() == i,
                taken@.len() == i,
                executed@.len() == i,
                forall|k: int| 0 <= k < i ==> totals@[k] == count_to(edges@, (#[trigger] nodes@[k])@),
                forall|k: int| 0 <= k < i ==> resolved@[k] == 0 && !taken@[k] && !executed@[k],
            decreases n - i,
        {
            totals.push(incoming_count(edges, nodes[i].as_str()));
            resolved.push(0);
            taken.push(false);
            executed.push(false);
            i = i + 1;
        }
        let mut rq: Vec<usize> = Vec::new();
        let mut j: usize = 0;
        assert(totals@.take(0) =~= Seq::<usize>::empty());
        while j < n
            invariant
                n == nodes@.len(),
                totals@.len() == n,
                j <= n,
                rq@ == roots(totals@.take(j as int)),
            decreases n - j,
        {
            assert(totals@.take(j + 1).drop_last() =~= totals@.take(j as int));
            assert(totals@.take(j + 1).last() == totals@[j as int]);
            if totals[j] == 0 {
                rq.push(j);
            }
            j = j + 1;
        }
        assert(totals@.take(n as int) =~= totals@);
        proof {
            lemma_roots_in_range(totals@);
        }
        let queue = match entry {
            None => rq,
            Some(e) => {
                let mut ei: usize = 0;
                while ei < n && !str_eq(nodes[ei].as_str(), e.as_str())
                    invariant
                        n == nodes@.len(),
                        ei <= n,
                        forall|k: int| 0 <= k < ei ==> (#[trigger] nodes@[k])@ != e@,
                    decreases n - ei,
                {
                    ei = ei + 1;
                }
                if ei == n {
                    return None;
                }
                let mut q: Vec<usize> = Vec::new();
                q.push(ei);
                let ghost pred = |x: usize| nodes@[x as int]@ == e@;
                let mut t: usize = 0;
                assert(rq@.take(0).filter(pred) =~= Seq::<usize>::empty());
                while t < rq.len()
                    invariant
                        n == nodes@.len(),
                        ei < n,
                        t <= rq@.len(),
                        forall|k: int| 0 <= k < rq@.len() ==> (#[trigger] rq@[k]) < n,
                        pred == (|x: usize| nodes@[x as int]@ == e@),
                        q@ == seq![ei] + rq@.take(t as int).filter(pred),
                    decreases rq@.len() - t,
                {
                    let ghost before = rq@.take(t as int);
                    assert(rq@.take(t + 1).drop_last() =~= before);
                    assert(rq@.take(t + 1).last() == rq@[t as int]);
                    let x = rq[t];
                    proof {
                        reveal(Seq::filter);
                        assert(rq@.take(t + 1).filter(pred) == (if pred(x) {
                            before.filter(pred).push(x)
                        } else {
                            before.filter(pred)
                        }));
                    }
                    if str_eq(nodes[x].as_str(), e.as_str()) {
                        q.push(x);
                        assert(q@ =~= seq![ei] + rq@.take(t + 1).filter(pred));
                    } else {
                        assert(q@ =~= seq![ei] + rq@.take(t + 1).filter(pred));
                    }
                    t = t + 1;
                }
                assert(rq@.take(rq@.len() as int) =~= rq@);
                proof {
                    assert forall|k: int| 0 <= k < q@.len() implies (#[trigger] q@[k]) < n by {
                        if k > 0 {
                            let f = rq@.filter(pred);
                            assert(q@[k] == f[k - 1]);
                            assert(f.contains(f[k - 1]));
                            rq@.lemma_filter_contains_rev(pred, f[k - 1]);
                        }
                    }
                }
                q
            },
        };
        Some(GraphScheduler {
            nodes,
            incoming_total: totals,
            resolved,
            taken,
            executed,
            queue,
            head: 0,
        })
    }

    /// Takes the next ready node that has not run yet, dropping nodes that
    /// already ran; `None` when the queue is exhausted.
    pub fn next_node(&mut self) -> (r: Option<usize>)
        requires
            old(self).well_formed(),
        ensures
            final(self).well_formed(),
            final(self).nodes@ == old(self).nodes@,
            final(self).incoming_total@ == old(self).incoming_total@,
            final(self).resolved@ == old(self).resolved@,
            final(self).taken@ == old(self).taken@,
            final(self).executed@ == old(self).executed@,
            final(self).queue@ == old(self).queue@,
            old(self).head <= final(self).head,
            forall|k: int|
                old(self).head <= k < final(self).head - (if r is Some { 1int } else { 0int })
                    ==> old(self).executed@[(#[trigger] old(self).queue@[k]) as int],
            match r {
                Some(x) => x < old(self).nodes@.len() && !old(self).executed@[x as int]
                    && final(self).head >= 1 && old(self).queue@[final(self).head - 1] == x,
                None => final(self).head == old(self).queue@.len(),
            },
    {
        let ghost h0 = self.head;
        while self.head < self.queue.len()
            invariant
                self.well_formed(),
                self.nodes@ == old(self).nodes@,
                self.incoming_total@ == old(self).incoming_total@,
                self.resolved@ == old(self).resolved@,
                self.taken@ == old(self).taken@,
                self.executed@ == old(self).executed@,
                self.queue@ == old(self).queue@,
                h0 == old(self).head,
                h0 <= self.head,
                forall|k: int| h0 <= k < self.head ==> old(self).executed@[(#[trigger] old(self).queue@[k]) as int],
            decreases self.queue@.len() - self.head,
        {
            let x = self.queue[self.head];
            self.head = self.head + 1;
            if !self.executed[x] {
                return Some(x);
            }
        }
        None
    }

    /// Records that a node ran (or was skipped).
    pub fn mark_executed(&mut self, node: usize)
        requires
            old(self).well_formed(),
            node < old(self).nodes@.len(),
        ensures
            final(self).well_formed(),
            final(self).executed@ == old(self).executed@.update(node as int, true),
            final(self).nodes@ == old(self).nodes@,
            final(self).incoming_total@ == old(self).incoming_total@,
            final(self).resolved@ == old(self).resolved@,
            final(self).taken@ == old(self).taken@,
            final(self).queue@ == old(self).queue@,
            final(self).head == old(self).head,
    {
        self.executed.set(node, true);
    }

    /// Records the decision of an edge into `to`: one more incoming edge is
    /// decided, and taken or not. The target becomes ready (and is queued)
    /// once all its incoming edges are decided, at least one was taken (or
    /// it has none), and it has not run.
    pub fn record_edge(&mut self, to: usize, taken: bool) -> (queued: bool)
        requires
            old(self).well_formed(),
            to < old(self).nodes@.len(),
            old(self).resolved@[to as int] < usize::MAX,
        ensures
            final(self).well_formed(),
            final(self).nodes@ == old(self).nodes@,
            final(self).incoming_total@ == old(self).incoming_total@,
            final(self).executed@ == old(self).executed@,
            final(self).head == old(self).head,
            final(self).resolved@ == old(self).resolved@.update(
                to as int,
                (old(self).resolved@[to as int] + 1) as usize,
            ),
            final(self).taken@ == old(self).taken@.update(
                to as int,
                old(self).taken@[to as int] || taken,
            ),
            queued == (final(self).resolved@[to as int] >= final(self).incoming_total@[to as int]
                && (final(self).taken@[to as int] || final(self).incoming_total@[to as int] == 0)
                && !final(self).executed@[to as int]),
            final(self).queue@ == if queued {
                old(self).queue@.push(to)
            } else {
                old(self).queue@
            },
    {
        let r = self.resolved[to] + 1;
        self.resolved.set(to, r);
        if taken {
            self.taken.set(to, true);
        } else {
            let t = self.taken[to];
            self.taken.set(to, t);
        }
        let total = self.incoming_total[to];
        let ready = r >= total && (self.taken[to] || total == 0) && !self.executed[to];
        if ready {
            self.queue.push(to);
        }
        ready
    }
}

/// Why an edge was or was not taken.
pub open spec fn edge_reason(condition: Option<String>, taken: bool) -> Seq<char> {
    match condition {
        None => "unconditional"@,
        Some(_) => if taken {
            "cel_true"@
        } else {
            "cel_false"@
        },
    }
}

/// `unconditional`, `cel_true` or `cel_false`.
pub fn edge_decision_reason(condition: &Option<String>, taken: bool) -> (r: String)
    ensures
        r@ == edge_reason(*condition, taken),
{
    match condition {
        None => String::from_str("unconditional"),
        Some(_) => if taken {
            String::from_str("cel_true")
        } else {
            String::from_str("cel_false")
        },
    }
}

/// The indices of the edges leaving the node `id`, in order.
pub open spec fn outgoing(edges: Seq<GraphEdge>, id: Seq<char>) -> Seq<usize>
    decreases edges.len(),
{
    if edges.len() == 0 {
        Seq::empty()
    } else if edges.last().from@ == id {
        outgoing(edges.drop_last(), id).push((edges.len() - 1) as usize)
    } else {
        outgoing(edges.drop_last(), id)
    }
}

/// See `outgoing`.
pub fn outgoing_edges(edges: &Vec<GraphEdge>, id: &str) -> (r: Vec<usize>)
    ensures
        r@ == outgoing(edges@, id@),
{
    let mut out: Vec<usize> = Vec::new();
    let mut i: usize = 0;
    assert(edges@.take(0) =~= Seq::<GraphEdge>::empty());
    while i < edges.len()
        invariant
            i <= edges@.len(),
            out@ == outgoing(edges@.take(i as int), id@),
        decreases edges@.len() - i,
    {
        assert(edges@.take(i + 1).drop_last() =~= edges@.take(i as int));
        assert(edges@.take(i + 1).last() == edges@[i as int]);
        if str_eq(edges[i].from.as_str(), id) {
            out.push(i);
        }
        i = i + 1;
    }
    assert(edges@.take(edges@.len() as int) =~= edges@);
    out
}

/// A node with incoming edges none of which was taken is never queued by
/// an edge decision.
pub proof fn law_untaken_node_not_queued(
    resolved: usize,
    total: usize,
    any_taken: bool,
    executed: bool,
)
    requires
        total > 0,
        !any_taken,
    ensures
        !(resolved >= total && (any_taken || total == 0) && !executed),
{
}

/// Where the graph of a cycle came from.
#[derive(Clone, Copy, Debug, PartialEq, Eq, Structural)]
pub enum ExecutionGraphSource {
    StaticBaseline,
    AdaptivePlanner,
    DeterministicFallback,
}

/// `static_baseline`, `adaptive_planner` or `deterministic_fallback`.
pub fn execution_graph_source_name(source: ExecutionGraphSource) -> (r: String)
    ensures
        r@ == match source {
            ExecutionGraphSource::StaticBaseline => "static_baseline"@,
            ExecutionGraphSource::AdaptivePlanner => "adaptive_planner"@,
            ExecutionGraphSource::DeterministicFallback => "deterministic_fallback"@,
        },
{
    match source {
        ExecutionGraphSource::StaticBaseline => String::from_str("static_baseline"),
        ExecutionGraphSource::AdaptivePlanner => String::from_str("adaptive_planner"),
        ExecutionGraphSource::DeterministicFallback => String::from_str("deterministic_fallback"),
    }
}

/// What happens when the adaptive planner fails.
#[derive(Clone, Copy, Debug, PartialEq, Eq, Structural)]
pub enum DagFallbackMode {
    DeterministicDag,
    StaticSegment,
    FailClosed,
}

/// `deterministic_dag`, `static_segment` or `fail_closed`.
pub fn dag_fallback_mode_name(mode: DagFallbackMode) -> (r: String)
    ensures
        r@ == match mode {
            DagFallbackMode::DeterministicDag => "deterministic_dag"@,
            DagFallbackMode::StaticSegment => "static_segment"@,
            DagFallbackMode::FailClosed => "fail_closed"@,
        },
{
    match mode {
        DagFallbackMode::DeterministicDag => String::from_str("deterministic_dag"),
        DagFallbackMode::StaticSegment => String::from_str("static_segment"),
        DagFallbackMode::FailClosed => String::from_str("fail_closed"),
    }
}

/// Why the adaptive planner produced no plan.
#[derive(Clone, Copy, Debug, PartialEq, Eq, Structural)]
pub enum AdaptiveFailureClass {
    Disabled,
    Misconfigured,
    ExecutorFailure,
    InvalidJson,
    InvalidPlan,
}

/// The snake-case name of a planner failure.
pub fn adaptive_failure_class_name(class: AdaptiveFailureClass) -> (r: String)
    ensures
        r@ == match class {
            AdaptiveFailureClass::Disabled => "disabled"@,
            AdaptiveFailureClass::Misconfigured => "misconfigured"@,
            AdaptiveFailureClass::ExecutorFailure => "executor_failure"@,
            AdaptiveFailureClass::InvalidJson => "invalid_json"@,
            AdaptiveFailureClass::InvalidPlan => "invalid_plan"@,
        },
{
    match class {
        AdaptiveFailureClass::Disabled => String::from_str("disabled"),
        AdaptiveFailureClass::Misconfigured => String::from_str("misconfigured"),
        AdaptiveFailureClass::ExecutorFailure => String::from_str("executor_failure"),
        AdaptiveFailureClass::InvalidJson => String::from_str("invalid_json"),
        AdaptiveFailureClass::InvalidPlan => String::from_str("invalid_plan"),
    }
}

} // verus!

verus! {

/// The graph of one cycle's run, as recorded: its run id, where it came
/// from, and why the planner failed when it did.
pub struct GraphMaterialization {
    pub graph_run_id: String,
    pub source: String,
    pub cycle: i64,
    pub fallback_mode: Option<String>,
    pub planner_failure_class: Option<String>,
    pub planner_failure_message: Option<String>,
}

impl GraphMaterialization {
    /// The run id.
    pub fn graph_run_id(&self) -> (r: &str)
        ensures
            r@ == self.graph_run_id@,
    {
        self.graph_run_id.as_str()
    }

    /// Where the graph came from.
    pub fn source(&self) -> (r: &str)
        ensures
            r@ == self.source@,
    {
        self.source.as_str()
    }
}

/// How a cycle's graph is made.
#[derive(Clone, Copy, Debug, PartialEq, Eq, Structural)]
pub enum GraphPlanChoice {
    /// From the plan's steps.
    StaticBaseline,
    /// By the adaptive planner, anchored at the cycle's first item.
    AdaptivePlanner,
}

/// The adaptive planner makes the graph when the cycle has items and
/// adaptive planning is enabled; otherwise the plan's steps do.
pub fn graph_plan_choice(has_items: bool, adaptive_enabled: bool) -> (r: GraphPlanChoice)
    ensures
        r == if has_items && adaptive_enabled {
            GraphPlanChoice::AdaptivePlanner
        } else {
            GraphPlanChoice::StaticBaseline
        },
{
    if has_items && adaptive_enabled {
        GraphPlanChoice::AdaptivePlanner
    } else {
        GraphPlanChoice::StaticBaseline
    }
}

/// The record of a graph made from the plan's steps.
pub fn static_materialization(graph_run_id: String, cycle: i64) -> (r: GraphMaterialization)
    ensures
        r.graph_run_id == graph_run_id,
        r.source@ == "static_baseline"@,
        r.cycle == cycle,
        r.fallback_mode is None,
        r.planner_failure_class is None,
        r.planner_failure_message is None,
{
    GraphMaterialization {
        graph_run_id,
        source: String::from_str("static_baseline"),
        cycle,
        fallback_mode: None,
        planner_failure_class: None,
        planner_failure_message: None,
    }
}

/// The record of a graph the adaptive planner made: the graph's source is
/// the planner, or its deterministic fallback when the planner's own plan was
/// not used; the fallback mode and the planner's failure are recorded by name.
pub fn adaptive_materialization(
    graph_run_id: String,
    cycle: i64,
    used_planner: bool,
    fallback_mode: DagFallbackMode,
    failure_class: Option<AdaptiveFailureClass>,
    failure_message: Option<String>,
) -> (r: GraphMaterialization)
    ensures
        r.graph_run_id == graph_run_id,
        r.source@ == (if used_planner {
            "adaptive_planner"@
        } else {
            "deterministic_fallback"@
        }),
        r.cycle == cycle,
        r.fallback_mode matches Some(m) && m@ == match fallback_mode {
            DagFallbackMode::DeterministicDag => "deterministic_dag"@,
            DagFallbackMode::StaticSegment => "static_segment"@,
            DagFallbackMode::FailClosed => "fail_closed"@,
        },
        match failure_class {
            Some(c) => r.planner_failure_class matches Some(n) && n@ == match c {
                AdaptiveFailureClass::Disabled => "disabled"@,
                AdaptiveFailureClass::Misconfigured => "misconfigured"@,
                AdaptiveFailureClass::ExecutorFailure => "executor_failure"@,
                AdaptiveFailureClass::InvalidJson => "invalid_json"@,
                AdaptiveFailureClass::InvalidPlan => "invalid_plan"@,
            },
            None => r.planner_failure_class is None,
        },
        r.planner_failure_message == failure_message,
{
    let source = if used_planner {
        ExecutionGraphSource::AdaptivePlanner
    } else {
        ExecutionGraphSource::DeterministicFallback
    };
    let class_name = match failure_class {
        Some(c) => Some(adaptive_failure_class_name(c)),
        None => None,
    };
    GraphMaterialization {
        graph_run_id,
        source: execution_graph_source_name(source),
        cycle,
        fallback_mode: Some(dag_fallback_mode_name(fallback_mode)),
        planner_failure_class: class_name,
        planner_failure_message: failure_message,
    }
}

} // verus!
