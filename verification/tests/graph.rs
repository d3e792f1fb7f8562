use scheduler_core::graph::{
    adaptive_failure_class_name, dag_fallback_mode_name, edge_decision_reason,
    execution_graph_source_name, incoming_count, outgoing_edges, AdaptiveFailureClass,
    DagFallbackMode, ExecutionGraphSource, GraphEdge, GraphMaterialization, GraphScheduler,
};

fn edge(from: &str, to: &str, condition: Option<&str>) -> GraphEdge {
    GraphEdge { from: from.to_string(), to: to.to_string(), condition: condition.map(|c| c.to_string()) }
}

fn names(v: &[&str]) -> Vec<String> {
    v.iter().map(|s| s.to_string()).collect()
}

#[test]
fn graph_runs_roots_then_ready_targets() {
    let edges = vec![edge("a", "b", None), edge("a", "c", Some("x")), edge("b", "d", None), edge("c", "d", None)];
    let mut s = GraphScheduler::new(names(&["a", "b", "c", "d"]), &edges, &None).expect("scheduler");
    assert_eq!(s.incoming_total, vec![0, 1, 1, 2]);
    let mut order = Vec::new();
    while let Some(n) = s.next_node() {
        order.push(n);
        s.mark_executed(n);
        let id = s.nodes[n].clone();
        for e in outgoing_edges(&edges, &id) {
            let to = s.nodes.iter().position(|x| *x == edges[e].to).unwrap();
            let taken = edges[e].condition.is_none();
            s.record_edge(to, taken);
        }
    }
    // c is never taken, so d waits for b (taken) and c: c never runs, d has one
    // taken edge but only one of two decided.
    assert_eq!(order, vec![0, 1]);
}

#[test]
fn graph_entry_node_goes_first() {
    let edges = vec![edge("a", "b", None)];
    let s = GraphScheduler::new(names(&["a", "b"]), &edges, &Some("b".to_string())).expect("scheduler");
    assert_eq!(s.queue, vec![1]);
    let s = GraphScheduler::new(names(&["a", "b"]), &edges, &Some("a".to_string())).expect("scheduler");
    assert_eq!(s.queue, vec![0, 0]);
    assert!(GraphScheduler::new(names(&["a"]), &edges, &Some("zz".to_string())).is_none());
}

#[test]
fn graph_node_runs_once() {
    let edges = vec![edge("a", "b", None), edge("a", "b", None)];
    let mut s = GraphScheduler::new(names(&["a", "b"]), &edges, &None).expect("scheduler");
    let a = s.next_node().unwrap();
    s.mark_executed(a);
    assert!(!s.record_edge(1, true));
    assert!(s.record_edge(1, true));
    let b = s.next_node().unwrap();
    assert_eq!(b, 1);
    s.mark_executed(b);
    assert!(s.next_node().is_none());
}

#[test]
fn graph_names_and_counts() {
    let edges = vec![edge("a", "b", None), edge("c", "b", None)];
    assert_eq!(incoming_count(&edges, "b"), 2);
    assert_eq!(outgoing_edges(&edges, "c"), vec![1]);
    assert_eq!(edge_decision_reason(&None, false), "unconditional");
    assert_eq!(edge_decision_reason(&Some("x".to_string()), true), "cel_true");
    assert_eq!(edge_decision_reason(&Some("x".to_string()), false), "cel_false");
    assert_eq!(dag_fallback_mode_name(DagFallbackMode::StaticSegment), "static_segment");
    assert_eq!(execution_graph_source_name(ExecutionGraphSource::AdaptivePlanner), "adaptive_planner");
    assert_eq!(adaptive_failure_class_name(AdaptiveFailureClass::InvalidJson), "invalid_json");
    let g = GraphMaterialization {
        graph_run_id: "run-1".to_string(),
        source: "static_baseline".to_string(),
        cycle: 1,
        fallback_mode: None,
        planner_failure_class: None,
        planner_failure_message: None,
    };
    assert_eq!(g.graph_run_id(), "run-1");
    assert_eq!(g.source(), "static_baseline");
}
