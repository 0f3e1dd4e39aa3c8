use nulang::benchmarks::{
    check_warm_run, fork_join_messages, fork_join_source, ping_pong_messages, report_ab,
    report_cross, skynet_nodes, skynet_source, thread_ring_source, warm_source, WarmFault,
};

#[test]
fn tree_nodes_are_counted_by_depth() {
    assert_eq!(skynet_nodes(0), 1);
    assert_eq!(skynet_nodes(1), 11);
    assert_eq!(skynet_nodes(3), 1_111);
}

#[test]
fn message_counts_follow_the_workload() {
    assert_eq!(ping_pong_messages(100), 201);
    assert_eq!(fork_join_messages(100), 200);
}

#[test]
fn sources_grow_with_their_workload() {
    assert!(thread_ring_source(3).len() < thread_ring_source(30).len());
    assert!(fork_join_source(1).len() < fork_join_source(20).len());
    assert!(!skynet_source().is_empty());
    assert_ne!(warm_source(true, 10), warm_source(false, 10));
}

#[test]
fn warm_runs_are_checked_in_order() {
    assert_eq!(check_warm_run(5, 5, 1, Some(5)), Ok(()));
    assert_eq!(check_warm_run(5, 4, 0, None), Err(WarmFault::WarmUp));
    assert_eq!(check_warm_run(5, 5, 0, Some(5)), Err(WarmFault::NothingCompiled));
    assert_eq!(check_warm_run(5, 5, 1, None), Err(WarmFault::Warmed));
}

#[test]
fn report_lines_are_machine_readable() {
    assert_eq!(
        report_cross("ping_pong", 200, 7),
        "[cross-bench] runtime=nulang benchmark=ping_pong messages=200 elapsed_ns=7"
    );
    assert_eq!(
        report_ab("push", 3, 9),
        "[ab-bench] benchmark=push operations=3 elapsed_ns=9"
    );
}
