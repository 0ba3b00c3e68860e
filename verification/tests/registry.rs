use disk_scan::engine::{check_cancelled, ScanSession};
use disk_scan::node::{NodeKind, ScanNode};
use disk_scan::registry::{cancel_scan, start_multi_scan, start_scan, ScanJob, ScanManager};

#[test]
fn new_registry_holds_no_scan() {
    let manager = ScanManager::new();
    assert_eq!(manager.active_scans(), 0);
    assert_eq!(ScanManager::default().active_scans(), 0);
    assert!(!manager.is_active("anything"));
    assert!(!manager.is_cancelled("anything"));
}

#[test]
fn created_scan_is_in_flight_and_not_cancelled() {
    let mut manager = ScanManager::new();
    let id = manager.create();
    assert!(manager.is_active(&id));
    assert!(!manager.is_cancelled(&id));
    assert_eq!(manager.active_scans(), 1);
}

#[test]
fn fresh_identifiers_are_hyphenated_uuids_and_differ() {
    let mut manager = ScanManager::new();
    let first = manager.create();
    let second = manager.create();
    assert_eq!(first.chars().count(), 36);
    assert_eq!(second.chars().count(), 36);
    for id in [&first, &second] {
        for (i, c) in id.chars().enumerate() {
            if i == 8 || i == 13 || i == 18 || i == 23 {
                assert_eq!(c, '-');
            } else {
                assert!(c.is_ascii_hexdigit() && !c.is_ascii_uppercase());
            }
        }
        assert_eq!(id.chars().nth(14), Some('4'));
    }
    assert_ne!(first, second);
    assert_eq!(manager.active_scans(), 2);
}

#[test]
fn cancel_sets_the_flag_of_that_scan_only() {
    let mut manager = ScanManager::new();
    manager.register("one".to_string());
    manager.register("two".to_string());
    assert_eq!(manager.cancel("one"), Ok(()));
    assert!(manager.is_cancelled("one"));
    assert!(!manager.is_cancelled("two"));
    assert!(manager.is_active("one"));
    assert_eq!(manager.active_scans(), 2);
    assert_eq!(manager.cancel("one"), Ok(()));
    assert!(manager.is_cancelled("one"));
}

#[test]
fn cancel_of_an_unknown_scan_fails_and_changes_nothing() {
    let mut manager = ScanManager::new();
    manager.register("one".to_string());
    assert_eq!(cancel_scan(&mut manager, "other".to_string()), Err("Scan not found".to_string()));
    assert_eq!(manager.cancel("other"), Err("Scan not found".to_string()));
    assert_eq!(manager.active_scans(), 1);
    assert!(manager.is_active("one"));
    assert!(!manager.is_cancelled("one"));
    assert!(!manager.is_active("other"));
    assert!(!manager.is_cancelled("other"));
}

#[test]
fn cancel_in_an_empty_registry_fails() {
    let mut manager = ScanManager::new();
    assert_eq!(cancel_scan(&mut manager, String::new()), Err("Scan not found".to_string()));
    assert_eq!(manager.active_scans(), 0);
}

#[test]
fn remove_drops_the_scan_and_is_harmless_when_repeated() {
    let mut manager = ScanManager::new();
    manager.register("one".to_string());
    manager.register("two".to_string());
    manager.remove("one");
    assert!(!manager.is_active("one"));
    assert_eq!(manager.active_scans(), 1);
    manager.remove("one");
    manager.remove("never");
    assert_eq!(manager.active_scans(), 1);
    assert!(manager.is_active("two"));
}

#[test]
fn registering_an_identifier_again_clears_its_flag() {
    let mut manager = ScanManager::new();
    manager.register("one".to_string());
    assert_eq!(manager.cancel("one"), Ok(()));
    manager.register("one".to_string());
    assert!(!manager.is_cancelled("one"));
    assert_eq!(manager.active_scans(), 1);
}

#[test]
fn cancelled_scan_still_completes_once_and_is_then_unknown() {
    let mut manager = ScanManager::new();
    let job = start_scan(&mut manager, "/data".to_string(), true, 3, 0).unwrap();
    let session = ScanSession::new(job.scan_id.clone());
    assert_eq!(cancel_scan(&mut manager, job.scan_id.clone()), Ok(()));
    let result = check_cancelled(manager.is_cancelled(&job.scan_id))
        .map(|_| ScanNode::file("/data", 1));
    let done = session.finish(&job.root, result);
    assert_eq!(done.scan_id, job.scan_id);
    assert_eq!(done.errors, vec!["cancelled".to_string()]);
    assert_eq!(
        done.root,
        ScanNode {
            name: "data".to_string(),
            path: "/data".to_string(),
            kind: NodeKind::Dir,
            size: 0,
            children: Some(vec![]),
            omitted_children: None,
        }
    );
    manager.remove(&done.scan_id);
    assert_eq!(cancel_scan(&mut manager, job.scan_id), Err("Scan not found".to_string()));
    assert_eq!(manager.active_scans(), 0);
}

#[test]
fn completed_scan_reports_its_root_and_its_failures() {
    let mut session = ScanSession::new("scan-9".to_string());
    session.expand("/d", disk_scan::engine::Listing::Failed { cause: "denied".to_string() });
    let done = session.finish("/d", Ok(ScanNode::placeholder("/d", 0)));
    assert_eq!(done.scan_id, "scan-9");
    assert_eq!(done.root, ScanNode::placeholder("/d", 0));
    assert_eq!(done.errors, vec!["/d: denied".to_string()]);
}

#[test]
fn failed_root_weighs_the_bytes_counted_so_far() {
    let mut session = ScanSession::new("scan".to_string());
    session.visit_at(0, "/d/a", disk_scan::engine::Probe::File { len: 44 }, 1, 3);
    let done = session.finish("/d", Err("cancelled".to_string()));
    assert_eq!(done.root, ScanNode::placeholder("/d", 44));
    assert_eq!(done.errors, vec!["cancelled".to_string()]);
}

#[test]
fn scan_of_a_missing_root_is_refused() {
    let mut manager = ScanManager::new();
    let outcome = start_scan(&mut manager, "/does-not-exist".to_string(), false, 3, 10);
    assert_eq!(outcome, Err("Path does not exist".to_string()));
    assert_eq!(manager.active_scans(), 0);
}

#[test]
fn scan_of_a_root_is_entered_with_its_budgets() {
    let mut manager = ScanManager::new();
    let job = start_scan(&mut manager, "/real".to_string(), true, 4, 25).unwrap();
    assert_eq!(job.root, "/real");
    assert_eq!(job.max_depth, 4);
    assert_eq!(job.top_children, 25);
    assert_eq!(job.scan_id.len(), 36);
    assert!(manager.is_active(&job.scan_id));
    assert!(!manager.is_cancelled(&job.scan_id));
    assert_eq!(manager.active_scans(), 1);
}

#[test]
fn scenario_missing_root_among_several_is_passed_over() {
    let mut manager = ScanManager::new();
    let roots = vec![
        ("/real1".to_string(), true),
        ("/does-not-exist".to_string(), false),
        ("/real2".to_string(), true),
    ];
    let jobs: Vec<ScanJob> = start_multi_scan(&mut manager, roots, 2, 7).unwrap();
    assert_eq!(jobs.len(), 2);
    assert_eq!(jobs[0].root, "/real1");
    assert_eq!(jobs[1].root, "/real2");
    assert_ne!(jobs[0].scan_id, jobs[1].scan_id);
    assert!(jobs.iter().all(|job| job.max_depth == 2 && job.top_children == 7));
    assert_eq!(manager.active_scans(), 2);
    let mut events = Vec::new();
    for job in &jobs {
        let mut session = ScanSession::new(job.scan_id.clone());
        let (_, _) = session.visit_at(0, &job.root, disk_scan::engine::Probe::File { len: 1 }, 0, 2);
        events.push(session.finish(&job.root, Ok(ScanNode::file(&job.root, 1))));
        manager.remove(&job.scan_id);
    }
    assert_eq!(events.len(), 2);
    assert_eq!(events[0].scan_id, jobs[0].scan_id);
    assert_eq!(events[1].scan_id, jobs[1].scan_id);
    for event in &events {
        assert_ne!(event.root.path, "/does-not-exist");
        assert!(event.errors.is_empty());
    }
    assert_eq!(manager.active_scans(), 0);
}

#[test]
fn several_roots_of_which_none_exists_start_nothing() {
    let mut manager = ScanManager::new();
    let roots = vec![("/a".to_string(), false), ("/b".to_string(), false)];
    assert_eq!(start_multi_scan(&mut manager, roots, 1, 1), Ok(vec![]));
    assert_eq!(start_multi_scan(&mut manager, vec![], 1, 1), Ok(vec![]));
    assert_eq!(manager.active_scans(), 0);
}
