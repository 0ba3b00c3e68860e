use disk_scan::aggregate::assemble_dir;
use disk_scan::engine::{
    check_cancelled, Expansion, Listing, Probe, ScanSession, Visit, WalkItem, WalkStep,
};
use disk_scan::node::{clone_nodes, NodeKind, ScanNode};
use disk_scan::ranking::rank_by_size;

/// An entry of a filesystem that exists only in the test.
enum Entry {
    File(&'static str, u64),
    Dir(&'static str, Vec<Entry>),
    /// An entry whose metadata cannot be read.
    Broken(&'static str),
    /// A directory that cannot be opened.
    Locked(&'static str),
}

fn name_of(entry: &Entry) -> &'static str {
    match entry {
        Entry::File(name, _) => name,
        Entry::Dir(name, _) => name,
        Entry::Broken(name) => name,
        Entry::Locked(name) => name,
    }
}

fn join(parent: &str, name: &str) -> String {
    if parent.is_empty() {
        name.to_string()
    } else {
        format!("{}/{}", parent, name)
    }
}

/// The items that a walk of `entry` yields: the entry itself, then all that
/// lies beneath it.
fn walk_items(path: &str, entry: &Entry, items: &mut Vec<WalkItem>) {
    match entry {
        Entry::File(_, len) => {
            items.push(WalkItem::Entry { path: path.to_string(), is_file: true, len: *len })
        }
        Entry::Dir(_, children) => {
            items.push(WalkItem::Entry { path: path.to_string(), is_file: false, len: 4096 });
            for child in children {
                walk_items(&join(path, name_of(child)), child, items);
            }
        }
        Entry::Broken(_) => items.push(WalkItem::Unreadable {
            path: path.to_string(),
            cause: "permission denied".to_string(),
        }),
        Entry::Locked(_) => {
            items.push(WalkItem::Entry { path: path.to_string(), is_file: false, len: 4096 });
            items.push(WalkItem::Failed { cause: "permission denied".to_string() });
        }
    }
}

/// Drives a scan of `entry` as a host does, reading the test's filesystem.
fn drive(
    session: &mut ScanSession,
    path: &str,
    entry: &Entry,
    depth: u32,
    max_depth: u32,
    top_children: u32,
) -> Result<ScanNode, String> {
    check_cancelled(false)?;
    let probe = match entry {
        Entry::File(_, len) => Probe::File { len: *len },
        Entry::Dir(..) | Entry::Locked(_) => Probe::Dir,
        Entry::Broken(_) => Probe::Unreadable { cause: "permission denied".to_string() },
    };
    let (visit, _) = session.visit_at(0, path, probe, depth, max_depth);
    match visit {
        Visit::Finished(node) => Ok(node),
        Visit::Collapse => {
            let mut items = Vec::new();
            walk_items(path, entry, &mut items);
            let mut total = 0;
            for item in items {
                match session.walk_step_at(0, path, total, false, item) {
                    WalkStep::Stop => break,
                    WalkStep::Continue { total: next, .. } => total = next,
                }
            }
            Ok(ScanNode::collapsed(path, total))
        }
        Visit::Expand => {
            let listing = match entry {
                Entry::Dir(_, children) => Listing::Entries(
                    children.iter().map(|child| Ok(join(path, name_of(child)))).collect(),
                ),
                _ => Listing::Failed { cause: "permission denied".to_string() },
            };
            let paths = match session.expand(path, listing) {
                Expansion::Finished(node) => return Ok(node),
                Expansion::Children(paths) => paths,
            };
            let children = match entry {
                Entry::Dir(_, children) => children,
                _ => unreachable!(),
            };
            let mut outcomes = Vec::new();
            for (child_path, child) in paths.into_iter().zip(children) {
                let result =
                    drive(session, &child_path, child, depth + 1, max_depth, top_children);
                outcomes.push((child_path, result));
            }
            Ok(session.finish_dir(path, outcomes, top_children).unwrap())
        }
    }
}

fn scan(entry: &Entry, max_depth: u32, top_children: u32) -> (ScanNode, Vec<String>) {
    let mut session = ScanSession::new("scan".to_string());
    let path = join("/data", name_of(entry));
    let result = drive(&mut session, &path, entry, 0, max_depth, top_children);
    let done = session.finish(&path, result);
    (done.root, done.errors)
}

fn three_files() -> Entry {
    Entry::Dir(
        "three",
        vec![Entry::File("ten", 10), Entry::File("twenty", 20), Entry::File("thirty", 30)],
    )
}

fn nested() -> Entry {
    Entry::Dir(
        "top",
        vec![
            Entry::File("readme", 5),
            Entry::Dir(
                "src",
                vec![
                    Entry::File("main", 100),
                    Entry::Dir("deep", vec![Entry::File("a", 1), Entry::File("b", 2)]),
                    Entry::File("lib", 300),
                ],
            ),
            Entry::Dir("empty", vec![]),
            Entry::File("big", 1000),
        ],
    )
}

fn sizes(nodes: &[ScanNode]) -> Vec<u64> {
    nodes.iter().map(|node| node.size).collect()
}

fn names(nodes: &[ScanNode]) -> Vec<&str> {
    nodes.iter().map(|node| node.name.as_str()).collect()
}

fn file(path: &str, size: u64) -> ScanNode {
    ScanNode::file(path, size)
}

/// Checks the invariant of scanned trees on `node` and gives the bytes at
/// its leaves.
fn check_tree(node: &ScanNode) -> u64 {
    match &node.children {
        None => {
            assert_eq!(node.omitted_children, None);
            node.size
        }
        Some(children) => {
            assert_eq!(node.kind, NodeKind::Dir);
            for pair in children.windows(2) {
                assert!(pair[0].size >= pair[1].size);
            }
            if let Some(omitted) = node.omitted_children {
                assert!(omitted > 0);
            }
            let leaves: u64 = children.iter().map(check_tree).sum();
            assert_eq!(node.size, sizes(children).iter().sum::<u64>());
            assert_eq!(node.size, leaves);
            leaves
        }
    }
}

#[test]
fn scenario_three_files_within_both_budgets() {
    let (root, errors) = scan(&three_files(), 5, 10);
    assert_eq!(root.kind, NodeKind::Dir);
    assert_eq!(root.name, "three");
    assert_eq!(root.path, "/data/three");
    assert_eq!(root.size, 60);
    let children = root.children.as_ref().unwrap();
    assert_eq!(sizes(children), vec![30, 20, 10]);
    assert_eq!(names(children), vec!["thirty", "twenty", "ten"]);
    assert!(children.iter().all(|child| child.kind == NodeKind::File));
    assert!(children.iter().all(|child| child.children.is_none()));
    assert_eq!(root.omitted_children, None);
    assert!(errors.is_empty());
}

#[test]
fn scenario_width_budget_of_two_keeps_the_two_largest() {
    let (root, errors) = scan(&three_files(), 5, 2);
    let children = root.children.as_ref().unwrap();
    assert_eq!(sizes(children), vec![30, 20]);
    assert_eq!(root.omitted_children, Some(1));
    assert_eq!(root.size, 50);
    assert!(errors.is_empty());
}

#[test]
fn scenario_depth_zero_collapses_to_the_full_total() {
    let (root, errors) = scan(&nested(), 0, 1);
    assert_eq!(root.kind, NodeKind::Dir);
    assert_eq!(root.children, None);
    assert_eq!(root.omitted_children, None);
    assert_eq!(root.size, 5 + 100 + 1 + 2 + 300 + 1000);
    assert!(errors.is_empty());
}

#[test]
fn untruncated_directory_weighs_all_files_beneath_it() {
    let (root, _) = scan(&nested(), 10, 0);
    assert_eq!(root.size, 1408);
    assert_eq!(check_tree(&root), 1408);
    let children = root.children.as_ref().unwrap();
    assert_eq!(names(children), vec!["big", "src", "readme", "empty"]);
    assert_eq!(sizes(children), vec![1000, 403, 5, 0]);
    let src = &children[1];
    assert_eq!(names(src.children.as_ref().unwrap()), vec!["lib", "main", "deep"]);
    assert_eq!(src.children.as_ref().unwrap()[2].size, 3);
}

#[test]
fn truncated_directory_counts_what_it_lost_and_weighs_what_it_kept() {
    let (root, _) = scan(&nested(), 10, 2);
    let children = root.children.as_ref().unwrap();
    assert_eq!(names(children), vec!["big", "src"]);
    assert_eq!(root.omitted_children, Some(2));
    let src = &children[1];
    assert_eq!(names(src.children.as_ref().unwrap()), vec!["lib", "main"]);
    assert_eq!(src.omitted_children, Some(1));
    assert_eq!(src.size, 400);
    assert_eq!(root.size, 1400);
    assert!(root.size < 1408);
    check_tree(&root);
}

#[test]
fn truncation_of_empty_children_loses_no_bytes() {
    let tree = Entry::Dir(
        "d",
        vec![Entry::File("zero", 0), Entry::File("some", 7), Entry::File("none", 0)],
    );
    let (root, _) = scan(&tree, 3, 1);
    assert_eq!(names(root.children.as_ref().unwrap()), vec!["some"]);
    assert_eq!(root.omitted_children, Some(2));
    assert_eq!(root.size, 7);
}

#[test]
fn children_stand_in_order_of_non_increasing_size_at_every_level() {
    for top_children in [0, 1, 2, 3, 100] {
        for max_depth in [1, 2, 3, 10] {
            let (root, _) = scan(&nested(), max_depth, top_children);
            check_tree(&root);
        }
    }
}

#[test]
fn children_of_one_size_keep_the_order_of_the_scan() {
    let tree = Entry::Dir(
        "ties",
        vec![
            Entry::File("first", 7),
            Entry::File("large", 9),
            Entry::File("second", 7),
            Entry::File("small", 1),
            Entry::File("third", 7),
        ],
    );
    let (root, _) = scan(&tree, 1, 0);
    assert_eq!(
        names(root.children.as_ref().unwrap()),
        vec!["large", "first", "second", "third", "small"]
    );
    let (cut, _) = scan(&tree, 1, 3);
    assert_eq!(names(cut.children.as_ref().unwrap()), vec!["large", "first", "second"]);
    assert_eq!(cut.omitted_children, Some(2));
    assert_eq!(cut.size, 23);
}

#[test]
fn width_budget_of_zero_keeps_every_child() {
    let children: Vec<ScanNode> =
        (0..50u64).map(|i| file(&format!("/d/f{}", i), i)).collect();
    let node = assemble_dir("/d", children, 0).unwrap();
    assert_eq!(node.children.as_ref().unwrap().len(), 50);
    assert_eq!(node.omitted_children, None);
    assert_eq!(node.size, (0..50).sum::<u64>());
}

#[test]
fn width_budget_equal_to_the_count_keeps_every_child() {
    let children = vec![file("/d/a", 1), file("/d/b", 2), file("/d/c", 3)];
    let node = assemble_dir("/d", children, 3).unwrap();
    assert_eq!(sizes(node.children.as_ref().unwrap()), vec![3, 2, 1]);
    assert_eq!(node.omitted_children, None);
    assert_eq!(node.size, 6);
}

#[test]
fn width_budget_of_one_less_than_the_count_omits_one() {
    let children = vec![file("/d/a", 1), file("/d/b", 2), file("/d/c", 3)];
    let node = assemble_dir("/d", children, 2).unwrap();
    assert_eq!(sizes(node.children.as_ref().unwrap()), vec![3, 2]);
    assert_eq!(node.omitted_children, Some(1));
    assert_eq!(node.size, 5);
}

#[test]
fn empty_directory_has_an_empty_list_of_children() {
    let (root, errors) = scan(&Entry::Dir("void", vec![]), 3, 5);
    assert_eq!(
        root,
        ScanNode {
            name: "void".to_string(),
            path: "/data/void".to_string(),
            kind: NodeKind::Dir,
            size: 0,
            children: Some(vec![]),
            omitted_children: None,
        }
    );
    assert!(errors.is_empty());
}

#[test]
fn unreadable_entry_is_recorded_and_stands_as_an_empty_directory() {
    let tree = Entry::Dir("d", vec![Entry::File("ok", 4), Entry::Broken("gone")]);
    let (root, errors) = scan(&tree, 3, 0);
    assert_eq!(errors, vec!["/data/d/gone: permission denied".to_string()]);
    let children = root.children.as_ref().unwrap();
    assert_eq!(names(children), vec!["ok", "gone"]);
    assert_eq!(
        children[1],
        ScanNode {
            name: "gone".to_string(),
            path: "/data/d/gone".to_string(),
            kind: NodeKind::Dir,
            size: 0,
            children: Some(vec![]),
            omitted_children: None,
        }
    );
    assert_eq!(root.size, 4);
}

#[test]
fn unreadable_root_is_recorded_and_the_scan_still_completes() {
    let (root, errors) = scan(&Entry::Broken("gone"), 3, 0);
    assert_eq!(errors, vec!["/data/gone: permission denied".to_string()]);
    assert_eq!(root.kind, NodeKind::Dir);
    assert_eq!(root.size, 0);
    assert_eq!(root.children, Some(vec![]));
}

#[test]
fn directory_that_cannot_be_listed_is_recorded_and_stands_empty() {
    let tree = Entry::Dir("d", vec![Entry::Locked("secret"), Entry::File("ok", 9)]);
    let (root, errors) = scan(&tree, 3, 0);
    assert_eq!(errors, vec!["/data/d/secret: permission denied".to_string()]);
    let children = root.children.as_ref().unwrap();
    assert_eq!(names(children), vec!["ok", "secret"]);
    assert_eq!(children[1].children, Some(vec![]));
    assert_eq!(children[1].omitted_children, None);
    assert_eq!(children[1].size, 0);
}

#[test]
fn listing_entries_that_fail_are_recorded_and_the_rest_is_scanned() {
    let mut session = ScanSession::new("scan".to_string());
    let listing = Listing::Entries(vec![
        Ok("/d/a".to_string()),
        Err("input/output error".to_string()),
        Ok("/d/b".to_string()),
        Err("stale handle".to_string()),
    ]);
    let expansion = session.expand("/d", listing);
    assert_eq!(expansion, Expansion::Children(vec!["/d/a".to_string(), "/d/b".to_string()]));
    assert_eq!(
        session.errors(),
        &vec!["/d: input/output error".to_string(), "/d: stale handle".to_string()]
    );
    assert_eq!(session.counters().entries, 0);
}

#[test]
fn failed_listing_finishes_the_directory() {
    let mut session = ScanSession::new("scan".to_string());
    let expansion = session.expand("/d", Listing::Failed { cause: "denied".to_string() });
    assert_eq!(expansion, Expansion::Finished(ScanNode::placeholder("/d", 0)));
    assert_eq!(session.errors(), &vec!["/d: denied".to_string()]);
}

#[test]
fn cancelled_branch_stands_as_an_empty_directory_beside_its_siblings() {
    let mut session = ScanSession::new("scan".to_string());
    let cancelled = check_cancelled(true).map(|_| file("/d/late", 50));
    assert_eq!(cancelled, Err("cancelled".to_string()));
    let outcomes = vec![
        ("/d/early".to_string(), Ok(file("/d/early", 8))),
        ("/d/late".to_string(), cancelled),
        ("/d/other".to_string(), Ok(file("/d/other", 3))),
    ];
    let node = session.finish_dir("/d", outcomes, 0).unwrap();
    let children = node.children.as_ref().unwrap();
    assert_eq!(names(children), vec!["early", "other", "late"]);
    assert_eq!(children[2], ScanNode::placeholder("/d/late", 0));
    assert_eq!(children[2].children, Some(vec![]));
    assert_eq!(node.size, 11);
    assert_eq!(session.errors(), &vec!["cancelled".to_string()]);
}

#[test]
fn failures_of_children_are_recorded_in_the_order_of_the_visits() {
    let mut session = ScanSession::new("scan".to_string());
    let outcomes = vec![
        ("/d/a".to_string(), Err("first".to_string())),
        ("/d/b".to_string(), Ok(file("/d/b", 1))),
        ("/d/c".to_string(), Err("second".to_string())),
    ];
    let children = session.absorb(outcomes);
    assert_eq!(
        children,
        vec![ScanNode::placeholder("/d/a", 0), file("/d/b", 1), ScanNode::placeholder("/d/c", 0)]
    );
    assert_eq!(session.errors(), &vec!["first".to_string(), "second".to_string()]);
}

#[test]
fn entered_branch_goes_on_when_the_flag_is_clear() {
    assert_eq!(check_cancelled(false), Ok(()));
}

#[test]
fn file_is_counted_with_its_length() {
    let mut session = ScanSession::new("scan".to_string());
    let (visit, _) = session.visit_at(0, "/d/file.bin", Probe::File { len: 77 }, 9, 2);
    assert_eq!(
        visit,
        Visit::Finished(ScanNode {
            name: "file.bin".to_string(),
            path: "/d/file.bin".to_string(),
            kind: NodeKind::File,
            size: 77,
            children: None,
            omitted_children: None,
        })
    );
    assert_eq!(session.counters().entries, 1);
    assert_eq!(session.counters().bytes, 77);
}

#[test]
fn directory_is_counted_as_one_entry_of_no_bytes() {
    let mut session = ScanSession::new("scan".to_string());
    let (visit, _) = session.visit_at(0, "/d", Probe::Dir, 0, 1);
    assert_eq!(visit, Visit::Expand);
    assert_eq!(session.counters().entries, 1);
    assert_eq!(session.counters().bytes, 0);
}

#[test]
fn directory_is_collapsed_at_and_beyond_the_depth_limit() {
    let mut session = ScanSession::new("scan".to_string());
    assert_eq!(session.visit_at(0, "/d", Probe::Dir, 2, 3).0, Visit::Expand);
    assert_eq!(session.visit_at(0, "/d", Probe::Dir, 3, 3).0, Visit::Collapse);
    assert_eq!(session.visit_at(0, "/d", Probe::Dir, 4, 3).0, Visit::Collapse);
    assert_eq!(session.visit_at(0, "/d", Probe::Dir, 0, 0).0, Visit::Collapse);
    assert_eq!(session.visit_at(0, "/d", Probe::Dir, u32::MAX, u32::MAX).0, Visit::Collapse);
    assert_eq!(session.counters().entries, 5);
}

#[test]
fn unreadable_entry_is_not_counted() {
    let mut session = ScanSession::new("scan".to_string());
    let (visit, progress) =
        session.visit_at(1000, "/d/x", Probe::Unreadable { cause: "denied".to_string() }, 0, 3);
    assert_eq!(visit, Visit::Finished(ScanNode::placeholder("/d/x", 0)));
    assert_eq!(progress, None);
    assert_eq!(session.counters().entries, 0);
    assert_eq!(session.last_emit_ms(), 0);
    assert_eq!(session.errors(), &vec!["/d/x: denied".to_string()]);
}

#[test]
fn visit_by_the_clock_plans_as_a_visit_at_a_given_time() {
    let mut session = ScanSession::new("scan".to_string());
    let (visit, progress) = session.visit("/d/f", Probe::File { len: 3 }, 0, 1);
    assert_eq!(visit, Visit::Finished(file("/d/f", 3)));
    if let Some(event) = progress {
        assert_eq!(event.scanned_bytes, 3);
        assert_eq!(event.current_path, Some("/d/f".to_string()));
    }
    assert_eq!(session.counters().bytes, 3);
    assert_eq!(session.visit("/d", Probe::Dir, 1, 1).0, Visit::Collapse);
    assert_eq!(session.counters().entries, 2);
}

#[test]
fn collapsed_directory_below_the_root_keeps_its_full_total() {
    let (root, _) = scan(&nested(), 1, 0);
    let children = root.children.as_ref().unwrap();
    assert_eq!(names(children), vec!["big", "src", "readme", "empty"]);
    assert_eq!(children[1].size, 403);
    assert_eq!(children[1].children, None);
    assert_eq!(children[3].children, None);
    assert_eq!(root.size, 1408);
}

#[test]
fn directory_whose_kept_children_overflow_is_refused() {
    let children = vec![file("/d/a", u64::MAX), file("/d/b", 1)];
    assert_eq!(assemble_dir("/d", children, 0), None);
}

#[test]
fn directory_whose_kept_children_fit_exactly_is_made() {
    let children = vec![file("/d/a", 1), file("/d/b", u64::MAX - 1)];
    let node = assemble_dir("/d", children, 0).unwrap();
    assert_eq!(node.size, u64::MAX);
}

#[test]
fn overflow_among_omitted_children_does_not_matter() {
    let children = vec![file("/d/a", 2), file("/d/b", u64::MAX), file("/d/c", 1)];
    let node = assemble_dir("/d", children, 1).unwrap();
    assert_eq!(node.size, u64::MAX);
    assert_eq!(node.omitted_children, Some(2));
    assert_eq!(names(node.children.as_ref().unwrap()), vec!["b"]);
}

#[test]
fn ranking_agrees_with_a_stable_sort() {
    let mut state: u64 = 12345;
    let mut nodes = Vec::new();
    for i in 0..2000 {
        state = state.wrapping_mul(6364136223846793005).wrapping_add(1442695040888963407);
        nodes.push(file(&format!("/d/{}", i), (state >> 33) % 50));
    }
    let mut expected = clone_nodes(&nodes);
    expected.sort_by(|a, b| b.size.cmp(&a.size));
    assert_eq!(rank_by_size(nodes), expected);
}

#[test]
fn ranking_of_nothing_and_of_one_node() {
    assert_eq!(rank_by_size(vec![]), vec![]);
    assert_eq!(rank_by_size(vec![file("/a", 3)]), vec![file("/a", 3)]);
}

#[test]
fn copy_of_a_tree_is_deep() {
    let (root, _) = scan(&nested(), 10, 2);
    let copy = root.clone();
    assert_eq!(copy, root);
    assert_eq!(clone_nodes(root.children.as_ref().unwrap()), root.children.unwrap());
}

#[test]
fn constructors_name_the_node_after_its_path() {
    assert_eq!(ScanNode::file("/a/b/c.txt", 1).name, "c.txt");
    assert_eq!(ScanNode::collapsed("/a/b", 9).name, "b");
    assert_eq!(ScanNode::collapsed("/a/b", 9).children, None);
    assert_eq!(ScanNode::collapsed("/a/b", 9).kind, NodeKind::Dir);
    assert_eq!(ScanNode::placeholder("/", 0).name, "/");
    assert_eq!(ScanNode::placeholder("/x", 5).size, 5);
}
