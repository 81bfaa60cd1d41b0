use magnetar::attrs::Attribute;
use magnetar::balancer::{assign_entry, least_loaded, split_workload, Work, WorkUnit};
use magnetar::compare::compare;
use magnetar::delta::DeltaType;
use magnetar::fs_node::{FsNode, NodeType};
use magnetar::hashing::checksum;
use magnetar::indexer::{build_record, node_kind};
use magnetar::pool::make_pool;
use magnetar::report::{deltas_in_order, process_collapse, process_unchanged};

fn record(parent: &str, name: &str, node_type: NodeType) -> FsNode {
    let mut n = FsNode::new();
    n.parent_path = parent.to_string();
    n.name = name.to_string();
    n.node_type = node_type;
    n
}

#[test]
fn collapse_reduces_a_deleted_subtree_to_its_directory() {
    let records = vec![
        record("/r", "d", NodeType::Directory),
        record("/r/d", "f1", NodeType::File),
    ];
    let pool_a = make_pool(&records, vec!["/r".to_string()]).unwrap();
    let pool_b = make_pool(&vec![], vec!["/r".to_string()]).unwrap();
    let deltas = compare(pool_a, pool_b, &Attribute::medium());
    assert_eq!(deltas.len(), 2);
    assert!(deltas_in_order(&deltas));
    let collapsed = process_collapse(deltas, true);
    assert_eq!(collapsed.len(), 1);
    assert_eq!(collapsed[0].virtual_path_str(), "d");
    assert!(matches!(collapsed[0].delta_type(), DeltaType::Deletion));
    assert_eq!(collapsed[0].file_type(), NodeType::Directory);
}

#[test]
fn collapse_keeps_entries_outside_the_parent() {
    let records = vec![
        record("/r", "d", NodeType::Directory),
        record("/r/d", "f1", NodeType::File),
        record("/r", "zoo", NodeType::File),
    ];
    let pool_a = make_pool(&records, vec!["/r".to_string()]).unwrap();
    let pool_b = make_pool(&vec![], vec!["/r".to_string()]).unwrap();
    let deltas = compare(pool_a, pool_b, &Attribute::medium());
    assert_eq!(deltas.len(), 3);
    let collapsed = process_collapse(deltas, true);
    assert_eq!(collapsed.len(), 2);
    assert_eq!(collapsed[0].virtual_path_str(), "d");
    assert_eq!(collapsed[1].virtual_path_str(), "zoo");
}

#[test]
fn collapse_left_off_returns_the_input() {
    let records = vec![
        record("/r", "d", NodeType::Directory),
        record("/r/d", "f1", NodeType::File),
    ];
    let pool_a = make_pool(&records, vec!["/r".to_string()]).unwrap();
    let pool_b = make_pool(&vec![], vec!["/r".to_string()]).unwrap();
    let deltas = compare(pool_a, pool_b, &Attribute::medium());
    let kept = process_collapse(deltas, false);
    assert_eq!(kept.len(), 2);
}

#[test]
fn unchanged_entries_are_dropped_by_default() {
    let mk = |hash: &str| {
        let mut same = record("/r", "same", NodeType::File);
        same.sha1_checksum = "fff".to_string();
        let mut diff = record("/r", "diff", NodeType::File);
        diff.sha1_checksum = hash.to_string();
        vec![same, diff]
    };
    let pool_a = make_pool(&mk("aaa"), vec!["/r".to_string()]).unwrap();
    let pool_b = make_pool(&mk("bbb"), vec!["/r".to_string()]).unwrap();
    let deltas = compare(pool_a, pool_b, &Attribute::medium());
    assert_eq!(deltas.len(), 2);
    let shown = process_unchanged(deltas, false);
    assert_eq!(shown.len(), 1);
    assert_eq!(shown[0].virtual_path_str(), "diff");

    let pool_a = make_pool(&mk("aaa"), vec!["/r".to_string()]).unwrap();
    let pool_b = make_pool(&mk("bbb"), vec!["/r".to_string()]).unwrap();
    let deltas = compare(pool_a, pool_b, &Attribute::medium());
    let all = process_unchanged(deltas, true);
    assert_eq!(all.len(), 2);
}

#[test]
fn workload_splits_near_evenly_by_bytes() {
    let unit = |p: &str, s: u64| WorkUnit { path: p.to_string(), size: s };
    let files = vec![unit("/a", 5), unit("/b", 3), unit("/c", 2), unit("/d", 1)];
    let works = split_workload(files, 2);
    assert_eq!(works.len(), 2);
    assert_eq!(works[0].thread, 0);
    assert_eq!(works[1].thread, 1);
    assert_eq!(works[0].size + works[1].size, 11);
    assert_eq!(works[0].size, 6);
    assert_eq!(works[1].size, 5);
    assert_eq!(works[0].entries, vec!["/a".to_string(), "/d".to_string()]);
    assert_eq!(works[1].entries, vec!["/b".to_string(), "/c".to_string()]);
    let spread = works[0].size.max(works[1].size) - works[0].size.min(works[1].size);
    assert!(spread <= 5);
}

#[test]
fn entries_go_to_the_first_least_loaded_worker() {
    let mut works = vec![
        Work { thread: 0, size: 4, entries: vec![] },
        Work { thread: 1, size: 2, entries: vec![] },
        Work { thread: 2, size: 2, entries: vec![] },
    ];
    assert_eq!(least_loaded(&works), 1);
    assign_entry(&mut works, "/x".to_string(), 7);
    assert_eq!(works[1].size, 9);
    assert_eq!(works[1].entries, vec!["/x".to_string()]);
    assert_eq!(works[0].size, 4);
    assert_eq!(works[2].size, 2);
}

#[test]
fn worker_assignments_accumulate() {
    let mut w = Work { thread: 3, size: 10, entries: vec!["/p".to_string()] };
    w.update("/q".to_string(), 5);
    assert_eq!(w.thread, 3);
    assert_eq!(w.size, 15);
    assert_eq!(w.entries, vec!["/p".to_string(), "/q".to_string()]);
}

#[test]
fn records_assemble_with_the_sentinel_policies() {
    let file = build_record(
        "/r".to_string(),
        "f".to_string(),
        true,
        false,
        true,
        false,
        42,
        1000,
        1001,
        0o100644,
        11,
        12,
        77,
        1,
        None,
        Some("a".repeat(40)),
    );
    assert_eq!(file.node_type, NodeType::File);
    assert_eq!(file.sha1_checksum, "a".repeat(40));
    assert_eq!(file.links_to, "");
    assert_eq!(file.size, 42);
    assert_eq!(file.uid, 1000);
    assert_eq!(file.gid, 1001);
    assert_eq!(file.permissions, 0o100644);
    assert_eq!(file.creation_date, 11);
    assert_eq!(file.modified_date, 12);
    assert_eq!(file.inode, 77);
    assert_eq!(file.nlinks, 1);
    assert_eq!(file.id, 0);

    let unreadable = build_record(
        "/r".to_string(),
        "g".to_string(),
        true,
        false,
        true,
        false,
        0,
        0,
        0,
        0,
        0,
        0,
        0,
        0,
        None,
        None,
    );
    assert_eq!(unreadable.sha1_checksum, "[ERR]");

    let link = build_record(
        "/r".to_string(),
        "l".to_string(),
        true,
        false,
        false,
        true,
        0,
        0,
        0,
        0,
        0,
        0,
        0,
        0,
        Some("/target".to_string()),
        Some("ignored".to_string()),
    );
    assert_eq!(link.node_type, NodeType::Symlink);
    assert_eq!(link.links_to, "/target");
    assert_eq!(link.sha1_checksum, "");

    let broken = build_record(
        "/r".to_string(),
        "b".to_string(),
        false,
        false,
        false,
        false,
        0,
        0,
        0,
        0,
        0,
        0,
        0,
        0,
        None,
        None,
    );
    assert_eq!(broken.node_type, NodeType::Error);
}

#[test]
fn entry_kinds_classify_in_priority_order() {
    assert_eq!(node_kind(true, true, false, false), NodeType::Directory);
    assert_eq!(node_kind(true, false, true, false), NodeType::File);
    assert_eq!(node_kind(true, false, false, true), NodeType::Symlink);
    assert_eq!(node_kind(true, false, false, false), NodeType::Other);
    assert_eq!(node_kind(false, true, true, true), NodeType::Error);
}

#[test]
fn checksums_match_the_reference_digests() {
    assert_eq!(checksum(b"abc"), "a9993e364706816aba3e25717850c26c9cd0d89d");
    assert_eq!(checksum(b""), "da39a3ee5e6b4b0d3255bfef95601890afd80709");
    assert_eq!(checksum(b"abc").len(), 40);
    assert_ne!(checksum(b"abc"), checksum(b"abd"));
}
