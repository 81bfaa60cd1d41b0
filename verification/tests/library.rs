use magnetar::attrs::Attribute;
use magnetar::delta::{modifications_with, DeltaType};
use magnetar::compare::compare;
use magnetar::fs_node::{FsNode, NodeType};
use magnetar::paths::{path_le_exec, path_lt_exec, virtual_path_exec};
use magnetar::perms::Permission;
use magnetar::pool::{make_pool, validate_roots};
use magnetar::strutil::{i64_to_string, join_strings, u64_to_string};

fn record(parent: &str, name: &str) -> FsNode {
    let mut n = FsNode::new();
    n.parent_path = parent.to_string();
    n.name = name.to_string();
    n
}

#[test]
fn nested_roots_are_rejected_with_both_named() {
    let roots = vec!["/a".to_string(), "/a/b".to_string()];
    let conflicts = validate_roots(&roots).unwrap_err();
    assert_eq!(conflicts.len(), 2);
    assert!(conflicts.contains(&"/a".to_string()));
    assert!(conflicts.contains(&"/a/b".to_string()));
}

#[test]
fn disjoint_roots_are_accepted() {
    let roots = vec!["/a".to_string(), "/b".to_string()];
    assert!(validate_roots(&roots).is_ok());
}

#[test]
fn equal_roots_conflict() {
    let roots = vec!["/a".to_string(), "/a".to_string()];
    let conflicts = validate_roots(&roots).unwrap_err();
    assert_eq!(conflicts.len(), 1);
    assert_eq!(conflicts[0], "/a");
}

#[test]
fn virtual_path_round_trip() {
    let vp = virtual_path_exec("/r", "/r/sub", "file.txt");
    assert_eq!(vp, "sub/file.txt");
    assert_eq!(format!("{}/{}", "/r", vp), "/r/sub/file.txt");
    let vp2 = virtual_path_exec("/", "/r", "x");
    assert_eq!(vp2, "r/x");
}

#[test]
fn pool_orders_by_path_segments() {
    let records = vec![
        record("/r/foo-bar", "f"),
        record("/r/foo", "bar"),
        record("/r", "foo"),
    ];
    let pool = make_pool(&records, vec!["/r".to_string()]).unwrap();
    assert_eq!(pool.nodes.len(), 3);
    assert_eq!(pool.nodes[0].virtual_path, "foo");
    assert_eq!(pool.nodes[1].virtual_path, "foo/bar");
    assert_eq!(pool.nodes[2].virtual_path, "foo-bar/f");
}

#[test]
fn duplicate_virtual_path_fails_the_build() {
    let records = vec![record("/r1", "x"), record("/r2", "x")];
    let err = make_pool(&records, vec!["/r1".to_string(), "/r2".to_string()]).unwrap_err();
    assert_eq!(
        err.message(),
        "AppError::WithMessage: 'duplicate virtual path for the given roots: 'x''"
    );
}

#[test]
fn records_outside_every_root_are_dropped() {
    let records = vec![record("/other", "y"), record("/r", "x")];
    let pool = make_pool(&records, vec!["/r".to_string()]).unwrap();
    assert_eq!(pool.nodes.len(), 1);
    assert_eq!(pool.nodes[0].virtual_path, "x");
}

#[test]
fn modified_checksum_is_reported_with_old_and_new() {
    let mut a = record("/r", "x");
    a.size = 10;
    a.sha1_checksum = "aaa".to_string();
    let mut b = record("/r", "x");
    b.size = 10;
    b.sha1_checksum = "bbb".to_string();
    let pool_a = make_pool(&vec![a], vec!["/r".to_string()]).unwrap();
    let pool_b = make_pool(&vec![b], vec!["/r".to_string()]).unwrap();
    let deltas = compare(pool_a, pool_b, &Attribute::all());
    assert_eq!(deltas.len(), 1);
    match deltas[0].delta_type() {
        DeltaType::Modification(lines) => {
            assert_eq!(lines.len(), 1);
            assert_eq!(lines[0], "sha1: aaa -> bbb");
        }
        other => panic!("expected a modification, got {:?}", other),
    }
    assert_eq!(deltas[0].delta_info(), "sha1: aaa -> bbb");
}

#[test]
fn comparing_a_pool_against_itself_yields_only_unchanged() {
    let mk = || {
        vec![record("/r", "a"), record("/r", "b"), record("/r/a", "c")]
    };
    let pool_a = make_pool(&mk(), vec!["/r".to_string()]).unwrap();
    let pool_b = make_pool(&mk(), vec!["/r".to_string()]).unwrap();
    let deltas = compare(pool_a, pool_b, &Attribute::all());
    assert_eq!(deltas.len(), 3);
    for d in &deltas {
        assert!(d.delta_type().is_unchanged());
        assert!(!d.delta_type().is_created_or_deleted());
    }
}

#[test]
fn uid_only_change_depends_on_the_attribute_set() {
    let mut a = record("/r", "x");
    a.uid = 1;
    let mut b = record("/r", "x");
    b.uid = 2;
    let lines_min =
        modifications_with(&a, &b, &Attribute::minimum(), "", "", "", "");
    assert!(lines_min.is_empty());
    let lines_full = modifications_with(&a, &b, &Attribute::all(), "", "", "", "");
    assert_eq!(lines_full, vec!["uid: 1 -> 2".to_string()]);
}

#[test]
fn union_splits_into_deletion_creation_and_intersection() {
    let pool_a = make_pool(
        &vec![record("/r", "a"), record("/r", "b")],
        vec!["/r".to_string()],
    )
    .unwrap();
    let pool_b = make_pool(
        &vec![record("/r", "b"), record("/r", "c")],
        vec!["/r".to_string()],
    )
    .unwrap();
    let deltas = compare(pool_a, pool_b, &Attribute::medium());
    assert_eq!(deltas.len(), 3);
    assert_eq!(deltas[0].virtual_path_str(), "a");
    assert!(matches!(deltas[0].delta_type(), DeltaType::Deletion));
    assert_eq!(deltas[0].delta_info(), "[deletion]");
    assert_eq!(deltas[1].virtual_path_str(), "b");
    assert!(deltas[1].delta_type().is_unchanged());
    assert_eq!(deltas[1].delta_info(), "");
    assert_eq!(deltas[2].virtual_path_str(), "c");
    assert!(matches!(deltas[2].delta_type(), DeltaType::Creation));
    assert_eq!(deltas[2].delta_info(), "[creation]");
    assert_eq!(deltas[2].delta_type().css_class(), "creation");
}

#[test]
fn delta_prefers_the_new_side_for_root_and_path() {
    let a = record("/r", "x");
    let pool_a = make_pool(&vec![a], vec!["/r".to_string()]).unwrap();
    let pool_b = make_pool(&vec![], vec!["/r".to_string()]).unwrap();
    let deltas = compare(pool_a, pool_b, &Attribute::medium());
    assert_eq!(deltas.len(), 1);
    assert_eq!(deltas[0].root_path_str(), "/r");
    assert_eq!(deltas[0].virtual_path_str(), "x");
    assert_eq!(deltas[0].file_type(), NodeType::File);
}

#[test]
fn path_order_puts_descendants_before_separator_collisions() {
    assert!(path_lt_exec("/foo", "/foo/bar"));
    assert!(path_lt_exec("/foo/bar", "/foo-bar"));
    assert!(path_le_exec("/foo", "/foo"));
    assert!(!path_lt_exec("/foo", "/foo"));
}

#[test]
fn permissions_render_in_symbolic_form() {
    assert_eq!(Permission::from_val(0o100644), "-rw-r--r--");
    assert_eq!(Permission::from_val(0o040755), "drwxr-xr-x");
    assert_eq!(Permission::from_val(0o104755), "-rwsr-xr-x");
    assert_eq!(Permission::from_val(0o101001), "---------t");
    assert!(Permission::UserRead.is_set(0o100644));
    assert!(!Permission::UserExecute.is_set(0o100644));
    assert_eq!(Permission::Dir.bit(), 0o040000);
    assert_eq!(Permission::Sticky.repr(), (9, 'T'));
}

#[test]
fn node_type_codes_round_trip() {
    for (v, t, s) in [
        (0u32, NodeType::File, ""),
        (1, NodeType::Directory, "D"),
        (2, NodeType::Symlink, "L"),
        (3, NodeType::Other, "-"),
        (4, NodeType::Error, "ERR"),
    ] {
        assert_eq!(NodeType::from(v), Some(t));
        assert_eq!(t.value(), v);
        assert_eq!(t.to_str(), s);
    }
    assert_eq!(NodeType::from(9), None);
    assert!(NodeType::Directory.is_dir());
    assert!(!NodeType::File.is_dir());
    assert_eq!(NodeType::Symlink.display_name(), "symlink");
}

#[test]
fn numbers_format_in_decimal() {
    assert_eq!(u64_to_string(0), "0");
    assert_eq!(u64_to_string(90210), "90210");
    assert_eq!(i64_to_string(-42), "-42");
    assert_eq!(i64_to_string(i64::MIN), "-9223372036854775808");
    assert_eq!(u64_to_string(u64::MAX), "18446744073709551615");
}

#[test]
fn attribute_sets_parse_from_option_strings() {
    let set = Attribute::from_arg("csm").unwrap();
    assert_eq!(set, Attribute::minimum());
    let all = Attribute::from_arg("tcsugpbmlin").unwrap();
    assert_eq!(all, Attribute::all());
    let err = Attribute::from_arg("cs?").unwrap_err();
    assert_eq!(
        err.message(),
        "AppError::WithMessage: ''{}' is not a valid attribute change option.'"
    );
    assert!(Attribute::from_char('u').is_ok());
    assert!(Attribute::from_char('z').is_err());
}

#[test]
fn joined_strings_carry_the_separator() {
    let items = vec!["a".to_string(), "b".to_string(), "c".to_string()];
    assert_eq!(join_strings(&items, ", "), "a, b, c");
    assert_eq!(join_strings(&vec!["x".to_string()], ", "), "x");
    assert_eq!(join_strings(&vec![], ", "), "");
}
