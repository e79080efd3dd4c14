use taskhomie::axtree::{can_show, format_ax_tree, AxNode, AxPropKind, AxProperty, SnapshotIds};
use taskhomie::browser::resolve_uid;

fn node(id: &str, parent: Option<&str>, children: &[&str], role: &str, name: &str, backend: Option<i64>) -> AxNode {
    AxNode {
        node_id: id.to_string(),
        parent_id: parent.map(|p| p.to_string()),
        child_ids: if children.is_empty() { None } else { Some(children.iter().map(|c| c.to_string()).collect()) },
        ignored: false,
        role: Some(role.to_string()),
        name: Some(name.to_string()),
        backend_id: backend,
        properties: vec![],
    }
}

fn sample() -> Vec<AxNode> {
    let root = node("1", None, &["2", "3"], "RootWebArea", "Page", Some(10));
    let mut wrapper = node("2", Some("1"), &["4"], "generic", "", None);
    wrapper.ignored = true;
    let mut button = node("4", Some("2"), &[], "button", "Say \"hi\"", Some(40));
    button.properties = vec![
        AxProperty { kind: AxPropKind::Focusable, as_bool: Some(true), as_str: None },
        AxProperty { kind: AxPropKind::Disabled, as_bool: Some(false), as_str: None },
    ];
    let mut check = node("3", Some("1"), &[], "none", "", None);
    check.properties = vec![AxProperty { kind: AxPropKind::Checked, as_bool: None, as_str: Some("true".to_string()) }];
    vec![root, wrapper, check, button]
}

#[test]
fn snapshot_lines_and_ids() {
    let (text, ids) = format_ax_tree(&sample(), 5, false);
    assert_eq!(
        text,
        "uid=5_0 RootWebArea \"Page\"\n  uid=5_1 button \"Say \\\"hi\\\"\" focusable\n  uid=5_2 ignored checked=true\n"
    );
    assert_eq!(ids, vec![("5_0".to_string(), 10), ("5_1".to_string(), 40)]);
}

#[test]
fn verbose_snapshot_shows_ignored_nodes() {
    let (text, ids) = format_ax_tree(&sample(), 2, true);
    assert_eq!(
        text,
        "uid=2_0 RootWebArea \"Page\"\n  uid=2_1 generic\n    uid=2_2 button \"Say \\\"hi\\\"\" focusable\n  uid=2_3 ignored checked=true\n"
    );
    assert_eq!(ids, vec![("2_0".to_string(), 10), ("2_2".to_string(), 40)]);
}

#[test]
fn snapshot_ids_resolve_to_their_nodes() {
    let (_, ids) = format_ax_tree(&sample(), 7, false);
    for (uid, backend) in &ids {
        assert_eq!(resolve_uid(uid, 7, &ids), Ok(*backend));
    }
}

#[test]
fn tree_without_root_is_empty() {
    let mut nodes = sample();
    for n in nodes.iter_mut() {
        if n.parent_id.is_none() {
            n.parent_id = Some("0".to_string());
        }
    }
    let (text, ids) = format_ax_tree(&nodes, 1, false);
    assert_eq!(text, "");
    assert!(ids.is_empty());
}

#[test]
fn missing_children_are_skipped() {
    let nodes = vec![node("1", None, &["9"], "WebArea", "", None)];
    let (text, ids) = format_ax_tree(&nodes, 4, false);
    assert_eq!(text, "uid=4_0 WebArea\n");
    assert!(ids.is_empty());
}

#[test]
fn only_finite_trees_can_be_shown() {
    assert!(can_show(&sample(), false));
    assert!(can_show(&sample(), true));
    assert!(can_show(&Vec::new(), false));
    // a node that lists its own parent as a child makes a cycle
    let root = node("1", None, &["2"], "RootWebArea", "Page", None);
    let child = node("2", Some("1"), &["1"], "generic", "", None);
    assert!(!can_show(&vec![root, child], false));
}

#[test]
fn snapshots_number_their_ids_and_refuse_older_ones() {
    let mut ids = SnapshotIds::new();
    assert_eq!(ids.current_id(), 0);
    let first = ids.take(&sample(), false).unwrap();
    assert_eq!(ids.current_id(), 1);
    assert!(first.starts_with("uid=1_0 "));
    assert_eq!(ids.backend_id("1_1"), Ok(40));
    let second = ids.take(&sample(), false).unwrap();
    assert!(second.starts_with("uid=2_0 "));
    assert_eq!(ids.current_id(), 2);
    assert_eq!(
        ids.backend_id("1_1"),
        Err("stale uid from snapshot 1, current is 2. take a new snapshot first.".to_string())
    );
    assert_eq!(ids.backend_id("2_1"), Ok(40));
    // a tree that cannot be shown changes nothing
    let root = node("1", None, &["2"], "RootWebArea", "Page", None);
    let child = node("2", Some("1"), &["1"], "generic", "", None);
    assert_eq!(ids.take(&vec![root, child], false), None);
    assert_eq!(ids.current_id(), 2);
    assert_eq!(ids.backend_id("2_1"), Ok(40));
}
