use vhd_workspace::models::{CommandOutput, Node, NodeStatus};
use vhd_workspace::scan::{distinct_scans, reconcile, scanned_vhd, ScannedVhd};

fn ok_output(stdout: &str) -> CommandOutput {
    CommandOutput { exit_code: Some(0), stdout: stdout.to_string(), stderr: String::new() }
}

fn ids(n: usize, tag: &str) -> Vec<String> {
    (0..n).map(|i| format!("{tag}{i}")).collect()
}

fn found(path: &str, parent: Option<&str>, enum_text: Option<&str>) -> ScannedVhd {
    let detail = match parent {
        Some(p) => format!("Parent Filename: {p}\n"),
        None => "Virtual disk\n".to_string(),
    };
    scanned_vhd(path, Some(&ok_output(&detail)), enum_text, 7)
}

#[test]
fn scanned_file_facts() {
    let s = scanned_vhd(
        "C:\\WS\\diff\\0002-child.vhdx",
        Some(&ok_output("Parent Path: C:/ws/base/0001-base.vhdx\n")),
        Some("identifier {g}\ndevice vhd=[C:]\\ws\\diff\\0002-child.vhdx\n"),
        5,
    );
    assert_eq!(s.normalized, "c:\\ws\\diff\\0002-child.vhdx");
    assert_eq!(s.parent_normalized.as_deref(), Some("c:\\ws\\base\\0001-base.vhdx"));
    assert!(s.detail_ok);
    assert_eq!(s.bcd_guid.as_deref(), Some("{g}"));
    let failed = scanned_vhd("x.vhdx", Some(&CommandOutput { exit_code: Some(1), stdout: "Parent: y".into(), stderr: "".into() }), None, 0);
    assert!(!failed.detail_ok);
    assert_eq!(failed.parent_normalized, None);
}

#[test]
fn scan_imports_and_links() {
    let existing = vec![Node {
        id: "base".into(),
        parent_id: None,
        name: "base".into(),
        path: "C:\\ws\\base\\0001-base.vhdx".into(),
        bcd_guid: None,
        desc: None,
        created_at: 1,
        status: NodeStatus::Normal,
        boot_files_ready: false,
    }];
    let enum_text = "identifier {b}\ndevice vhd=[C:]\\ws\\base\\0001-base.vhdx\n";
    let scanned = vec![
        found("C:\\ws\\base\\0001-base.vhdx", None, Some(enum_text)),
        found("C:\\WS\\diff\\0002-child.vhdx", Some("c:/ws/base/0001-base.vhdx"), Some(enum_text)),
    ];
    let out = reconcile(&existing, &vec![true], &scanned, &ids(2, "n"), &ids(2, "o"));
    assert_eq!(out.inserted.len(), 1);
    assert_eq!(out.inserted[0].0.id, "n1");
    assert_eq!(out.inserted[0].0.name, "child");
    assert_eq!(out.inserted[0].1.action, "import_vhdx");
    assert_eq!(out.inserted[0].1.detail, "path=C:\\WS\\diff\\0002-child.vhdx");
    assert_eq!(out.parent_updates, vec![("n1".to_string(), Some("base".to_string()))]);
    assert_eq!(out.bcd_updates, vec![("base".to_string(), "{b}".to_string())]);
    assert_eq!(out.nodes.len(), 2);
    assert_eq!(out.nodes[0].bcd_guid.as_deref(), Some("{b}"));
    assert!(out.nodes[0].boot_files_ready);
    assert_eq!(out.nodes[1].parent_id.as_deref(), Some("base"));
    assert_eq!(out.nodes[0].status, NodeStatus::Normal);
    assert_eq!(out.nodes[1].status, NodeStatus::Normal);
    assert_eq!(out.statuses.len(), 2);
}

#[test]
fn scan_twice_changes_nothing() {
    let existing: Vec<Node> = Vec::new();
    let scanned = vec![
        found("C:\\ws\\base\\0001-base.vhdx", None, None),
        found("C:\\ws\\diff\\0002-child.vhdx", Some("C:\\ws\\base\\0001-base.vhdx"), None),
        found("C:\\ws\\diff\\0003-orphan.vhdx", Some("C:\\gone.vhdx"), None),
    ];
    let first = reconcile(&existing, &vec![], &scanned, &ids(3, "n"), &ids(3, "o"));
    assert_eq!(first.inserted.len(), 3);
    assert_eq!(first.nodes[2].status, NodeStatus::MissingParent);
    let present = vec![true; first.nodes.len()];
    let second = reconcile(&first.nodes, &present, &scanned, &ids(3, "m"), &ids(3, "p"));
    assert!(second.inserted.is_empty());
    assert!(second.parent_updates.is_empty());
    assert!(second.bcd_updates.is_empty());
    for (a, b) in first.nodes.iter().zip(second.nodes.iter()) {
        assert_eq!(a.id, b.id);
        assert_eq!(a.status, b.status);
        assert_eq!(a.parent_id, b.parent_id);
    }
}

#[test]
fn statuses_after_scan() {
    let mk = |id: &str, parent: Option<&str>, path: &str| Node {
        id: id.into(),
        parent_id: parent.map(|p| p.into()),
        name: id.into(),
        path: path.into(),
        bcd_guid: None,
        desc: None,
        created_at: 0,
        status: NodeStatus::Normal,
        boot_files_ready: false,
    };
    let existing = vec![
        mk("a", None, "C:\\a.vhdx"),
        mk("gone", None, "C:\\gone.vhdx"),
        mk("bad", None, "C:\\bad.vhdx"),
        mk("b", Some("a"), "C:\\b.vhdx"),
    ];
    let scanned = vec![
        found("C:\\a.vhdx", None, None),
        scanned_vhd("C:\\bad.vhdx", None, None, 0),
        found("C:\\b.vhdx", None, None),
    ];
    let out = reconcile(&existing, &vec![true, false, true, true], &scanned, &ids(3, "n"), &ids(3, "o"));
    assert_eq!(out.nodes[0].status, NodeStatus::Normal);
    assert_eq!(out.nodes[1].status, NodeStatus::MissingFile);
    assert_eq!(out.nodes[2].status, NodeStatus::Error);
    // its disk names no parent, so the stored link is dropped and it is a root again
    assert_eq!(out.parent_updates, vec![("b".to_string(), None)]);
    assert_eq!(out.nodes[3].parent_id, None);
    assert_eq!(out.nodes[3].status, NodeStatus::Normal);
}

#[test]
fn normal_child_points_at_its_disk_parent() {
    let scanned = vec![
        found("C:\\ws\\base\\0001-base.vhdx", None, None),
        found("C:\\ws\\diff\\0002-child.vhdx", Some("C:/WS/BASE/0001-base.vhdx"), None),
    ];
    let out = reconcile(&Vec::new(), &Vec::new(), &scanned, &ids(2, "n"), &ids(2, "o"));
    let child = &out.nodes[1];
    assert_eq!(child.status, NodeStatus::Normal);
    let pid = child.parent_id.clone().unwrap();
    let parent = out.nodes.iter().find(|n| n.id == pid).unwrap();
    assert_eq!(
        vhd_workspace::workspace::normalize_path(&parent.path),
        vhd_workspace::workspace::normalize_path("C:/WS/BASE/0001-base.vhdx")
    );
}

#[test]
fn unscanned_node_with_parent_is_flagged() {
    let mk = |id: &str, parent: Option<&str>, path: &str| Node {
        id: id.into(),
        parent_id: parent.map(|p| p.into()),
        name: id.into(),
        path: path.into(),
        bcd_guid: Some("{g}".into()),
        desc: None,
        created_at: 0,
        status: NodeStatus::Normal,
        boot_files_ready: false,
    };
    let existing = vec![mk("a", None, "D:\\elsewhere\\a.vhdx"), mk("b", Some("a"), "D:\\elsewhere\\b.vhdx"), mk("c", None, "C:\\c.vhdx")];
    let scanned = vec![found("C:\\c.vhdx", None, Some("identifier {g}\ndevice vhd=[C:]\\c.vhdx\n"))];
    let out = reconcile(&existing, &vec![true, true, true], &scanned, &ids(1, "n"), &ids(1, "o"));
    assert_eq!(out.nodes[0].status, NodeStatus::Normal);
    assert_eq!(out.nodes[1].status, NodeStatus::MissingParent);
    // the same entry was found again: the node is marked ready
    assert_eq!(out.bcd_updates, vec![("c".to_string(), "{g}".to_string())]);
    assert!(out.nodes[2].boot_files_ready);
}

#[test]
fn duplicate_scans_are_merged() {
    let scanned = vec![
        found("C:\\ws\\a.vhdx", None, None),
        found("c:/WS/A.vhdx", None, None),
        found("C:\\ws\\b.vhdx", None, None),
    ];
    let d = distinct_scans(&scanned);
    assert_eq!(d.len(), 2);
    assert_eq!(d[0].path, "C:\\ws\\a.vhdx");
    assert_eq!(d[1].path, "C:\\ws\\b.vhdx");
}
