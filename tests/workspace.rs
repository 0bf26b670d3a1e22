use vhd_workspace::letters::{pick_free_letter, pick_two_letters};
use vhd_workspace::lifecycle::{
    failure_record, finish_delete_bcd, finish_update_bcd_description, new_id, plan_boot_sequence,
    plan_delete_bcd, plan_delete_subtree, plan_update_bcd_description, Action, Event, Outcome,
    Phase, Provision,
};
use vhd_workspace::models::{AppError, CommandOutput, Node, NodeStatus};
use vhd_workspace::paths::{join_path, AppPaths};
use vhd_workspace::workspace::{
    command_error, derive_name_from_path, detect_efi_partition, detect_system_partition,
    normalize_path, resolve_guid, subtree_order,
};
use vhd_workspace::diskpart::parse_list_partition;

fn node(id: &str, parent: Option<&str>, path: &str, guid: Option<&str>) -> Node {
    Node {
        id: id.to_string(),
        parent_id: parent.map(|p| p.to_string()),
        name: id.to_string(),
        path: path.to_string(),
        bcd_guid: guid.map(|g| g.to_string()),
        desc: None,
        created_at: 0,
        status: NodeStatus::Normal,
        boot_files_ready: guid.is_some(),
    }
}

fn ok_output(stdout: &str) -> CommandOutput {
    CommandOutput { exit_code: Some(0), stdout: stdout.to_string(), stderr: String::new() }
}

fn failed_output(code: i32, stderr: &str) -> CommandOutput {
    CommandOutput { exit_code: Some(code), stdout: String::new(), stderr: stderr.to_string() }
}

#[test]
fn normalize_ignores_case_separators_and_prefix() {
    let a = normalize_path("  \\\\?\\C:/WS/Base/0001-Win.VHDX ");
    let b = normalize_path("c:\\ws\\base\\0001-win.vhdx");
    assert_eq!(a, "c:\\ws\\base\\0001-win.vhdx");
    assert_eq!(a, b);
    assert_eq!(normalize_path(&a), a);
}

#[test]
fn names_derived_from_paths() {
    assert_eq!(derive_name_from_path("C:\\ws\\base\\0003-win11.vhdx"), "win11");
    assert_eq!(derive_name_from_path("C:/ws/diff/lab.vhdx"), "lab");
    assert_eq!(derive_name_from_path("C:\\ws\\a1-b.vhdx"), "a1-b");
    assert_eq!(derive_name_from_path("C:\\ws\\0007-.vhdx"), "0007-");
    assert_eq!(derive_name_from_path("C:\\ws\\"), "vhdx");
    assert_eq!(derive_name_from_path("-x.vhdx"), "x");
}

#[test]
fn letters_from_reserved_range() {
    // C: and S: in use
    let mask: u32 = (1 << 2) | (1 << 18);
    assert_eq!(pick_free_letter(mask), Some('T'));
    assert_eq!(pick_two_letters(mask), Some(('T', 'U')));
    assert_eq!(pick_free_letter(0), None);
    let all_taken: u32 = 0xFF << 18;
    assert_eq!(pick_free_letter(all_taken | 4), None);
    let one_free: u32 = (0xFF << 18) & !(1 << 25);
    assert_eq!(pick_free_letter(one_free), Some('Z'));
    assert_eq!(pick_two_letters(one_free), None);
}

#[test]
fn paths_of_a_workspace() {
    let p = AppPaths::new("D:\\ws".to_string());
    assert_eq!(p.root(), "D:\\ws");
    assert_eq!(p.base_dir(), "D:\\ws\\base");
    assert_eq!(p.diff_dir(), "D:\\ws\\diff");
    assert_eq!(p.tmp_dir(), "D:\\ws\\meta\\tmp");
    assert_eq!(p.locales_dir(), "D:\\ws\\meta\\locales");
    assert_eq!(p.mount_root(), "D:\\ws\\meta\\mnt");
    assert_eq!(p.state_db_path(), "D:\\ws\\meta\\state.db");
    assert_eq!(p.ops_log_path(), "D:\\ws\\meta\\ops.log");
    assert_eq!(p.layout().len(), 7);
    assert_eq!(join_path("D:\\ws\\", "a"), "D:\\ws\\a");
    assert_eq!(join_path("", "a"), "a");
}

#[test]
fn command_failure_message() {
    let e = command_error("bcdboot", &failed_output(-5, "  access denied \n"), Some("C:\\t\\s.txt"));
    assert_eq!(e.message(), "bcdboot failed: exit=-5 | script=C:\\t\\s.txt | stderr=access denied");
    let e2 = command_error(
        "dism apply",
        &CommandOutput { exit_code: None, stdout: String::new(), stderr: String::new() },
        None,
    );
    assert_eq!(e2.message(), "dism apply failed: no output");
    let e3 = command_error("x", &CommandOutput { exit_code: Some(2), stdout: " out ".into(), stderr: "".into() }, None);
    assert_eq!(e3.message(), "x failed: exit=2 | stdout=out");
    assert_eq!(AppError::NoFreeLetter.message(), "no free drive letter available between S: and Z:");
}

#[test]
fn partition_roles() {
    let parts = parse_list_partition("Partition 1 System 100 MB\nPartition 2 Reserved 16 MB\nPartition 3 Primary 60 GB\n");
    assert_eq!(detect_system_partition(&parts), Some(3));
    assert_eq!(detect_efi_partition(&parts), Some(1));
    let parts2 = parse_list_partition("Partition 1 Recovery 500 MB\nPartition 2 Reserved 16 MB\nPartition 4 basic 60 GB\n");
    assert_eq!(detect_system_partition(&parts2), Some(4));
    assert_eq!(detect_efi_partition(&parts2), Some(2));
    let none = parse_list_partition("Partition 1 Recovery 500 MB\n");
    assert_eq!(detect_system_partition(&none), None);
    assert_eq!(detect_efi_partition(&none), None);
}

#[test]
fn guid_resolution_falls_back_to_letter() {
    let text = "identifier {g1}\ndevice partition=T:\n";
    assert_eq!(resolve_guid(text, "C:\\x.vhdx", 'T').as_deref(), Some("{g1}"));
    assert_eq!(resolve_guid(text, "C:\\x.vhdx", 'S'), None);
}

#[test]
fn subtree_of_a_chain() {
    let nodes = vec![
        node("A", None, "a.vhdx", Some("{ga}")),
        node("B", Some("A"), "b.vhdx", None),
        node("C", Some("B"), "c.vhdx", Some("{gc}")),
        node("D", None, "d.vhdx", None),
    ];
    let order = subtree_order(&nodes, "A");
    assert_eq!(order, vec!["C".to_string(), "B".to_string(), "A".to_string()]);
    let mid = subtree_order(&nodes, "B");
    assert_eq!(mid, vec!["C".to_string(), "B".to_string()]);
}

#[test]
fn delete_subtree_chain_plan() {
    let nodes = vec![
        node("A", None, "a.vhdx", Some("{ga}")),
        node("B", Some("A"), "b.vhdx", None),
        node("C", Some("B"), "c.vhdx", Some("{gc}")),
        node("D", None, "d.vhdx", None),
    ];
    let paths = AppPaths::new("W:\\ws".to_string());
    let plan = plan_delete_subtree(&nodes, "A", &paths);
    let mut ids = plan.order.clone();
    ids.sort();
    assert_eq!(ids, vec!["A".to_string(), "B".to_string(), "C".to_string()]);
    assert_eq!(plan.cleanups.len(), 3);
    let c = plan.cleanups[0].as_ref().unwrap();
    assert_eq!(c.file, "c.vhdx");
    assert_eq!(c.boot_entry.as_ref().unwrap().args, vec!["/delete", "{gc}"]);
    assert_eq!(c.detach_script_path, "W:\\ws\\meta\\tmp\\detach_cleanup.txt");
    assert!(plan.cleanups[1].as_ref().unwrap().boot_entry.is_none());
    assert_eq!(plan.cleanups[2].as_ref().unwrap().boot_entry.as_ref().unwrap().args, vec!["/delete", "{ga}"]);
    assert_eq!(plan.op.action, "delete_subtree");
    assert_eq!(plan.op.detail, "count=3");
    assert_eq!(plan.op.node_id.as_deref(), Some("A"));
}

#[test]
fn delete_subtree_of_unknown_node() {
    let nodes = vec![node("A", None, "a.vhdx", None)];
    let plan = plan_delete_subtree(&nodes, "Z", &AppPaths::new("W:".to_string()));
    assert_eq!(plan.order, vec!["Z".to_string()]);
    assert!(plan.cleanups[0].is_none());
}

#[test]
fn create_base_without_free_letter_fails() {
    let paths = AppPaths::new("W:\\ws".to_string());
    let all_taken: u32 = (0xFF << 18) | 4;
    let r = Provision::create_base("Win", None, "D:\\i.wim", 1, 64, 2, 1_700_000_000_000, &paths, all_taken);
    assert!(matches!(r, Err(AppError::NoFreeLetter)));
    let r0 = Provision::create_base("Win", None, "D:\\i.wim", 1, 64, 2, 1_700_000_000_000, &paths, 0);
    assert!(matches!(r0, Err(AppError::NoFreeLetter)));
}

#[test]
fn create_base_runs_to_a_node() {
    let paths = AppPaths::new("W:\\ws".to_string());
    let mask: u32 = 4;
    let (mut m, a) = Provision::create_base("Win11", Some("lab".into()), "D:\\i.wim", 6, 64, 2, 1_700_000_000_000, &paths, mask).unwrap();
    assert_eq!(m.vhd_path, "W:\\ws\\base\\0002-win11.vhdx");
    assert_eq!(m.node_id.len(), 36);
    match a {
        Action::RunScript { path, script } => {
            assert_eq!(path, "W:\\ws\\meta\\tmp\\create_base.txt");
            assert!(script.contains("maximum=65536"));
            assert!(script.contains("assign letter=S"));
            assert!(script.contains("assign letter=T"));
        }
        _ => panic!("expected a script"),
    }
    match m.advance(Event::Output(ok_output(""))) {
        Action::Run(inv) => assert_eq!(inv.args[4], "/ApplyDir:T:\\"),
        _ => panic!("expected the image deployment"),
    }
    match m.advance(Event::Output(ok_output(""))) {
        Action::Run(inv) => assert_eq!(inv.args, vec!["T:\\Windows", "/d"]),
        _ => panic!("expected boot file installation"),
    }
    match m.advance(Event::Output(ok_output(""))) {
        Action::Run(inv) => assert_eq!(inv.args, vec!["/enum", "all"]),
        _ => panic!("expected enumeration"),
    }
    let listing = "identifier {new}\ndevice vhd=[W:]\\ws\\base\\0002-win11.vhdx\n";
    match m.advance(Event::Output(ok_output(listing))) {
        Action::RunScript { path, script } => {
            assert_eq!(path, "W:\\ws\\meta\\tmp\\detach_base.txt");
            assert!(script.contains("remove letter=S noerr"));
            assert!(script.ends_with("detach vdisk"));
        }
        _ => panic!("expected detach"),
    }
    // a failed detach does not undo the operation
    match m.advance(Event::Failed(AppError::Message("gone".into()))) {
        Action::Finish(Outcome::Created(n, op)) => {
            assert_eq!(n.path, "W:\\ws\\base\\0002-win11.vhdx");
            assert_eq!(n.bcd_guid.as_deref(), Some("{new}"));
            assert!(n.boot_files_ready);
            assert_eq!(n.desc.as_deref(), Some("lab"));
            assert_eq!(n.parent_id, None);
            assert_eq!(n.created_at, 1_700_000_000_000);
            assert_eq!(op.action, "create_base");
            assert_eq!(op.result, "ok");
        }
        _ => panic!("expected the node"),
    }
    assert_eq!(m.phase, Phase::Finished);
}

#[test]
fn create_base_stops_on_script_failure() {
    let paths = AppPaths::new("W:\\ws".to_string());
    let (mut m, _) = Provision::create_base("a", None, "i.wim", 1, 1, 1, 1_700_000_000_000, &paths, 4).unwrap();
    match m.advance(Event::Output(failed_output(1, "boom"))) {
        Action::Fail(e) => assert_eq!(
            e.message(),
            "diskpart create base failed: exit=1 | script=W:\\ws\\meta\\tmp\\create_base.txt | stderr=boom"
        ),
        _ => panic!("expected failure"),
    }
    assert_eq!(m.phase, Phase::Finished);
}

#[test]
fn create_diff_detects_partitions() {
    let paths = AppPaths::new("W:\\ws".to_string());
    let parent = node("P", None, "W:\\ws\\base\\0001-b.vhdx", None);
    assert!(matches!(
        Provision::create_diff(None, "c", None, 3, 1_700_000_000_000, &paths, 4),
        Err(AppError::NotFound(_))
    ));
    let (mut m, a) = Provision::create_diff(Some(parent), "Child", None, 3, 1_700_000_000_000, &paths, 4).unwrap();
    match a {
        Action::RunScript { script, .. } => assert!(script.contains("parent=\"W:\\ws\\base\\0001-b.vhdx\"")),
        _ => panic!("expected a script"),
    }
    let listing = "Partition 1 System 100 MB\nPartition 2 Reserved 16 MB\nPartition 3 Primary 60 GB\n";
    match m.advance(Event::Output(ok_output(listing))) {
        Action::RunScript { path, script } => {
            assert_eq!(path, "W:\\ws\\meta\\tmp\\assign_diff.txt");
            assert_eq!(
                script,
                "select vdisk file=\"W:\\ws\\diff\\0003-child.vhdx\"\nselect partition 1\nassign letter=S noerr\nselect partition 3\nassign letter=T noerr\nlist volume"
            );
        }
        _ => panic!("expected assignment"),
    }
}

#[test]
fn create_diff_fails_when_roles_unknown() {
    let paths = AppPaths::new("W:\\ws".to_string());
    let parent = node("P", None, "p.vhdx", None);
    let (mut m, _) = Provision::create_diff(Some(parent), "c", None, 3, 1_700_000_000_000, &paths, 4).unwrap();
    match m.advance(Event::Output(ok_output("Partition 1 Recovery 500 MB\n"))) {
        Action::Fail(AppError::Detection(_)) => {}
        _ => panic!("expected detection failure"),
    }
}

#[test]
fn repair_describes_found_entry() {
    let paths = AppPaths::new("W:\\ws".to_string());
    let n = node("N", None, "W:\\ws\\base\\0001-b.vhdx", None);
    let (mut m, _) = Provision::repair(Some(n), Some("Lab".into()), &paths, 4).unwrap();
    assert_eq!(m.sys_letter, 'S');
    match m.advance(Event::Output(ok_output("Partition 1 Primary 60 GB\n"))) {
        Action::RunScript { script, .. } => assert!(script.contains("select partition 1\nassign letter=S noerr")),
        _ => panic!("expected assignment"),
    }
    m.advance(Event::Output(ok_output("")));
    m.advance(Event::Output(ok_output("")));
    match m.advance(Event::Output(ok_output("identifier {r}\ndevice partition=S:\n"))) {
        Action::Run(inv) => assert_eq!(inv.args, vec!["/set", "{r}", "description", "Lab"]),
        _ => panic!("expected description"),
    }
    m.advance(Event::Output(failed_output(1, "")));
    match m.advance(Event::Output(ok_output(""))) {
        Action::Finish(Outcome::Repaired { node_id, guid, op }) => {
            assert_eq!(node_id, "N");
            assert_eq!(guid.as_deref(), Some("{r}"));
            assert_eq!(op.action, "repair_bcd");
            assert_eq!(op.detail, "Lab");
        }
        _ => panic!("expected outcome"),
    }
}

#[test]
fn boot_entry_operations() {
    let with = Some(node("N", None, "n.vhdx", Some("{g}")));
    let without = Some(node("M", None, "m.vhdx", None));
    assert!(matches!(plan_delete_bcd(&None), Err(AppError::NotFound(_))));
    assert_eq!(plan_delete_bcd(&with).unwrap().unwrap().args, vec!["/delete", "{g}"]);
    assert!(plan_delete_bcd(&without).unwrap().is_none());
    assert!(finish_delete_bcd("N", Some(&failed_output(1, "x"))).is_err());
    assert_eq!(finish_delete_bcd("N", None).unwrap().action, "delete_bcd");
    assert!(matches!(plan_update_bcd_description(&without, "d"), Err(AppError::MissingBootEntry)));
    assert_eq!(plan_update_bcd_description(&with, "d").unwrap().args[3], "d");
    assert!(finish_update_bcd_description("N", "d", &failed_output(2, "")).is_err());
    assert_eq!(finish_update_bcd_description("N", "d", &ok_output("")).unwrap().detail, "d");
    let (s, r, op) = plan_boot_sequence(&with).unwrap();
    assert_eq!(s.args, vec!["/bootsequence", "{g}"]);
    assert_eq!(r.program, "shutdown");
    assert_eq!(op.action, "bootsequence_reboot");
    assert!(matches!(plan_boot_sequence(&without), Err(AppError::MissingBootEntry)));
}

#[test]
fn fresh_identifiers() {
    let a = new_id();
    let b = new_id();
    assert_eq!(a.len(), 36);
    assert_ne!(a, b);
}

#[test]
fn failed_operation_record() {
    let op = failure_record(Some("N"), "delete_bcd", "bcdedit delete failed: exit=1 | no output");
    assert_eq!(op.node_id.as_deref(), Some("N"));
    assert_eq!(op.action, "delete_bcd");
    assert_eq!(op.result, "error");
    assert_eq!(op.detail, "bcdedit delete failed: exit=1 | no output");
    assert!(failure_record(None, "create_base", "x").node_id.is_none());
}

#[test]
fn long_path_prefix_in_any_separator_style() {
    assert_eq!(normalize_path("//?/C:/x"), normalize_path("\\\\?\\c:\\x"));
    assert_eq!(normalize_path("//?/C:/x"), "c:\\x");
    let once = normalize_path("\\\\?\\ //?/ C:/x ");
    assert_eq!(once, "c:\\x");
    assert_eq!(normalize_path(&once), once);
}

#[test]
fn command_output_is_cut() {
    let long = "e".repeat(900);
    let e = command_error("t", &failed_output(3, &long), None);
    assert_eq!(e.message(), format!("t failed: exit=3 | stderr={}", "e".repeat(500)));
}

#[test]
fn repair_without_description_records_empty_detail() {
    let paths = AppPaths::new("W:\\ws".to_string());
    let n = node("N", None, "W:\\ws\\base\\0001-b.vhdx", None);
    let (mut m, _) = Provision::repair(Some(n), None, &paths, 4).unwrap();
    m.advance(Event::Output(ok_output("Partition 1 Primary 60 GB\n")));
    m.advance(Event::Output(ok_output("")));
    m.advance(Event::Output(ok_output("")));
    match m.advance(Event::Output(ok_output("identifier {r}\ndevice partition=S:\n"))) {
        Action::RunScript { path, .. } => assert_eq!(path, "W:\\ws\\meta\\tmp\\detach_repair.txt"),
        _ => panic!("expected detach"),
    }
    match m.advance(Event::Output(ok_output(""))) {
        Action::Finish(Outcome::Repaired { guid, op, .. }) => {
            assert_eq!(guid.as_deref(), Some("{r}"));
            assert_eq!(op.detail, "");
        }
        _ => panic!("expected outcome"),
    }
}

#[test]
fn disk_file_names() {
    assert_eq!(vhd_workspace::lifecycle::disk_file_for(7, "win"), "0007-win.vhdx");
    assert_eq!(vhd_workspace::lifecycle::disk_file_for(12345, "x"), "12345-x.vhdx");
    assert_eq!(NodeStatus::MissingParent.as_name(), "MissingParent");
    assert_eq!(NodeStatus::default(), NodeStatus::Normal);
}
