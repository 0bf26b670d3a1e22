use vhd_workspace::bcd::{
    bcdedit_boot_sequence, bcdedit_delete, bcdedit_enum_all, bcdedit_set_description,
    extract_guid_for_partition_letter, extract_guid_for_vhd, restart_now, run_bcdboot,
};

const ENUM: &str = "Windows Boot Loader\n-------------------\nidentifier              {aaaa-1111}\ndevice                  partition=C:\nosdevice                partition=C:\n\nWindows Boot Loader\n-------------------\nidentifier              {bbbb-2222}\ndevice                  vhd=[C:]\\ws\\base\\0001-win.vhdx\nosdevice                vhd=[C:]\\ws\\base\\0001-win.vhdx\n\nWindows Boot Loader\n-------------------\nidentifier              {cccc-3333}\ndevice                  partition=U:\n";

#[test]
fn guid_none_without_matching_device_line() {
    assert_eq!(extract_guid_for_vhd(ENUM, "C:\\other\\x.vhdx"), None);
    assert_eq!(extract_guid_for_vhd("", "C:\\a.vhdx"), None);
}

#[test]
fn guid_of_second_entry_not_first() {
    assert_eq!(
        extract_guid_for_vhd(ENUM, "[C:]\\WS\\base\\0001-win.vhdx").as_deref(),
        Some("{bbbb-2222}")
    );
}

#[test]
fn guid_found_without_brackets() {
    assert_eq!(
        extract_guid_for_vhd(ENUM, "C:\\ws\\base\\0001-win.vhdx").as_deref(),
        Some("{bbbb-2222}")
    );
}

#[test]
fn guid_for_partition_letter() {
    assert_eq!(extract_guid_for_partition_letter(ENUM, 'U').as_deref(), Some("{cccc-3333}"));
    assert_eq!(extract_guid_for_partition_letter(ENUM, 'c').as_deref(), Some("{aaaa-1111}"));
    assert_eq!(extract_guid_for_partition_letter(ENUM, 'Z'), None);
}

#[test]
fn device_line_before_any_identifier_is_skipped() {
    let text = "device vhd=[C:]\\a.vhdx\nidentifier {x}\nosdevice vhd=[C:]\\a.vhdx\n";
    assert_eq!(extract_guid_for_vhd(text, "[C:]\\a.vhdx").as_deref(), Some("{x}"));
}

#[test]
fn boot_command_lines() {
    let b = run_bcdboot("T:");
    assert_eq!(b.program, "bcdboot");
    assert_eq!(b.args, vec!["T:\\Windows", "/d"]);
    assert!(b.elevated);
    assert_eq!(bcdedit_enum_all().args, vec!["/enum", "all"]);
    assert_eq!(bcdedit_boot_sequence("{g}").args, vec!["/bootsequence", "{g}"]);
    assert_eq!(bcdedit_delete("{g}").args, vec!["/delete", "{g}"]);
    assert_eq!(bcdedit_set_description("{g}", "Win A").args, vec!["/set", "{g}", "description", "Win A"]);
    let r = restart_now();
    assert_eq!(r.program, "shutdown");
    assert_eq!(r.args, vec!["/r", "/t", "0"]);
}
