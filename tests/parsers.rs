use vhd_workspace::diskpart::{
    assign_partitions_script, attach_list_vdisk_script, base_diskpart_script, detach_vdisk_script,
    detail_vdisk_script, diff_attach_list_script, parse_detail_vdisk_parent,
    parse_detail_vdisk_volumes, parse_list_partition, parse_list_volume, parse_size_mb,
    run_diskpart_script,
};
use vhd_workspace::dism::{apply_image, list_images, parse_wim_info};

fn chars(s: &str) -> Vec<char> {
    s.chars().collect()
}

#[test]
fn partition_line_with_megabytes() {
    let parts = parse_list_partition("Partition 1  System   100 MB");
    assert_eq!(parts.len(), 1);
    assert_eq!(parts[0].index, 1);
    assert_eq!(parts[0].kind, "System");
    assert_eq!(parts[0].size_mb, Some(100));
}

#[test]
fn partition_line_with_gigabytes() {
    let parts = parse_list_partition("Partition 3  Primary  2 GB");
    assert_eq!(parts.len(), 1);
    assert_eq!(parts[0].index, 3);
    assert_eq!(parts[0].kind, "Primary");
    assert_eq!(parts[0].size_mb, Some(2048));
}

#[test]
fn partition_listing_from_tool() {
    let out = "\r\n  Partition ###  Type              Size     Offset\r\n  -------------  ----------------  -------  -------\r\n  Partition 1    System             100 MB  1024 KB\r\n  Partition 2    Reserved            16 MB   101 MB\r\n  Partition 3    Primary             63 GB   117 MB\r\n";
    let parts = parse_list_partition(out);
    assert_eq!(parts.len(), 4);
    assert_eq!(parts[0].index, 0);
    assert_eq!(parts[0].kind, "Type");
    assert_eq!(parts[0].size_mb, None);
    assert_eq!(parts[1].index, 1);
    assert_eq!(parts[1].size_mb, Some(100));
    assert_eq!(parts[2].kind, "Reserved");
    assert_eq!(parts[2].size_mb, Some(101));
    assert_eq!(parts[3].index, 3);
    assert_eq!(parts[3].size_mb, Some(117));
}

#[test]
fn partition_line_too_short_is_skipped() {
    assert!(parse_list_partition("Partition 1 System").is_empty());
    assert!(parse_list_partition("").is_empty());
    assert!(parse_list_partition("Volume 1 C NTFS").is_empty());
}

#[test]
fn size_words() {
    assert_eq!(parse_size_mb(&chars("100MB")), Some(100));
    assert_eq!(parse_size_mb(&chars("2gb")), Some(2048));
    assert_eq!(parse_size_mb(&chars("7MbMB")), Some(7));
    assert_eq!(parse_size_mb(&chars("MB")), None);
    assert_eq!(parse_size_mb(&chars("12KB")), None);
    assert_eq!(parse_size_mb(&chars("x1MB")), None);
}

#[test]
fn volume_listing_with_guid() {
    let out = "  Volume ###  Ltr  Label        Fs     Type\n  Volume 3     S   EFI          FAT32  Partition\n    GUID: {1234-ab}\n  Volume 4     T   System       NTFS   Partition\n";
    let vols = parse_list_volume(out);
    assert_eq!(vols.len(), 3);
    assert_eq!(vols[0].volume, "###");
    assert_eq!(vols[0].letter, None);
    assert_eq!(vols[1].volume, "3");
    assert_eq!(vols[1].letter.as_deref(), Some("S"));
    assert_eq!(vols[1].label.as_deref(), Some("EFI"));
    assert_eq!(vols[1].fs.as_deref(), Some("FAT32"));
    assert_eq!(vols[1].guid.as_deref(), Some("{1234-ab}"));
    assert_eq!(vols[2].letter.as_deref(), Some("T"));
    assert_eq!(vols[2].guid, None);
    let again = parse_detail_vdisk_volumes(out);
    assert_eq!(again.len(), 3);
}

#[test]
fn guid_before_any_volume_is_ignored() {
    let vols = parse_list_volume("GUID: abc\nVolume 1\n");
    assert_eq!(vols.len(), 1);
    assert_eq!(vols[0].volume, "1");
    assert_eq!(vols[0].guid, None);
}

#[test]
fn detail_parent_is_found() {
    let out = "Virtual disk\nParent Filename : C:\\ws\\base\\0001-win.vhdx  \nState : Added";
    let d = parse_detail_vdisk_parent(out);
    assert_eq!(d.parent.as_deref(), Some("C:\\ws\\base\\0001-win.vhdx"));
}

#[test]
fn detail_parent_absent_or_empty() {
    assert_eq!(parse_detail_vdisk_parent("Device type ID: 3\nState: Added").parent, None);
    assert_eq!(parse_detail_vdisk_parent("Parent Path:   ").parent, None);
}

#[test]
fn detail_parent_last_line_wins() {
    let d = parse_detail_vdisk_parent("parent path: a\nPARENT: b\n");
    assert_eq!(d.parent.as_deref(), Some("b"));
}

#[test]
fn base_script_text() {
    let s = base_diskpart_script("C:\\ws\\base\\0002-win.vhdx", 64, 'S', 'T');
    let expected = "\ncreate vdisk file=\"C:\\ws\\base\\0002-win.vhdx\" maximum=65536 type=expandable\nselect vdisk file=\"C:\\ws\\base\\0002-win.vhdx\"\nattach vdisk\nconvert gpt\ncreate partition efi size=100\nformat quick fs=fat32 label=\"EFI\"\nassign letter=S\ncreate partition msr size=16\ncreate partition primary\nformat quick fs=ntfs label=\"System\"\nassign letter=T\nlist volume\nlist partition\n";
    assert_eq!(s, expected);
}

#[test]
fn diff_attach_and_detail_scripts() {
    assert_eq!(
        diff_attach_list_script("c.vhdx", "p.vhdx"),
        "\ncreate vdisk file=\"c.vhdx\" parent=\"p.vhdx\"\nselect vdisk file=\"c.vhdx\"\nattach vdisk\nlist volume\nlist partition\n"
    );
    assert_eq!(
        attach_list_vdisk_script("d.vhdx"),
        "\nselect vdisk file=\"d.vhdx\"\nattach vdisk\nlist partition\nlist volume\n"
    );
    assert_eq!(
        detail_vdisk_script("d.vhdx"),
        "\nselect vdisk file=\"d.vhdx\"\ndetail vdisk\nlist volume\n"
    );
}

#[test]
fn assign_and_detach_scripts() {
    assert_eq!(
        assign_partitions_script("d.vhdx", &[(1, 'S'), (3, 'T')]),
        "select vdisk file=\"d.vhdx\"\nselect partition 1\nassign letter=S noerr\nselect partition 3\nassign letter=T noerr\nlist volume"
    );
    assert_eq!(
        detach_vdisk_script("d.vhdx", &['S']),
        "select vdisk file=\"d.vhdx\"\nselect volume S\nremove letter=S noerr\nselect vdisk file=\"d.vhdx\"\ndetach vdisk"
    );
    assert_eq!(
        detach_vdisk_script("d.vhdx", &[]),
        "select vdisk file=\"d.vhdx\"\nselect vdisk file=\"d.vhdx\"\ndetach vdisk"
    );
}

#[test]
fn diskpart_command_line() {
    let inv = run_diskpart_script("C:\\t\\a.txt");
    assert_eq!(inv.program, "diskpart");
    assert_eq!(inv.args, vec!["/s".to_string(), "C:\\t\\a.txt".to_string()]);
    assert!(inv.elevated);
}

#[test]
fn wim_listing() {
    let out = "Deployment Image Servicing\n\nIndex : 1\nName : Windows 11 Home\nDescription : Home edition\nSize : 16,000 bytes\n\nIndex : 6\nName : Windows 11 Pro\n\nIndex : x\nName : ignored\nThe operation completed successfully.\n";
    let imgs = parse_wim_info(out);
    assert_eq!(imgs.len(), 2);
    assert_eq!(imgs[0].index, 1);
    assert_eq!(imgs[0].name, "Windows 11 Home");
    assert_eq!(imgs[0].description.as_deref(), Some("Home edition"));
    assert_eq!(imgs[0].size.as_deref(), Some("16,000 bytes"));
    assert_eq!(imgs[1].index, 6);
    assert_eq!(imgs[1].name, "Windows 11 Pro");
    assert_eq!(imgs[1].description, None);
}

#[test]
fn image_tool_command_lines() {
    let l = list_images("D:\\install.wim");
    assert_eq!(l.program, "dism");
    assert_eq!(l.args, vec!["/English", "/Get-WimInfo", "/WimFile:D:\\install.wim"]);
    assert!(!l.elevated);
    let a = apply_image("D:\\install.wim", 12, "T:\\");
    assert_eq!(
        a.args,
        vec!["/English", "/Apply-Image", "/ImageFile:D:\\install.wim", "/Index:12", "/ApplyDir:T:\\"]
    );
}
