//! Scripts for the disk-partitioning tool and readers of its console output.
//!
//! Every reader is total: text it does not recognise yields no record, never
//! an error.
use vstd::prelude::*;
use crate::text::{
    chars_of, contains, dec_digits, push_decimal, push_str, contains_seq, ends_with, find, find_char, first_index_of, first_occ, occurs_at,
    has_prefix, has_suffix, lines, lower, opt_view, parse_dec, parse_decimal, split_lines,
    split_words, starts_with, string_of, strip_suffix_all, strip_suffixes, subslice, to_lower,
    trim, trim_chars, trim_start, trim_start_chars, words,
};

verus! {

/// A volume as `list volume` reports it.
#[derive(Debug, Clone)]
pub struct VolumeInfo {
    pub volume: String,
    pub letter: Option<String>,
    pub guid: Option<String>,
    pub label: Option<String>,
    pub fs: Option<String>,
}

/// What `detail vdisk` says of a virtual disk.
#[derive(Debug, Clone)]
pub struct VhdDetail {
    pub parent: Option<String>,
}

/// A partition as `list partition` reports it.
#[derive(Debug, Clone)]
pub struct PartitionInfo {
    pub index: u32,
    pub kind: String,
    pub size_mb: Option<u64>,
}

pub ghost struct VolumeView {
    pub volume: Seq<char>,
    pub letter: Option<Seq<char>>,
    pub guid: Option<Seq<char>>,
    pub label: Option<Seq<char>>,
    pub fs: Option<Seq<char>>,
}

pub ghost struct PartitionView {
    pub index: nat,
    pub kind: Seq<char>,
    pub size_mb: Option<nat>,
}

impl View for VolumeInfo {
    type V = VolumeView;

    open spec fn view(&self) -> VolumeView {
        VolumeView {
            volume: self.volume@,
            letter: opt_view(self.letter),
            guid: opt_view(self.guid),
            label: opt_view(self.label),
            fs: opt_view(self.fs),
        }
    }
}

impl View for PartitionInfo {
    type V = PartitionView;

    open spec fn view(&self) -> PartitionView {
        PartitionView {
            index: self.index as nat,
            kind: self.kind@,
            size_mb: match self.size_mb {
                Some(v) => Some(v as nat),
                None => None,
            },
        }
    }
}

// ---------------------------------------------------------------------------
// Sizes
/// The size in megabytes that a token such as `100MB` or `2 GB` (one word)
/// denotes; a gigabyte is 1024 megabytes.
#[verifier::opaque]
pub open spec fn size_mb_of(t: Seq<char>) -> Option<nat> {
    let l = lower(t);
    if has_suffix(l, "mb"@) {
        parse_dec(trim(strip_suffixes(l, "mb"@)), u64::MAX as nat)
    } else if has_suffix(l, "gb"@) {
        match parse_dec(trim(strip_suffixes(l, "gb"@)), (u64::MAX / 1024) as nat) {
            Some(v) => Some(v * 1024),
            None => None,
        }
    } else {
        None
    }
}

/// The size that a number word followed by a separate unit word (`MB` or
/// `GB`, in any case) denotes.
pub open spec fn split_size(num: Seq<char>, unit: Seq<char>) -> Option<nat> {
    let u = lower(unit);
    if u == "mb"@ {
        parse_dec(num, u64::MAX as nat)
    } else if u == "gb"@ {
        match parse_dec(num, (u64::MAX / 1024) as nat) {
            Some(v) => Some(v * 1024),
            None => None,
        }
    } else {
        None
    }
}

/// The size that the word at `i` denotes, alone or as the unit of the word
/// before it.
pub open spec fn size_at(cols: Seq<Seq<char>>, i: int) -> Option<nat> {
    match size_mb_of(cols[i]) {
        Some(v) => Some(v),
        None => if i > 0 {
            split_size(cols[i - 1], cols[i])
        } else {
            None
        },
    }
}

/// The size found nearest the end among the first `n` words of `cols`.
pub open spec fn last_size_within(cols: Seq<Seq<char>>, n: int) -> Option<nat>
    decreases n,
{
    if n <= 0 {
        None
    } else {
        match size_at(cols, n - 1) {
            Some(v) => Some(v),
            None => last_size_within(cols, n - 1),
        }
    }
}

/// The size of the last size-like word (or number and unit) among `cols`.
pub open spec fn last_size(cols: Seq<Seq<char>>) -> Option<nat> {
    last_size_within(cols, cols.len() as int)
}

// ---------------------------------------------------------------------------
// `list partition`
#[verifier::opaque]
pub open spec fn partition_of_line(line: Seq<char>) -> Option<PartitionView> {
    let t = trim_start(line);
    let cols = words(t);
    if has_prefix(t, "Partition"@) && cols.len() >= 4 {
        Some(
            PartitionView {
                index: match parse_dec(cols[1], u32::MAX as nat) {
                    Some(v) => v,
                    None => 0,
                },
                kind: cols[2],
                size_mb: last_size(cols),
            },
        )
    } else {
        None
    }
}

pub open spec fn partitions_of(ls: Seq<Seq<char>>) -> Seq<PartitionView>
    decreases ls.len(),
{
    if ls.len() == 0 {
        Seq::empty()
    } else {
        let prev = partitions_of(ls.drop_last());
        match partition_of_line(ls.last()) {
            Some(p) => prev.push(p),
            None => prev,
        }
    }
}

// ---------------------------------------------------------------------------
// `list volume`
pub open spec fn is_letter_word(w: Seq<char>) -> bool {
    w.len() == 1 && (w[0] as u32) < 128
}

#[verifier::opaque]
pub open spec fn volume_of_line(line: Seq<char>) -> Option<VolumeView> {
    let parts = words(line);
    if has_prefix(trim_start(line), "Volume "@) && parts.len() >= 2 {
        Some(
            VolumeView {
                volume: parts[1],
                letter: if parts.len() > 2 && is_letter_word(parts[2]) {
                    Some(parts[2])
                } else {
                    None
                },
                guid: None,
                label: if parts.len() > 3 {
                    Some(parts[3])
                } else {
                    None
                },
                fs: if parts.len() > 4 {
                    Some(parts[4])
                } else {
                    None
                },
            },
        )
    } else {
        None
    }
}

/// The non-empty text after the first `GUID:` of a line.
#[verifier::opaque]
pub open spec fn guid_of_line(line: Seq<char>) -> Option<Seq<char>> {
    if contains(line, "GUID:"@) {
        let g = trim(line.subrange(first_occ(line, "GUID:"@) + 5, line.len() as int));
        if g.len() > 0 {
            Some(g)
        } else {
            None
        }
    } else {
        None
    }
}

pub open spec fn with_guid(v: VolumeView, g: Seq<char>) -> VolumeView {
    VolumeView { volume: v.volume, letter: v.letter, guid: Some(g), label: v.label, fs: v.fs }
}

pub open spec fn volumes_of(ls: Seq<Seq<char>>) -> Seq<VolumeView>
    decreases ls.len(),
{
    if ls.len() == 0 {
        Seq::empty()
    } else {
        volumes_after_line(volumes_of(ls.drop_last()), ls.last())
    }
}

// ---------------------------------------------------------------------------
// `detail vdisk`
pub open spec fn mentions_parent(line: Seq<char>) -> bool {
    let l = lower(line);
    contains(l, "parent path"@) || contains(l, "parent:"@) || contains(l, "parent filename"@)
}

#[verifier::opaque]
pub open spec fn parent_of_line(line: Seq<char>) -> Option<Seq<char>> {
    if mentions_parent(line) {
        match first_index_of(line, ':') {
            Some(i) => {
                let rest = trim(line.subrange(i + 1, line.len() as int));
                if rest.len() > 0 {
                    Some(rest)
                } else {
                    None
                }
            },
            None => None,
        }
    } else {
        None
    }
}

/// The parent named by the last line that names one.
pub open spec fn parent_of_lines(ls: Seq<Seq<char>>) -> Option<Seq<char>>
    decreases ls.len(),
{
    if ls.len() == 0 {
        None
    } else {
        match parent_of_line(ls.last()) {
            Some(p) => Some(p),
            None => parent_of_lines(ls.drop_last()),
        }
    }
}

// ---------------------------------------------------------------------------
/// Reads one size word.
pub fn parse_size_mb(token: &[char]) -> (r: Option<u64>)
    ensures
        r is Some <==> size_mb_of(token@) is Some,
        r matches Some(v) ==> size_mb_of(token@) == Some(v as nat),
{
    reveal(size_mb_of);
    let l = to_lower(token);
    let mb = chars_of("mb");
    let gb = chars_of("gb");
    if ends_with(&l, &mb) {
        let num = trim_chars(&strip_suffix_all(&l, &mb));
        return parse_decimal(&num, u64::MAX);
    }
    if ends_with(&l, &gb) {
        let num = trim_chars(&strip_suffix_all(&l, &gb));
        match parse_decimal(&num, u64::MAX / 1024) {
            Some(v) => {
                return Some(v * 1024);
            },
            None => {
                return None;
            },
        }
    }
    None
}

fn split_size_of(num: &[char], unit: &[char]) -> (r: Option<u64>)
    ensures
        r is Some <==> split_size(num@, unit@) is Some,
        r matches Some(v) ==> split_size(num@, unit@) == Some(v as nat),
{
    let u = to_lower(unit);
    if crate::text::slice_eq(&u, &chars_of("mb")) {
        return parse_decimal(num, u64::MAX);
    }
    if crate::text::slice_eq(&u, &chars_of("gb")) {
        match parse_decimal(num, u64::MAX / 1024) {
            Some(v) => {
                return Some(v * 1024);
            },
            None => {
                return None;
            },
        }
    }
    None
}

fn last_size_of(cols: &Vec<Vec<char>>) -> (r: Option<u64>)
    ensures
        r is Some <==> last_size(cols@.map_values(|w: Vec<char>| w@)) is Some,
        r matches Some(v) ==> last_size(cols@.map_values(|w: Vec<char>| w@)) == Some(v as nat),
{
    let ghost ws = cols@.map_values(|w: Vec<char>| w@);
    let mut i: usize = cols.len();
    while i > 0
        invariant
            i <= cols.len(),
            ws == cols@.map_values(|w: Vec<char>| w@),
            last_size(ws) == last_size_within(ws, i as int),
        decreases i,
    {
        assert(ws[i - 1] == cols@[i - 1]@);
        match parse_size_mb(&cols[i - 1]) {
            Some(v) => {
                return Some(v);
            },
            None => {},
        }
        if i > 1 {
            assert(ws[i - 2] == cols@[i - 2]@);
            match split_size_of(&cols[i - 2], &cols[i - 1]) {
                Some(v) => {
                    return Some(v);
                },
                None => {},
            }
        }
        i = i - 1;
    }
    None
}

fn partition_of(line: &[char]) -> (r: Option<PartitionInfo>)
    ensures
        r matches Some(p) ==> partition_of_line(line@) == Some(p@),
        r is None ==> partition_of_line(line@) is None,
{
    reveal(partition_of_line);
    let t = trim_start_chars(line);
    if !starts_with(&t, &chars_of("Partition")) {
        return None;
    }
    let cols = split_words(&t);
    let ghost ws = cols@.map_values(|w: Vec<char>| w@);
    if cols.len() < 4 {
        return None;
    }
    assert(ws[1] == cols@[1]@ && ws[2] == cols@[2]@);
    let index: u32 = match parse_decimal(&cols[1], u32::MAX as u64) {
        Some(v) => v as u32,
        None => 0,
    };
    let kind = string_of(&cols[2]);
    let size_mb = last_size_of(&cols);
    Some(PartitionInfo { index, kind, size_mb })
}

/// The partitions that a `list partition` listing reports, in order: each
/// line whose first word starts with `Partition` and that has at least four
/// words gives one record (an index that does not read as a number is 0),
/// sized by its last size-like word (`100MB`) or number and unit (`2 GB`).
pub fn parse_list_partition(output: &str) -> (r: Vec<PartitionInfo>)
    ensures
        r@.map_values(|p: PartitionInfo| p@) == partitions_of(lines(output@)),
{
    let text = chars_of(output);
    let ls = split_lines(&text);
    let ghost lv = ls@.map_values(|w: Vec<char>| w@);
    let mut parts: Vec<PartitionInfo> = Vec::new();
    let mut i: usize = 0;
    while i < ls.len()
        invariant
            i <= ls.len(),
            lv == ls@.map_values(|w: Vec<char>| w@),
            parts@.map_values(|p: PartitionInfo| p@) == partitions_of(lv.subrange(0, i as int)),
        decreases ls.len() - i,
    {
        let ghost before = parts@.map_values(|p: PartitionInfo| p@);
        let ghost nxt = lv.subrange(0, i + 1);
        assert(nxt.drop_last() =~= lv.subrange(0, i as int));
        assert(nxt.last() == ls@[i as int]@);
        match partition_of(&ls[i]) {
            Some(p) => {
                parts.push(p);
                assert(parts@.map_values(|p: PartitionInfo| p@) =~= before.push(p@));
            },
            None => {},
        }
        i = i + 1;
    }
    assert(lv.subrange(0, ls.len() as int) =~= lv);
    parts
}

fn volume_of(line: &[char]) -> (r: Option<VolumeInfo>)
    ensures
        r matches Some(v) ==> volume_of_line(line@) == Some(v@),
        r is None ==> volume_of_line(line@) is None,
{
    reveal(volume_of_line);
    let t = trim_start_chars(line);
    if !starts_with(&t, &chars_of("Volume ")) {
        return None;
    }
    let parts = split_words(line);
    let ghost ws = parts@.map_values(|w: Vec<char>| w@);
    if parts.len() < 2 {
        return None;
    }
    assert(ws[1] == parts@[1]@);
    let volume = string_of(&parts[1]);
    let letter = if parts.len() > 2 && parts[2].len() == 1 && (parts[2][0] as u32) < 128 {
        assert(ws[2] == parts@[2]@);
        Some(string_of(&parts[2]))
    } else {
        proof {
            if parts.len() > 2 {
                assert(ws[2] == parts@[2]@);
            }
        }
        None
    };
    let label = if parts.len() > 3 {
        assert(ws[3] == parts@[3]@);
        Some(string_of(&parts[3]))
    } else {
        None
    };
    let fs = if parts.len() > 4 {
        assert(ws[4] == parts@[4]@);
        Some(string_of(&parts[4]))
    } else {
        None
    };
    Some(VolumeInfo { volume, letter, guid: None, label, fs })
}

fn guid_of(line: &[char]) -> (r: Option<String>)
    ensures
        opt_view(r) == guid_of_line(line@),
{
    reveal(guid_of_line);
    let key = chars_of("GUID:");
    proof {
        reveal_strlit("GUID:");
    }
    assert(key@.len() == 5);
    match find(line, key.as_slice()) {
        Some(i) => {
            assert(occurs_at(line@, key@, i as int));
            let n = line.len();
            let g = trim_chars(&subslice(line, i + 5, n));
            if g.len() > 0 {
                Some(string_of(&g))
            } else {
                None
            }
        },
        None => None,
    }
}

pub open spec fn volumes_after_line(prev: Seq<VolumeView>, line: Seq<char>) -> Seq<VolumeView> {
    let added = match volume_of_line(line) {
        Some(v) => prev.push(v),
        None => prev,
    };
    match guid_of_line(line) {
        Some(g) => if added.len() > 0 {
            added.update(added.len() - 1, with_guid(added.last(), g))
        } else {
            added
        },
        None => added,
    }
}

fn add_volume_line(vols: &mut Vec<VolumeInfo>, line: &[char])
    ensures
        final(vols)@.map_values(|v: VolumeInfo| v@) == volumes_after_line(
            old(vols)@.map_values(|v: VolumeInfo| v@),
            line@,
        ),
{
    let ghost before = vols@.map_values(|v: VolumeInfo| v@);
    match volume_of(line) {
        Some(v) => {
            vols.push(v);
            assert(vols@.map_values(|v: VolumeInfo| v@) =~= before.push(v@));
        },
        None => {},
    }
    let ghost added = vols@.map_values(|v: VolumeInfo| v@);
    match guid_of(line) {
        Some(g) => {
            if vols.len() > 0 {
                let mut last = vols.pop().unwrap();
                last.guid = Some(g);
                vols.push(last);
                assert(vols@.map_values(|v: VolumeInfo| v@) =~= added.update(
                    added.len() - 1,
                    with_guid(added.last(), g@),
                ));
            }
        },
        None => {},
    }
}

/// The volumes that a `list volume` listing reports, in order: each line
/// that starts with `Volume ` gives one record from its words, and a line
/// holding `GUID:` attaches the text after it to the latest record.
pub fn parse_list_volume(output: &str) -> (r: Vec<VolumeInfo>)
    ensures
        r@.map_values(|v: VolumeInfo| v@) == volumes_of(lines(output@)),
{
    let text = chars_of(output);
    let ls = split_lines(&text);
    let ghost lv = ls@.map_values(|w: Vec<char>| w@);
    let mut vols: Vec<VolumeInfo> = Vec::new();
    let mut i: usize = 0;
    while i < ls.len()
        invariant
            i <= ls.len(),
            lv == ls@.map_values(|w: Vec<char>| w@),
            vols@.map_values(|v: VolumeInfo| v@) == volumes_of(lv.subrange(0, i as int)),
        decreases ls.len() - i,
    {
        let ghost nxt = lv.subrange(0, i + 1);
        assert(nxt.drop_last() =~= lv.subrange(0, i as int));
        assert(nxt.last() == ls@[i as int]@);
        add_volume_line(&mut vols, &ls[i]);
        assert(volumes_of(nxt) == volumes_after_line(volumes_of(nxt.drop_last()), nxt.last()));
        i = i + 1;
    }
    assert(lv.subrange(0, ls.len() as int) =~= lv);
    vols
}

/// The same reading as [`parse_list_volume`], for `detail vdisk` output.
pub fn parse_detail_vdisk_volumes(output: &str) -> (r: Vec<VolumeInfo>)
    ensures
        r@.map_values(|v: VolumeInfo| v@) == volumes_of(lines(output@)),
{
    parse_list_volume(output)
}

fn parent_of(line: &[char]) -> (r: Option<String>)
    ensures
        opt_view(r) == parent_of_line(line@),
{
    reveal(parent_of_line);
    let l = to_lower(line);
    if !(contains_seq(&l, &chars_of("parent path")) || contains_seq(&l, &chars_of("parent:"))
        || contains_seq(&l, &chars_of("parent filename"))) {
        return None;
    }
    match find_char(line, ':') {
        Some(i) => {
            let rest = trim_chars(&subslice(line, i + 1, line.len()));
            if rest.len() > 0 {
                Some(string_of(&rest))
            } else {
                None
            }
        },
        None => None,
    }
}

/// The parent disk that `detail vdisk` output names: the text after the
/// first colon of the last line that mentions `parent path`, `parent:` or
/// `parent filename` (in any case) and has text there.
pub fn parse_detail_vdisk_parent(output: &str) -> (r: VhdDetail)
    ensures
        opt_view(r.parent) == parent_of_lines(lines(output@)),
{
    let text = chars_of(output);
    let ls = split_lines(&text);
    let ghost lv = ls@.map_values(|w: Vec<char>| w@);
    let mut parent: Option<String> = None;
    let mut i: usize = 0;
    while i < ls.len()
        invariant
            i <= ls.len(),
            lv == ls@.map_values(|w: Vec<char>| w@),
            opt_view(parent) == parent_of_lines(lv.subrange(0, i as int)),
        decreases ls.len() - i,
    {
        let ghost nxt = lv.subrange(0, i + 1);
        assert(nxt.drop_last() =~= lv.subrange(0, i as int));
        assert(nxt.last() == ls@[i as int]@);
        match parent_of(&ls[i]) {
            Some(p) => {
                parent = Some(p);
            },
            None => {},
        }
        i = i + 1;
    }
    assert(lv.subrange(0, ls.len() as int) =~= lv);
    VhdDetail { parent }
}

// ---------------------------------------------------------------------------
// Scripts
/// The command that runs the partitioning script stored at `script_path`.
pub fn run_diskpart_script(script_path: &str) -> (r: crate::models::Invocation)
    ensures
        r.program@ == "diskpart"@,
        r.args_view() == seq!["/s"@, script_path@],
        r.elevated,
{
    let r = crate::models::Invocation {
        program: "diskpart".to_owned(),
        args: vec!["/s".to_owned(), script_path.to_owned()],
        elevated: true,
    };
    assert(r.args_view() =~= seq!["/s"@, script_path@]);
    r
}

pub open spec fn base_script_text(vhd: Seq<char>, size_mb: nat, efi: char, sys: char) -> Seq<char> {
    "\ncreate vdisk file=\""@ + vhd + "\" maximum="@ + dec_digits(size_mb)
        + " type=expandable\nselect vdisk file=\""@ + vhd
        + "\"\nattach vdisk\nconvert gpt\ncreate partition efi size=100\nformat quick fs=fat32 label=\"EFI\"\nassign letter="@
        + seq![efi]
        + "\ncreate partition msr size=16\ncreate partition primary\nformat quick fs=ntfs label=\"System\"\nassign letter="@
        + seq![sys] + "\nlist volume\nlist partition\n"@
}

pub open spec fn diff_script_text(child: Seq<char>, parent: Seq<char>) -> Seq<char> {
    "\ncreate vdisk file=\""@ + child + "\" parent=\""@ + parent + "\"\nselect vdisk file=\""@
        + child + "\"\nattach vdisk\nlist volume\nlist partition\n"@
}

pub open spec fn attach_list_text(vhd: Seq<char>) -> Seq<char> {
    "\nselect vdisk file=\""@ + vhd + "\"\nattach vdisk\nlist partition\nlist volume\n"@
}

pub open spec fn detail_text(vhd: Seq<char>) -> Seq<char> {
    "\nselect vdisk file=\""@ + vhd + "\"\ndetail vdisk\nlist volume\n"@
}

pub open spec fn select_vdisk_line(vhd: Seq<char>) -> Seq<char> {
    "select vdisk file=\""@ + vhd + "\""@
}

pub open spec fn assign_lines(a: Seq<(u32, char)>) -> Seq<char>
    decreases a.len(),
{
    if a.len() == 0 {
        Seq::empty()
    } else {
        assign_lines(a.drop_last()) + "\nselect partition "@ + dec_digits(a.last().0 as nat)
            + "\nassign letter="@ + seq![a.last().1] + " noerr"@
    }
}

pub open spec fn assign_text(vhd: Seq<char>, a: Seq<(u32, char)>) -> Seq<char> {
    select_vdisk_line(vhd) + assign_lines(a) + "\nlist volume"@
}

pub open spec fn remove_letter_lines(letters: Seq<char>) -> Seq<char>
    decreases letters.len(),
{
    if letters.len() == 0 {
        Seq::empty()
    } else {
        let l = letters.last();
        remove_letter_lines(letters.drop_last()) + "\nselect volume "@ + seq![l]
            + "\nremove letter="@ + seq![l] + " noerr"@
    }
}

pub open spec fn detach_text(vhd: Seq<char>, letters: Seq<char>) -> Seq<char> {
    select_vdisk_line(vhd) + remove_letter_lines(letters) + "\n"@ + select_vdisk_line(vhd)
        + "\ndetach vdisk"@
}

/// Script that creates an expandable disk of `size_gb` gigabytes, gives it
/// a GPT layout with an EFI system partition (FAT32, letter `efi_letter`), a
/// reserved partition and a primary NTFS partition (letter `sys_letter`),
/// then lists volumes and partitions.
pub fn base_diskpart_script(vhd_path: &str, size_gb: u64, efi_letter: char, sys_letter: char) -> (r:
    String)
    requires
        size_gb <= u64::MAX / 1024,
    ensures
        r@ == base_script_text(vhd_path@, size_gb as nat * 1024, efi_letter, sys_letter),
{
    let size_mb = size_gb * 1024;
    let mut t: Vec<char> = Vec::new();
    push_str(&mut t, "\ncreate vdisk file=\"");
    push_str(&mut t, vhd_path);
    push_str(&mut t, "\" maximum=");
    push_decimal(&mut t, size_mb);
    push_str(&mut t, " type=expandable\nselect vdisk file=\"");
    push_str(&mut t, vhd_path);
    push_str(
        &mut t,
        "\"\nattach vdisk\nconvert gpt\ncreate partition efi size=100\nformat quick fs=fat32 label=\"EFI\"\nassign letter=",
    );
    t.push(efi_letter);
    push_str(
        &mut t,
        "\ncreate partition msr size=16\ncreate partition primary\nformat quick fs=ntfs label=\"System\"\nassign letter=",
    );
    t.push(sys_letter);
    push_str(&mut t, "\nlist volume\nlist partition\n");
    assert(t@ =~= base_script_text(vhd_path@, size_gb as nat * 1024, efi_letter, sys_letter));
    string_of(&t)
}

/// Script that creates a differencing disk `child` over `parent`, attaches
/// it and lists volumes and partitions, assigning no letter.
pub fn diff_attach_list_script(child: &str, parent: &str) -> (r: String)
    ensures
        r@ == diff_script_text(child@, parent@),
{
    let mut t: Vec<char> = Vec::new();
    push_str(&mut t, "\ncreate vdisk file=\"");
    push_str(&mut t, child);
    push_str(&mut t, "\" parent=\"");
    push_str(&mut t, parent);
    push_str(&mut t, "\"\nselect vdisk file=\"");
    push_str(&mut t, child);
    push_str(&mut t, "\"\nattach vdisk\nlist volume\nlist partition\n");
    assert(t@ =~= diff_script_text(child@, parent@));
    string_of(&t)
}

/// Script that attaches an existing disk and lists its partitions and volumes.
pub fn attach_list_vdisk_script(vhd_path: &str) -> (r: String)
    ensures
        r@ == attach_list_text(vhd_path@),
{
    let mut t: Vec<char> = Vec::new();
    push_str(&mut t, "\nselect vdisk file=\"");
    push_str(&mut t, vhd_path);
    push_str(&mut t, "\"\nattach vdisk\nlist partition\nlist volume\n");
    assert(t@ =~= attach_list_text(vhd_path@));
    string_of(&t)
}

/// Script that shows the details of a disk, among them its parent.
pub fn detail_vdisk_script(vhd_path: &str) -> (r: String)
    ensures
        r@ == detail_text(vhd_path@),
{
    let mut t: Vec<char> = Vec::new();
    push_str(&mut t, "\nselect vdisk file=\"");
    push_str(&mut t, vhd_path);
    push_str(&mut t, "\"\ndetail vdisk\nlist volume\n");
    assert(t@ =~= detail_text(vhd_path@));
    string_of(&t)
}

fn push_select_vdisk(t: &mut Vec<char>, vhd_path: &str)
    ensures
        final(t)@ == old(t)@ + select_vdisk_line(vhd_path@),
{
    push_str(t, "select vdisk file=\"");
    push_str(t, vhd_path);
    push_str(t, "\"");
    assert(final(t)@ =~= old(t)@ + select_vdisk_line(vhd_path@));
}

/// Script that gives each listed partition of the attached disk its letter;
/// a failed assignment does not stop the script.
pub fn assign_partitions_script(vhd_path: &str, assignments: &[(u32, char)]) -> (r: String)
    ensures
        r@ == assign_text(vhd_path@, assignments@),
{
    let mut t: Vec<char> = Vec::new();
    push_select_vdisk(&mut t, vhd_path);
    let ghost head = t@;
    let mut i: usize = 0;
    assert(assignments@.subrange(0, 0) =~= Seq::<(u32, char)>::empty());
    assert(t@ =~= head + assign_lines(Seq::<(u32, char)>::empty()));
    while i < assignments.len()
        invariant
            i <= assignments.len(),
            t@ == head + assign_lines(assignments@.subrange(0, i as int)),
        decreases assignments.len() - i,
    {
        let (part_idx, letter) = assignments[i];
        push_str(&mut t, "\nselect partition ");
        push_decimal(&mut t, part_idx as u64);
        push_str(&mut t, "\nassign letter=");
        t.push(letter);
        push_str(&mut t, " noerr");
        let ghost nxt = assignments@.subrange(0, i + 1);
        assert(nxt.drop_last() =~= assignments@.subrange(0, i as int));
        i = i + 1;
        assert(t@ =~= head + assign_lines(nxt));
    }
    assert(assignments@.subrange(0, assignments.len() as int) =~= assignments@);
    push_str(&mut t, "\nlist volume");
    assert(t@ =~= assign_text(vhd_path@, assignments@));
    string_of(&t)
}

/// Script that removes each listed letter from the disk (tolerating letters
/// that are not assigned) and then detaches it.
pub fn detach_vdisk_script(vhd_path: &str, letters: &[char]) -> (r: String)
    ensures
        r@ == detach_text(vhd_path@, letters@),
{
    let mut t: Vec<char> = Vec::new();
    push_select_vdisk(&mut t, vhd_path);
    let ghost head = t@;
    let mut i: usize = 0;
    assert(t@ =~= head + remove_letter_lines(letters@.subrange(0, 0)));
    while i < letters.len()
        invariant
            i <= letters.len(),
            t@ == head + remove_letter_lines(letters@.subrange(0, i as int)),
        decreases letters.len() - i,
    {
        let letter = letters[i];
        push_str(&mut t, "\nselect volume ");
        t.push(letter);
        push_str(&mut t, "\nremove letter=");
        t.push(letter);
        push_str(&mut t, " noerr");
        let ghost nxt = letters@.subrange(0, i + 1);
        assert(nxt.drop_last() =~= letters@.subrange(0, i as int));
        i = i + 1;
        assert(t@ =~= head + remove_letter_lines(nxt));
    }
    assert(letters@.subrange(0, letters.len() as int) =~= letters@);
    push_str(&mut t, "\n");
    push_select_vdisk(&mut t, vhd_path);
    push_str(&mut t, "\ndetach vdisk");
    assert(t@ =~= detach_text(vhd_path@, letters@));
    string_of(&t)
}

} // verus!
