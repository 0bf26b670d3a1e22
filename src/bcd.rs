//! Command lines for the boot-configuration tools and the lookup of boot
//! entries in their enumeration output.
use vstd::prelude::*;
use crate::models::Invocation;
use crate::text::{
    chars_of, contains, contains_seq, has_prefix, lines, lower, push_str, split_lines,
    split_words, starts_with, string_of, to_lower, to_lower_char, lower_char, words,
};

verus! {

/// What a boot entry is looked up by.
pub ghost enum GuidKey {
    /// The disk's path, in lower case.
    Path(Seq<char>),
    /// The `partition=<letter>:` device token, in lower case.
    Token(Seq<char>),
}

pub open spec fn without_brackets(s: Seq<char>) -> Seq<char>
    decreases s.len(),
{
    if s.len() == 0 {
        s
    } else {
        let p = without_brackets(s.drop_last());
        if s.last() == '[' || s.last() == ']' {
            p
        } else {
            p.push(s.last())
        }
    }
}

/// The identifier an `identifier` line introduces: its second word.
#[verifier::opaque]
pub open spec fn identifier_of_line(line: Seq<char>) -> Option<Seq<char>> {
    if has_prefix(lower(line), "identifier"@) && words(line).len() >= 2 {
        Some(words(line)[1])
    } else {
        None
    }
}

/// Whether a line is a device line that refers to what `key` names.
#[verifier::opaque]
pub open spec fn device_line_matches(line: Seq<char>, key: GuidKey) -> bool {
    let l = lower(line);
    contains(l, "device"@) && match key {
        GuidKey::Path(n) => contains(l, "vhd"@) && (contains(l, n) || contains(
            without_brackets(l),
            without_brackets(n),
        )),
        GuidKey::Token(t) => contains(l, t),
    }
}

pub ghost struct GuidScan {
    pub current: Option<Seq<char>>,
    pub found: Option<Seq<char>>,
}

/// One line of the single pass: an identifier line updates the current
/// identifier, and the first matching device line seen while an identifier
/// is current settles the answer.
pub open spec fn guid_step(st: GuidScan, line: Seq<char>, key: GuidKey) -> GuidScan {
    if st.found is Some {
        st
    } else {
        let current = match identifier_of_line(line) {
            Some(g) => Some(g),
            None => st.current,
        };
        GuidScan {
            current,
            found: if device_line_matches(line, key) {
                current
            } else {
                None
            },
        }
    }
}

pub open spec fn guid_scan(ls: Seq<Seq<char>>, key: GuidKey) -> GuidScan
    decreases ls.len(),
{
    if ls.len() == 0 {
        GuidScan { current: None, found: None }
    } else {
        guid_step(guid_scan(ls.drop_last(), key), ls.last(), key)
    }
}

pub open spec fn guid_lookup(text: Seq<char>, key: GuidKey) -> Option<Seq<char>> {
    guid_scan(lines(text), key).found
}

/// The identifier introduced most recently in `ls`.
pub open spec fn latest_identifier(ls: Seq<Seq<char>>) -> Option<Seq<char>>
    decreases ls.len(),
{
    if ls.len() == 0 {
        None
    } else {
        match identifier_of_line(ls.last()) {
            Some(g) => Some(g),
            None => latest_identifier(ls.drop_last()),
        }
    }
}

/// Line `k` is a matching device line with an identifier before or on it.
pub open spec fn answers_at(ls: Seq<Seq<char>>, key: GuidKey, k: int) -> bool {
    device_line_matches(ls[k], key) && latest_identifier(ls.subrange(0, k + 1)) is Some
}

proof fn lemma_scan_state(ls: Seq<Seq<char>>, key: GuidKey)
    ensures
        guid_scan(ls, key).found is None ==> guid_scan(ls, key).current == latest_identifier(ls)
            && forall|k: int| 0 <= k < ls.len() ==> !#[trigger] answers_at(ls, key, k),
        guid_scan(ls, key).found matches Some(g) ==> exists|k: int|
            0 <= k < ls.len() && #[trigger] answers_at(ls, key, k) && latest_identifier(
                ls.subrange(0, k + 1),
            ) == Some(g) && forall|t: int| 0 <= t < k ==> !answers_at(ls, key, t),
    decreases ls.len(),
{
    if ls.len() > 0 {
        let pre = ls.drop_last();
        lemma_scan_state(pre, key);
        assert(ls.subrange(0, ls.len() as int) =~= ls);
        assert forall|k: int| 0 <= k < pre.len() implies answers_at(ls, key, k) == answers_at(pre, key, k) by {
            assert(ls.subrange(0, k + 1) =~= pre.subrange(0, k + 1));
        }
        let st = guid_scan(pre, key);
        if st.found is None {
            let k = ls.len() - 1;
            if guid_scan(ls, key).found is Some {
                assert(answers_at(ls, key, k));
            } else {
                assert(!answers_at(ls, key, k));
            }
        } else {
            let g = st.found.unwrap();
            let k = choose|k: int|
                0 <= k < pre.len() && #[trigger] answers_at(pre, key, k) && latest_identifier(
                    pre.subrange(0, k + 1),
                ) == Some(g) && forall|t: int| 0 <= t < k ==> !answers_at(pre, key, t);
            assert(pre.subrange(0, k + 1) =~= ls.subrange(0, k + 1));
            assert(answers_at(ls, key, k));
        }
    }
}

/// The lookup makes one pass and the first answer wins: it finds nothing
/// exactly when no matching device line has an identifier before it (in
/// particular when no device line matches), and otherwise it returns the
/// identifier introduced nearest before (or on) the first such line, never
/// one of an earlier entry.
pub proof fn guid_lookup_first_match(text: Seq<char>, key: GuidKey)
    ensures
        guid_lookup(text, key) is None <==> forall|k: int|
            0 <= k < lines(text).len() ==> !#[trigger] answers_at(lines(text), key, k),
        (forall|k: int| 0 <= k < lines(text).len() ==> !device_line_matches(#[trigger] lines(text)[k], key))
            ==> guid_lookup(text, key) is None,
        guid_lookup(text, key) matches Some(g) ==> exists|k: int|
            0 <= k < lines(text).len() && #[trigger] answers_at(lines(text), key, k)
                && latest_identifier(lines(text).subrange(0, k + 1)) == Some(g) && forall|t: int|
                0 <= t < k ==> !answers_at(lines(text), key, t),
{
    lemma_scan_state(lines(text), key);
}

pub open spec fn letter_token(letter: char) -> Seq<char> {
    "partition="@ + seq![lower_char(letter)] + ":"@
}

fn strip_brackets(s: &[char]) -> (r: Vec<char>)
    ensures
        r@ == without_brackets(s@),
{
    let mut r: Vec<char> = Vec::new();
    let mut i: usize = 0;
    while i < s.len()
        invariant
            i <= s.len(),
            r@ == without_brackets(s@.subrange(0, i as int)),
        decreases s.len() - i,
    {
        let ghost nxt = s@.subrange(0, i + 1);
        assert(nxt.drop_last() =~= s@.subrange(0, i as int));
        if s[i] != '[' && s[i] != ']' {
            r.push(s[i]);
        }
        i = i + 1;
    }
    assert(s@.subrange(0, s.len() as int) =~= s@);
    r
}

fn identifier_of(line: &[char]) -> (r: Option<String>)
    ensures
        match r {
            Some(g) => identifier_of_line(line@) == Some(g@),
            None => identifier_of_line(line@) is None,
        },
{
    reveal(identifier_of_line);
    let l = to_lower(line);
    if !starts_with(&l, &chars_of("identifier")) {
        return None;
    }
    let ws = split_words(line);
    if ws.len() < 2 {
        return None;
    }
    assert(ws@.map_values(|w: Vec<char>| w@)[1] == ws@[1]@);
    Some(string_of(&ws[1]))
}

/// The lookup key material for one kind of search, already lower-cased.
struct KeyChars {
    needle: Vec<char>,
    needle_no_brackets: Vec<char>,
    by_path: bool,
}

spec fn key_of(k: KeyChars) -> GuidKey {
    if k.by_path {
        GuidKey::Path(k.needle@)
    } else {
        GuidKey::Token(k.needle@)
    }
}

fn device_matches(line: &[char], k: &KeyChars) -> (r: bool)
    requires
        k.by_path ==> k.needle_no_brackets@ == without_brackets(k.needle@),
    ensures
        r == device_line_matches(line@, key_of(*k)),
{
    reveal(device_line_matches);
    let l = to_lower(line);
    if !contains_seq(&l, &chars_of("device")) {
        return false;
    }
    if k.by_path {
        contains_seq(&l, &chars_of("vhd")) && (contains_seq(&l, &k.needle) || contains_seq(
            &strip_brackets(&l),
            &k.needle_no_brackets,
        ))
    } else {
        contains_seq(&l, &k.needle)
    }
}

fn lookup(text: &str, k: &KeyChars) -> (r: Option<String>)
    requires
        k.by_path ==> k.needle_no_brackets@ == without_brackets(k.needle@),
    ensures
        match r {
            Some(g) => guid_lookup(text@, key_of(*k)) == Some(g@),
            None => guid_lookup(text@, key_of(*k)) is None,
        },
{
    let chars = chars_of(text);
    let ls = split_lines(&chars);
    let ghost lv = ls@.map_values(|w: Vec<char>| w@);
    let ghost key = key_of(*k);
    let mut current: Option<String> = None;
    let mut i: usize = 0;
    while i < ls.len()
        invariant
            i <= ls.len(),
            k.by_path ==> k.needle_no_brackets@ == without_brackets(k.needle@),
            key == key_of(*k),
            lv == ls@.map_values(|w: Vec<char>| w@),
            lv == lines(text@),
            guid_scan(lv.subrange(0, i as int), key).found is None,
            match current {
                Some(g) => guid_scan(lv.subrange(0, i as int), key).current == Some(g@),
                None => guid_scan(lv.subrange(0, i as int), key).current is None,
            },
        decreases ls.len() - i,
    {
        let ghost nxt = lv.subrange(0, i + 1);
        assert(nxt.drop_last() =~= lv.subrange(0, i as int));
        assert(nxt.last() == ls@[i as int]@);
        match identifier_of(&ls[i]) {
            Some(g) => {
                current = Some(g);
            },
            None => {},
        }
        if device_matches(&ls[i], k) {
            match current {
                Some(g) => {
                    proof {
                        assert(guid_scan(nxt, key).found == Some(g@));
                        lemma_found_stays(lv, key, i + 1);
                        assert(lv.subrange(0, lv.len() as int) =~= lv);
                    }
                    return Some(g);
                },
                None => {},
            }
        }
        i = i + 1;
    }
    assert(lv.subrange(0, ls.len() as int) =~= lv);
    None
}

proof fn lemma_found_stays(ls: Seq<Seq<char>>, key: GuidKey, i: int)
    requires
        0 <= i <= ls.len(),
        guid_scan(ls.subrange(0, i), key).found is Some,
    ensures
        guid_scan(ls, key) == guid_scan(ls.subrange(0, i), key),
    decreases ls.len() - i,
{
    if i < ls.len() {
        let nxt = ls.subrange(0, i + 1);
        assert(nxt.drop_last() =~= ls.subrange(0, i));
        lemma_found_stays(ls, key, i + 1);
    } else {
        assert(ls.subrange(0, i) =~= ls);
    }
}

/// The identifier of the boot entry whose device refers to the disk at
/// `vhd_path` (compared in lower case, with and without square brackets):
/// in one pass over the lines, the identifier most recently introduced
/// before or on the first such device line; `None` when there is none.
pub fn extract_guid_for_vhd(bcd_output: &str, vhd_path: &str) -> (r: Option<String>)
    ensures
        match r {
            Some(g) => guid_lookup(bcd_output@, GuidKey::Path(lower(vhd_path@))) == Some(g@),
            None => guid_lookup(bcd_output@, GuidKey::Path(lower(vhd_path@))) is None,
        },
{
    let needle = to_lower(&chars_of(vhd_path));
    let needle_no_brackets = strip_brackets(&needle);
    let k = KeyChars { needle, needle_no_brackets, by_path: true };
    lookup(bcd_output, &k)
}

/// The identifier of the boot entry whose device is `partition=<letter>:`
/// (in any case), found in the same single pass as [`extract_guid_for_vhd`].
pub fn extract_guid_for_partition_letter(bcd_output: &str, letter: char) -> (r: Option<String>)
    ensures
        match r {
            Some(g) => guid_lookup(bcd_output@, GuidKey::Token(letter_token(letter))) == Some(g@),
            None => guid_lookup(bcd_output@, GuidKey::Token(letter_token(letter))) is None,
        },
{
    let mut needle: Vec<char> = Vec::new();
    push_str(&mut needle, "partition=");
    needle.push(to_lower_char(letter));
    push_str(&mut needle, ":");
    let k = KeyChars { needle_no_brackets: Vec::new(), needle, by_path: false };
    assert(k.needle@ =~= letter_token(letter));
    lookup(bcd_output, &k)
}

fn owned(s: &str) -> (r: String)
    ensures
        r@ == s@,
{
    s.to_owned()
}

/// The command that installs boot files from the Windows directory of the
/// volume mounted at `system_dir` into the default boot store.
pub fn run_bcdboot(system_dir: &str) -> (r: Invocation)
    ensures
        r.program@ == "bcdboot"@,
        r.args_view() == seq![system_dir@ + "\\Windows"@, "/d"@],
        r.elevated,
{
    let mut dir: Vec<char> = Vec::new();
    push_str(&mut dir, system_dir);
    push_str(&mut dir, "\\Windows");
    let args = vec![string_of(&dir), owned("/d")];
    let r = Invocation { program: owned("bcdboot"), args, elevated: true };
    assert(r.args_view() =~= seq![system_dir@ + "\\Windows"@, "/d"@]);
    r
}

/// The command that lists every boot entry.
pub fn bcdedit_enum_all() -> (r: Invocation)
    ensures
        r.program@ == "bcdedit"@,
        r.args_view() == seq!["/enum"@, "all"@],
        r.elevated,
{
    let r = Invocation { program: owned("bcdedit"), args: vec![owned("/enum"), owned("all")], elevated: true };
    assert(r.args_view() =~= seq!["/enum"@, "all"@]);
    r
}

/// The command that makes `guid` the entry of the next boot only.
pub fn bcdedit_boot_sequence(guid: &str) -> (r: Invocation)
    ensures
        r.program@ == "bcdedit"@,
        r.args_view() == seq!["/bootsequence"@, guid@],
        r.elevated,
{
    let r = Invocation {
        program: owned("bcdedit"),
        args: vec![owned("/bootsequence"), owned(guid)],
        elevated: true,
    };
    assert(r.args_view() =~= seq!["/bootsequence"@, guid@]);
    r
}

/// The command that deletes the boot entry `guid`.
pub fn bcdedit_delete(guid: &str) -> (r: Invocation)
    ensures
        r.program@ == "bcdedit"@,
        r.args_view() == seq!["/delete"@, guid@],
        r.elevated,
{
    let r = Invocation { program: owned("bcdedit"), args: vec![owned("/delete"), owned(guid)], elevated: true };
    assert(r.args_view() =~= seq!["/delete"@, guid@]);
    r
}

/// The command that sets the description shown for the boot entry `guid`.
pub fn bcdedit_set_description(guid: &str, description: &str) -> (r: Invocation)
    ensures
        r.program@ == "bcdedit"@,
        r.args_view() == seq!["/set"@, guid@, "description"@, description@],
        r.elevated,
{
    let r = Invocation {
        program: owned("bcdedit"),
        args: vec![owned("/set"), owned(guid), owned("description"), owned(description)],
        elevated: true,
    };
    assert(r.args_view() =~= seq!["/set"@, guid@, "description"@, description@]);
    r
}

/// The command that restarts the machine at once.
pub fn restart_now() -> (r: Invocation)
    ensures
        r.program@ == "shutdown"@,
        r.args_view() == seq!["/r"@, "/t"@, "0"@],
        r.elevated,
{
    let r = Invocation {
        program: owned("shutdown"),
        args: vec![owned("/r"), owned("/t"), owned("0")],
        elevated: true,
    };
    assert(r.args_view() =~= seq!["/r"@, "/t"@, "0"@]);
    r
}

} // verus!
