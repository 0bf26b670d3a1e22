//! The workspace reconciler: the decisions behind every lifecycle operation
//! and the scan that merges what is on disk into the stored node tree.
use vstd::prelude::*;
use crate::bcd::{
    extract_guid_for_partition_letter, extract_guid_for_vhd, guid_lookup, letter_token, GuidKey,
};
use crate::diskpart::{PartitionInfo, PartitionView};
use crate::models::{AppError, CommandOutput, Node};
use crate::text::{
    all_digits, chars_of, has_prefix, is_ws_char, str_eq, is_ws, lower, lower_char, opt_view, push_all, push_str,
    string_of, subslice, to_lower, to_lower_char, trim, trim_chars, trim_end,
};

verus! {

// ---------------------------------------------------------------------------
// Path keys
/// How one character of a path is compared: separators as backslashes,
/// letters in ASCII lower case.
pub open spec fn fold_char(c: char) -> char {
    if c == '/' {
        '\\'
    } else {
        lower_char(c)
    }
}

/// The long-path prefix `\\?\`.
pub open spec fn long_prefix() -> Seq<char> {
    seq!['\\', '\\', '?', '\\']
}

/// `s` without its leading whitespace and leading long-path prefixes,
/// removed again and again until neither is left.
pub open spec fn clean_front(s: Seq<char>) -> Seq<char>
    decreases s.len(),
{
    if s.len() > 0 && is_ws(s[0]) {
        clean_front(s.drop_first())
    } else if has_prefix(s, long_prefix()) {
        clean_front(s.subrange(4, s.len() as int))
    } else {
        s
    }
}

/// The key under which paths are compared: forward slashes as backslashes
/// and letters in lower case; then, repeatedly, leading whitespace and
/// long-path prefixes removed; then trailing whitespace removed.
pub open spec fn normalize(s: Seq<char>) -> Seq<char> {
    trim_end(clean_front(s.map_values(|c: char| fold_char(c))))
}

fn fold(c: char) -> (r: char)
    ensures
        r == fold_char(c),
{
    if c == '/' {
        '\\'
    } else {
        to_lower_char(c)
    }
}

/// The comparison key of a path, as [`normalize`] describes it.
pub fn normalize_path(path: &str) -> (r: String)
    ensures
        r@ == normalize(path@),
{
    let src = chars_of(path);
    let mut v: Vec<char> = Vec::new();
    let mut i: usize = 0;
    while i < src.len()
        invariant
            i <= src.len(),
            src@ == path@,
            v@ == src@.subrange(0, i as int).map_values(|c: char| fold_char(c)),
        decreases src.len() - i,
    {
        v.push(fold(src[i]));
        i = i + 1;
        assert(v@ =~= src@.subrange(0, i as int).map_values(|c: char| fold_char(c)));
    }
    assert(src@.subrange(0, src.len() as int) =~= src@);
    let ghost folded = v@;
    assert(folded == path@.map_values(|c: char| fold_char(c)));
    let mut start: usize = 0;
    assert(v@.subrange(0, v.len() as int) =~= v@);
    while start < v.len() && (is_ws_char(v[start]) || (v.len() - start >= 4 && v[start] == '\\'
        && v[start + 1] == '\\' && v[start + 2] == '?' && v[start + 3] == '\\'))
        invariant
            start <= v.len(),
            v@ == folded,
            clean_front(folded) == clean_front(v@.subrange(start as int, v.len() as int)),
        decreases v.len() - start,
    {
        let ghost cur = v@.subrange(start as int, v.len() as int);
        if is_ws_char(v[start]) {
            assert(cur.drop_first() =~= v@.subrange(start + 1, v.len() as int));
            start = start + 1;
        } else {
            assert(cur.subrange(0, 4) =~= long_prefix());
            assert(cur.subrange(4, cur.len() as int) =~= v@.subrange(start + 4, v.len() as int));
            start = start + 4;
        }
    }
    let ghost rest = v@.subrange(start as int, v.len() as int);
    assert(!has_prefix(rest, long_prefix())) by {
        if has_prefix(rest, long_prefix()) {
            assert(rest.subrange(0, 4)[0] == '\\');
            assert(rest.subrange(0, 4)[1] == '\\');
            assert(rest.subrange(0, 4)[2] == '?');
            assert(rest.subrange(0, 4)[3] == '\\');
        }
    }
    assert(clean_front(rest) == rest);
    let mut end: usize = v.len();
    assert(v@.subrange(start as int, end as int) =~= rest);
    while end > start && is_ws_char(v[end - 1])
        invariant
            start <= end <= v.len(),
            v@ == folded,
            rest == v@.subrange(start as int, v.len() as int),
            trim_end(v@.subrange(start as int, end as int)) == trim_end(rest),
        decreases end,
    {
        assert(v@.subrange(start as int, end as int).drop_last() =~= v@.subrange(start as int, end - 1));
        end = end - 1;
    }
    let out = subslice(&v, start, end);
    assert(trim_end(out@) == out@);
    string_of(&out)
}

/// `s` and `t` differ at most in letter case and separator style.
pub open spec fn same_up_to_case_and_separators(s: Seq<char>, t: Seq<char>) -> bool {
    s.len() == t.len() && forall|i: int| 0 <= i < s.len() ==> fold_char(s[i]) == fold_char(t[i])
}

/// Every character of `s` is already in its compared form.
pub open spec fn is_folded(s: Seq<char>) -> bool {
    forall|i: int| 0 <= i < s.len() ==> fold_char(#[trigger] s[i]) == s[i]
}

proof fn lemma_fold_twice(c: char)
    ensures
        fold_char(fold_char(c)) == fold_char(c),
{
}

proof fn lemma_clean_front(x: Seq<char>)
    ensures
        !(clean_front(x).len() > 0 && is_ws(clean_front(x)[0])),
        !has_prefix(clean_front(x), long_prefix()),
        is_folded(x) ==> is_folded(clean_front(x)),
    decreases x.len(),
{
    if x.len() > 0 && is_ws(x[0]) {
        lemma_clean_front(x.drop_first());
        if is_folded(x) {
            assert(is_folded(x.drop_first())) by {
                assert forall|i: int| 0 <= i < x.len() - 1 implies fold_char(#[trigger] x.drop_first()[i])
                    == x.drop_first()[i] by {
                    assert(x.drop_first()[i] == x[i + 1]);
                }
            }
        }
    } else if has_prefix(x, long_prefix()) {
        let y = x.subrange(4, x.len() as int);
        lemma_clean_front(y);
        if is_folded(x) {
            assert(is_folded(y)) by {
                assert forall|i: int| 0 <= i < y.len() implies fold_char(#[trigger] y[i]) == y[i] by {
                    assert(y[i] == x[i + 4]);
                }
            }
        }
    }
}

proof fn lemma_trim_end_prefix(x: Seq<char>)
    ensures
        trim_end(x).len() <= x.len(),
        trim_end(x) == x.subrange(0, trim_end(x).len() as int),
        trim_end(x).len() == 0 || !is_ws(trim_end(x).last()),
    decreases x.len(),
{
    if x.len() > 0 && is_ws(x.last()) {
        lemma_trim_end_prefix(x.drop_last());
        assert(x.drop_last().subrange(0, trim_end(x).len() as int) =~= x.subrange(
            0,
            trim_end(x).len() as int,
        ));
    } else {
        assert(x.subrange(0, x.len() as int) =~= x);
    }
}

/// Two spellings of one path that differ only in letter case and separator
/// style always have the same key.
pub proof fn normalize_ignores_case_and_separators(s: Seq<char>, t: Seq<char>)
    requires
        same_up_to_case_and_separators(s, t),
    ensures
        normalize(s) == normalize(t),
{
    assert(s.map_values(|c: char| fold_char(c)) =~= t.map_values(|c: char| fold_char(c)));
}

/// Normalizing a key again leaves it unchanged.
pub proof fn normalize_idempotent(s: Seq<char>)
    ensures
        normalize(normalize(s)) == normalize(s),
{
    let x = s.map_values(|c: char| fold_char(c));
    assert(is_folded(x)) by {
        assert forall|i: int| 0 <= i < x.len() implies fold_char(#[trigger] x[i]) == x[i] by {
            lemma_fold_twice(s[i]);
        }
    }
    let c = clean_front(x);
    lemma_clean_front(x);
    let n = trim_end(c);
    lemma_trim_end_prefix(c);
    assert(is_folded(n)) by {
        assert forall|i: int| 0 <= i < n.len() implies fold_char(#[trigger] n[i]) == n[i] by {
            assert(n[i] == c[i]);
        }
    }
    assert(n.map_values(|ch: char| fold_char(ch)) =~= n);
    if n.len() > 0 {
        assert(n[0] == c[0]);
    }
    assert(!has_prefix(n, long_prefix())) by {
        if has_prefix(n, long_prefix()) {
            assert(c.subrange(0, 4) =~= n.subrange(0, 4));
        }
    }
    assert(clean_front(n) == n);
    assert(trim_end(n) == n);
}

// ---------------------------------------------------------------------------
// Names
pub open spec fn is_sep(c: char) -> bool {
    c == '\\' || c == '/'
}

/// Index of the last character of `s` that satisfies `is_sep` (`-1` if none).
pub open spec fn last_sep(s: Seq<char>) -> int
    decreases s.len(),
{
    if s.len() == 0 {
        -1
    } else if is_sep(s.last()) {
        s.len() - 1
    } else {
        last_sep(s.drop_last())
    }
}

/// Index of the last `c` in `s` (`-1` if none).
pub open spec fn last_index(s: Seq<char>, c: char) -> int
    decreases s.len(),
{
    if s.len() == 0 {
        -1
    } else if s.last() == c {
        s.len() - 1
    } else {
        last_index(s.drop_last(), c)
    }
}

/// Index of the first `c` in `s` (`s.len()` if none).
pub open spec fn first_index(s: Seq<char>, c: char) -> int
    decreases s.len(),
{
    if s.len() == 0 {
        0
    } else if s[0] == c {
        0
    } else {
        1 + first_index(s.drop_first(), c)
    }
}

/// The last component of a path.
pub open spec fn file_name(p: Seq<char>) -> Seq<char> {
    p.subrange(last_sep(p) + 1, p.len() as int)
}

/// The file name without its extension (a leading dot starts no extension).
pub open spec fn file_stem(name: Seq<char>) -> Seq<char> {
    let d = last_index(name, '.');
    if d <= 0 {
        name
    } else {
        name.subrange(0, d)
    }
}

/// The display name of a disk found on storage: its file stem, without a
/// leading `<digits>-` sequence prefix when text follows it.
pub open spec fn derived_name(path: Seq<char>) -> Seq<char> {
    let name = file_name(path);
    let stem = if name.len() == 0 || name == seq!['.', '.'] {
        seq!['v', 'h', 'd', 'x']
    } else {
        file_stem(name)
    };
    let h = first_index(stem, '-');
    if h < stem.len() && all_digits(stem.subrange(0, h)) && h + 1 < stem.len() {
        stem.subrange(h + 1, stem.len() as int)
    } else {
        stem
    }
}

proof fn lemma_last_sep_bounds(s: Seq<char>)
    ensures
        -1 <= last_sep(s) < s.len(),
    decreases s.len(),
{
    if s.len() > 0 && !is_sep(s.last()) {
        lemma_last_sep_bounds(s.drop_last());
    }
}

proof fn lemma_last_index_bounds(s: Seq<char>, c: char)
    ensures
        -1 <= last_index(s, c) < s.len(),
    decreases s.len(),
{
    if s.len() > 0 && s.last() != c {
        lemma_last_index_bounds(s.drop_last(), c);
    }
}

proof fn lemma_first_index_bounds(s: Seq<char>, c: char)
    ensures
        0 <= first_index(s, c) <= s.len(),
        first_index(s, c) < s.len() ==> s[first_index(s, c)] == c,
    decreases s.len(),
{
    if s.len() > 0 && s[0] != c {
        lemma_first_index_bounds(s.drop_first(), c);
    }
}

fn find_last_sep(s: &[char]) -> (r: usize)
    ensures
        r as int == last_sep(s@) + 1,
{
    let mut i: usize = s.len();
    assert(s@.subrange(0, i as int) =~= s@);
    while i > 0
        invariant
            i <= s.len(),
            last_sep(s@) == last_sep(s@.subrange(0, i as int)),
        decreases i,
    {
        let ghost cur = s@.subrange(0, i as int);
        assert(cur.drop_last() =~= s@.subrange(0, i - 1));
        if s[i - 1] == '\\' || s[i - 1] == '/' {
            return i;
        }
        i = i - 1;
    }
    i
}

fn find_last(s: &[char], c: char) -> (r: usize)
    ensures
        r as int == last_index(s@, c) + 1,
{
    let mut i: usize = s.len();
    assert(s@.subrange(0, i as int) =~= s@);
    while i > 0
        invariant
            i <= s.len(),
            last_index(s@, c) == last_index(s@.subrange(0, i as int), c),
        decreases i,
    {
        let ghost cur = s@.subrange(0, i as int);
        assert(cur.drop_last() =~= s@.subrange(0, i - 1));
        if s[i - 1] == c {
            return i;
        }
        i = i - 1;
    }
    i
}

fn find_first(s: &[char], c: char) -> (r: usize)
    ensures
        r as int == first_index(s@, c),
{
    let mut i: usize = 0;
    assert(s@.subrange(0, s.len() as int) =~= s@);
    while i < s.len()
        invariant
            i <= s.len(),
            first_index(s@, c) == i + first_index(s@.subrange(i as int, s.len() as int), c),
        decreases s.len() - i,
    {
        let ghost cur = s@.subrange(i as int, s.len() as int);
        assert(cur.drop_first() =~= s@.subrange(i + 1, s.len() as int));
        if s[i] == c {
            return i;
        }
        i = i + 1;
    }
    i
}

/// The display name of a disk found at `path`, as [`derived_name`] says.
pub fn derive_name_from_path(path: &str) -> (r: String)
    ensures
        r@ == derived_name(path@),
{
    let p = chars_of(path);
    proof {
        lemma_last_sep_bounds(p@);
    }
    let name = subslice(&p, find_last_sep(&p), p.len());
    let stem: Vec<char> = if name.len() == 0 || (name.len() == 2 && name[0] == '.' && name[1] == '.') {
        proof {
            if name@.len() == 2 && name@[0] == '.' && name@[1] == '.' {
                assert(name@ =~= seq!['.', '.']);
            }
        }
        vec!['v', 'h', 'd', 'x']
    } else {
        proof {
            assert(name@ != seq!['.', '.']) by {
                if name@ == seq!['.', '.'] {
                    assert(name@.len() == 2 && name@[0] == '.' && name@[1] == '.');
                }
            }
            lemma_last_index_bounds(name@, '.');
        }
        let d = find_last(&name, '.');
        if d <= 1 {
            name
        } else {
            subslice(&name, 0, d - 1)
        }
    };
    proof {
        lemma_first_index_bounds(stem@, '-');
    }
    let h = find_first(&stem, '-');
    if h < stem.len() && h + 1 < stem.len() {
        let mut k: usize = 0;
        let mut digits = true;
        while k < h
            invariant
                h < stem.len(),
                k <= h,
                digits == all_digits(stem@.subrange(0, k as int)),
            decreases h - k,
        {
            let c = stem[k];
            let ghost nxt = stem@.subrange(0, k + 1);
            assert(nxt[k as int] == c);
            if !('0' <= c && c <= '9') {
                digits = false;
            }
            k = k + 1;
            proof {
                if digits {
                    assert forall|j: int| 0 <= j < k implies crate::text::is_digit(#[trigger] nxt[j]) by {
                        if j < k - 1 {
                            assert(nxt[j] == stem@.subrange(0, k - 1)[j]);
                        }
                    }
                } else {
                    if '0' <= c && c <= '9' {
                        assert(!all_digits(stem@.subrange(0, k - 1)));
                        let w = choose|j: int| 0 <= j < k - 1 && !crate::text::is_digit(#[trigger] stem@.subrange(0, k - 1)[j]);
                        assert(nxt[w] == stem@.subrange(0, k - 1)[w]);
                    }
                }
            }
        }
        if digits {
            return string_of(&subslice(&stem, h + 1, stem.len()));
        }
    }
    string_of(&stem)
}

// ---------------------------------------------------------------------------
// Command failures
/// How many characters of a command's output a failure keeps.
pub const DETAIL_LIMIT: usize = 500;

/// `s` cut to at most [`DETAIL_LIMIT`] characters.
pub open spec fn clip(s: Seq<char>) -> Seq<char> {
    if s.len() > DETAIL_LIMIT {
        s.subrange(0, DETAIL_LIMIT as int)
    } else {
        s
    }
}

fn clip_chars(s: &Vec<char>) -> (r: Vec<char>)
    ensures
        r@ == clip(s@),
{
    if s.len() > DETAIL_LIMIT {
        subslice(s, 0, DETAIL_LIMIT)
    } else {
        subslice(s, 0, s.len())
    }
}

/// What a failed command printed: `stderr=` and its trimmed error output
/// when there is any, else `stdout=` and its trimmed output when there is
/// any (either cut to [`DETAIL_LIMIT`] characters), else `no output`.
pub open spec fn output_detail(out: CommandOutput) -> Seq<char> {
    if trim(out.stderr@).len() > 0 {
        "stderr="@ + clip(trim(out.stderr@))
    } else if trim(out.stdout@).len() > 0 {
        "stdout="@ + clip(trim(out.stdout@))
    } else {
        "no output"@
    }
}

/// The failure of the external command `name`, with its exit code, the
/// script it ran (if any) and what it printed.
pub fn command_error(name: &str, output: &CommandOutput, script: Option<&str>) -> (r: AppError)
    ensures
        r matches AppError::Command { name: n, exit_code, script: s, detail } && n@ == name@
            && exit_code == output.exit_code && detail@ == output_detail(*output) && match script {
            Some(p) => opt_view(s) == Some(p@),
            None => s is None,
        },
{
    let err = trim_chars(&chars_of(output.stderr.as_str()));
    let out = trim_chars(&chars_of(output.stdout.as_str()));
    let mut detail: Vec<char> = Vec::new();
    if err.len() > 0 {
        push_str(&mut detail, "stderr=");
        push_all(&mut detail, &clip_chars(&err));
    } else if out.len() > 0 {
        push_str(&mut detail, "stdout=");
        push_all(&mut detail, &clip_chars(&out));
    } else {
        push_str(&mut detail, "no output");
    }
    AppError::Command {
        name: string_of(&chars_of(name)),
        exit_code: output.exit_code,
        script: match script {
            Some(p) => Some(string_of(&chars_of(p))),
            None => None,
        },
        detail: string_of(&detail),
    }
}

// ---------------------------------------------------------------------------
// Partition roles
/// The index of the first partition whose kind equals `kind` in ASCII case.
pub open spec fn first_of_kind(ps: Seq<PartitionView>, kind: Seq<char>) -> Option<nat>
    decreases ps.len(),
{
    if ps.len() == 0 {
        None
    } else if lower(ps[0].kind) == lower(kind) {
        Some(ps[0].index)
    } else {
        first_of_kind(ps.drop_first(), kind)
    }
}

/// Whether some partition has index `idx`.
pub open spec fn has_index(ps: Seq<PartitionView>, idx: nat) -> bool {
    exists|i: int| 0 <= i < ps.len() && ps[i].index == idx
}

/// The system partition: the first `Primary` one, else the first `Basic` one.
pub open spec fn system_partition(ps: Seq<PartitionView>) -> Option<nat> {
    match first_of_kind(ps, "Primary"@) {
        Some(i) => Some(i),
        None => first_of_kind(ps, "Basic"@),
    }
}

/// The EFI partition: the first `System` one, else partition 2 if listed.
pub open spec fn efi_partition(ps: Seq<PartitionView>) -> Option<nat> {
    match first_of_kind(ps, "System"@) {
        Some(i) => Some(i),
        None => if has_index(ps, 2) {
            Some(2)
        } else {
            None
        },
    }
}

fn find_kind(parts: &Vec<PartitionInfo>, kind: &str) -> (r: Option<u32>)
    ensures
        match r {
            Some(i) => first_of_kind(parts@.map_values(|p: PartitionInfo| p@), kind@) == Some(i as nat),
            None => first_of_kind(parts@.map_values(|p: PartitionInfo| p@), kind@) is None,
        },
{
    let ghost ps = parts@.map_values(|p: PartitionInfo| p@);
    let want = to_lower(&chars_of(kind));
    let mut i: usize = 0;
    assert(ps.subrange(0, ps.len() as int) =~= ps);
    while i < parts.len()
        invariant
            i <= parts.len(),
            ps == parts@.map_values(|p: PartitionInfo| p@),
            want@ == lower(kind@),
            first_of_kind(ps, kind@) == first_of_kind(ps.subrange(i as int, ps.len() as int), kind@),
        decreases parts.len() - i,
    {
        let ghost cur = ps.subrange(i as int, ps.len() as int);
        assert(cur.drop_first() =~= ps.subrange(i + 1, ps.len() as int));
        assert(cur[0] == parts@[i as int]@);
        let k = to_lower(&chars_of(parts[i].kind.as_str()));
        if crate::text::slice_eq(&k, &want) {
            return Some(parts[i].index);
        }
        i = i + 1;
    }
    None
}

/// The system partition of a listing, as [`system_partition`] says.
pub fn detect_system_partition(parts: &Vec<PartitionInfo>) -> (r: Option<u32>)
    ensures
        match r {
            Some(i) => system_partition(parts@.map_values(|p: PartitionInfo| p@)) == Some(i as nat),
            None => system_partition(parts@.map_values(|p: PartitionInfo| p@)) is None,
        },
{
    match find_kind(parts, "Primary") {
        Some(i) => Some(i),
        None => find_kind(parts, "Basic"),
    }
}

/// The EFI partition of a listing, as [`efi_partition`] says.
pub fn detect_efi_partition(parts: &Vec<PartitionInfo>) -> (r: Option<u32>)
    ensures
        match r {
            Some(i) => efi_partition(parts@.map_values(|p: PartitionInfo| p@)) == Some(i as nat),
            None => efi_partition(parts@.map_values(|p: PartitionInfo| p@)) is None,
        },
{
    let ghost ps = parts@.map_values(|p: PartitionInfo| p@);
    match find_kind(parts, "System") {
        Some(i) => Some(i),
        None => {
            let mut k: usize = 0;
            while k < parts.len()
                invariant
                    k <= parts.len(),
                    ps == parts@.map_values(|p: PartitionInfo| p@),
                    first_of_kind(ps, "System"@) is None,
                    forall|j: int| 0 <= j < k ==> ps[j].index != 2,
                decreases parts.len() - k,
            {
                if parts[k].index == 2 {
                    assert(ps[k as int].index == 2);
                    assert(has_index(ps, 2));
                    return Some(2);
                }
                k = k + 1;
            }
            None
        },
    }
}

// ---------------------------------------------------------------------------
// Boot entries
/// The boot entry bound to a disk: looked up by its path, else by the
/// letter its system volume is mounted at.
pub open spec fn resolved_guid(text: Seq<char>, vhd_path: Seq<char>, letter: char) -> Option<
    Seq<char>,
> {
    match guid_lookup(text, GuidKey::Path(lower(vhd_path))) {
        Some(g) => Some(g),
        None => guid_lookup(text, GuidKey::Token(letter_token(letter))),
    }
}

/// The boot entry that enumeration text binds to a disk, as
/// [`resolved_guid`] says.
pub fn resolve_guid(bcd_output: &str, vhd_path: &str, letter: char) -> (r: Option<String>)
    ensures
        opt_view(r) == resolved_guid(bcd_output@, vhd_path@, letter),
{
    match extract_guid_for_vhd(bcd_output, vhd_path) {
        Some(g) => Some(g),
        None => extract_guid_for_partition_letter(bcd_output, letter),
    }
}

// ---------------------------------------------------------------------------
// Subtrees
pub open spec fn ids_of(nodes: Seq<Node>) -> Seq<Seq<char>> {
    nodes.map_values(|n: Node| n.id@)
}

/// Whether the node at position `i` has the node `p` as its stored parent.
pub open spec fn child_at(nodes: Seq<Node>, i: int, p: Seq<char>) -> bool {
    0 <= i < nodes.len() && opt_view(nodes[i].parent_id) == Some(p)
}

/// `order` lists `target` and its descendants, each reached from an earlier
/// member: it starts at `target`, holds every child of each member, and
/// every later member is a child of an earlier one.
pub open spec fn is_subtree_order(nodes: Seq<Node>, target: Seq<char>, order: Seq<Seq<char>>) -> bool {
    &&& order.len() >= 1
    &&& order[0] == target
    &&& forall|k: int, i: int|
        0 <= k < order.len() && #[trigger] child_at(nodes, i, order[k]) ==> order.contains(
            nodes[i].id@,
        )
    &&& forall|k: int| 0 < k < order.len() ==> #[trigger] justified(nodes, order, k)
}

/// The `k`-th member of `order` is a child of an earlier member.
pub open spec fn justified(nodes: Seq<Node>, order: Seq<Seq<char>>, k: int) -> bool {
    exists|j: int, i: int| 0 <= j < k && #[trigger] child_at(nodes, i, order[j]) && nodes[i].id@ == order[k]
}

pub open spec fn count_true(s: Seq<bool>) -> nat
    decreases s.len(),
{
    if s.len() == 0 {
        0
    } else {
        count_true(s.drop_last()) + if s.last() {
            1nat
        } else {
            0nat
        }
    }
}

proof fn lemma_count_true_le(s: Seq<bool>)
    ensures
        count_true(s) <= s.len(),
    decreases s.len(),
{
    if s.len() > 0 {
        lemma_count_true_le(s.drop_last());
    }
}

proof fn lemma_count_true_set(s: Seq<bool>, k: int)
    requires
        0 <= k < s.len(),
        !s[k],
    ensures
        count_true(s.update(k, true)) == count_true(s) + 1,
    decreases s.len(),
{
    let t = s.update(k, true);
    if k == s.len() - 1 {
        assert(t.drop_last() =~= s.drop_last());
    } else {
        assert(t.drop_last() =~= s.drop_last().update(k, true));
        lemma_count_true_set(s.drop_last(), k);
    }
}

spec fn queue_ids(nodes: Seq<Node>, target: Seq<char>, q: Seq<usize>) -> Seq<Seq<char>> {
    seq![target] + q.map_values(|i: usize| nodes[i as int].id@)
}

/// The `k`-th queued node is a child of a walk member at or before it.
spec fn reached(ns: Seq<Node>, target: Seq<char>, q: Seq<usize>, k: int) -> bool {
    exists|j: int| 0 <= j <= k && #[trigger] child_at(ns, q[k] as int, queue_ids(ns, target, q)[j])
}

fn parent_is(n: &Node, id: &str) -> (r: bool)
    ensures
        r == (opt_view(n.parent_id) == Some(id@)),
{
    match &n.parent_id {
        Some(p) => str_eq(p.as_str(), id),
        None => false,
    }
}

fn in_walk(nodes: &Vec<Node>, q: &Vec<usize>, node_id: &str, id: &str) -> (r: bool)
    requires
        forall|k: int| 0 <= k < q.len() ==> q@[k] < nodes.len(),
    ensures
        r == queue_ids(nodes@, node_id@, q@).contains(id@),
{
    let ghost walk = queue_ids(nodes@, node_id@, q@);
    if str_eq(node_id, id) {
        assert(walk[0] == id@);
        return true;
    }
    let mut k: usize = 0;
    while k < q.len()
        invariant
            k <= q.len(),
            walk == queue_ids(nodes@, node_id@, q@),
            forall|j: int| 0 <= j < q.len() ==> q@[j] < nodes.len(),
            forall|j: int| 0 <= j < k ==> nodes@[q@[j] as int].id@ != id@,
        decreases q.len() - k,
    {
        if str_eq(nodes[q[k]].id.as_str(), id) {
            assert(walk[k + 1] == id@);
            return true;
        }
        k = k + 1;
    }
    assert forall|w: int| 0 <= w < walk.len() implies walk[w] != id@ by {
        if w > 0 {
            assert(walk[w] == nodes@[q@[w - 1] as int].id@);
        }
    }
    false
}

/// The nodes to remove when deleting `node_id` with its subtree, children
/// before parents: the reverse of a breadth-first walk from `node_id` over
/// the stored parent links.
pub fn subtree_order(nodes: &Vec<Node>, node_id: &str) -> (r: Vec<String>)
    ensures
        is_subtree_order(nodes@, node_id@, r@.map_values(|s: String| s@).reverse()),
        r@.map_values(|s: String| s@).no_duplicates(),
{
    let ghost ns = nodes@;
    let n = nodes.len();
    let mut marked: Vec<bool> = Vec::new();
    let mut m: usize = 0;
    while m < n
        invariant
            m <= n,
            marked@.len() == m,
            forall|j: int| 0 <= j < m ==> !marked@[j],
            count_true(marked@) == 0,
        decreases n - m,
    {
        let ghost prev = marked@;
        marked.push(false);
        m = m + 1;
        assert(marked@.drop_last() =~= prev);
    }
    let mut q: Vec<usize> = Vec::new();
    // `h` is the position in the walk (0 is the target itself) whose
    // children are collected next.
    let mut h: usize = 0;
    loop
        invariant
            n == nodes.len(),
            ns == nodes@,
            marked@.len() == n,
            h <= q.len(),
            count_true(marked@) == q.len(),
            q.len() <= n,
            forall|k: int| 0 <= k < q.len() ==> q@[k] < n && marked@[q@[k] as int],
            forall|i: int| 0 <= i < n && #[trigger] marked@[i] ==> exists|k: int| 0 <= k < q.len() && q@[k] == i,
            queue_ids(ns, node_id@, q@).no_duplicates(),
            // every child of a processed member is marked or already walked
            forall|k: int, i: int|
                0 <= k < h && #[trigger] child_at(ns, i, queue_ids(ns, node_id@, q@)[k]) ==> marked@[i]
                    || queue_ids(ns, node_id@, q@).contains(nodes@[i].id@),
            // every queued node is a child of an earlier member
            forall|k: int| 0 <= k < q.len() ==> #[trigger] reached(ns, node_id@, q@, k),
        ensures
            n == nodes.len(),
            ns == nodes@,
            q.len() <= n,
            forall|k: int| 0 <= k < q.len() ==> q@[k] < n && marked@[q@[k] as int],
            forall|i: int| 0 <= i < n && #[trigger] marked@[i] ==> exists|k: int| 0 <= k < q.len() && q@[k] == i,
            queue_ids(ns, node_id@, q@).no_duplicates(),
            forall|k: int, i: int|
                0 <= k <= q.len() && #[trigger] child_at(ns, i, queue_ids(ns, node_id@, q@)[k]) ==> marked@[i]
                    || queue_ids(ns, node_id@, q@).contains(nodes@[i].id@),
            forall|k: int| 0 <= k < q.len() ==> #[trigger] reached(ns, node_id@, q@, k),
        decreases n - h,
    {
        let ghost q0 = q@;
        let head: &str = if h == 0 {
            node_id
        } else {
            nodes[q[h - 1]].id.as_str()
        };
        assert(head@ == queue_ids(ns, node_id@, q0)[h as int]);
        let mut i: usize = 0;
        while i < n
            invariant
                n == nodes.len(),
                ns == nodes@,
                marked@.len() == n,
                h <= q0.len(),
                i <= n,
                q0.len() <= q.len(),
                q@.subrange(0, q0.len() as int) == q0,
                head@ == queue_ids(ns, node_id@, q@)[h as int],
                count_true(marked@) == q.len(),
                q.len() <= n,
                forall|k: int| 0 <= k < q.len() ==> q@[k] < n && marked@[q@[k] as int],
                forall|j: int| 0 <= j < n && #[trigger] marked@[j] ==> exists|k: int| 0 <= k < q.len() && q@[k] == j,
                queue_ids(ns, node_id@, q@).no_duplicates(),
                forall|k: int, j: int|
                    0 <= k < h && #[trigger] child_at(ns, j, queue_ids(ns, node_id@, q@)[k]) ==> marked@[j]
                        || queue_ids(ns, node_id@, q@).contains(nodes@[j].id@),
                forall|j: int| 0 <= j < i && #[trigger] child_at(ns, j, head@) ==> marked@[j]
                    || queue_ids(ns, node_id@, q@).contains(nodes@[j].id@),
                forall|k: int| 0 <= k < q.len() ==> #[trigger] reached(ns, node_id@, q@, k),
            decreases n - i,
        {
            if !marked[i] && parent_is(&nodes[i], head) && !in_walk(nodes, &q, node_id, nodes[i].id.as_str()) {
                let ghost qb = q@;
                let ghost mb = marked@;
                let ghost wb = queue_ids(ns, node_id@, qb);
                proof {
                    lemma_count_true_set(mb, i as int);
                    lemma_count_true_le(mb.update(i as int, true));
                }
                marked.set(i, true);
                q.push(i);
                proof {
                    let wn = queue_ids(ns, node_id@, q@);
                    assert(wn =~= wb.push(ns[i as int].id@));
                    assert forall|x: Seq<char>| wb.contains(x) implies wn.contains(x) by {
                        let w = choose|w: int| 0 <= w < wb.len() && wb[w] == x;
                        assert(wn[w] == x);
                    }
                    assert(wn.no_duplicates()) by {
                        assert forall|a: int, b: int| 0 <= a < wn.len() && 0 <= b < wn.len() && a != b implies wn[a] != wn[b] by {
                            if a == wb.len() && b < wb.len() {
                                assert(wb.contains(wb[b]));
                            } else if b == wb.len() && a < wb.len() {
                                assert(wb.contains(wb[a]));
                            }
                        }
                    }
                    assert forall|k: int, j: int|
                        0 <= k < h && #[trigger] child_at(ns, j, queue_ids(ns, node_id@, q@)[k]) implies marked@[j]
                            || queue_ids(ns, node_id@, q@).contains(nodes@[j].id@) by {
                        assert(queue_ids(ns, node_id@, q@)[k] == queue_ids(ns, node_id@, qb)[k]);
                        assert(child_at(ns, j, queue_ids(ns, node_id@, qb)[k]));
                        if !mb[j] {
                            assert(wb.contains(nodes@[j].id@));
                        }
                    }
                    assert forall|j: int| 0 <= j < i + 1 && #[trigger] child_at(ns, j, head@) implies marked@[j]
                        || queue_ids(ns, node_id@, q@).contains(nodes@[j].id@) by {
                        if j < i && !mb[j] {
                            assert(wb.contains(nodes@[j].id@));
                        }
                    }
                    assert(forall|k: int| 0 <= k <= qb.len() ==> queue_ids(ns, node_id@, q@)[k] == queue_ids(ns, node_id@, qb)[k]);
                    assert(q@.subrange(0, q0.len() as int) =~= q0);
                    assert forall|k: int| 0 <= k < q.len() implies #[trigger] reached(ns, node_id@, q@, k) by {
                        if k < qb.len() {
                            assert(reached(ns, node_id@, qb, k));
                            let j = choose|j: int| 0 <= j <= k && #[trigger] child_at(ns, qb[k] as int, queue_ids(ns, node_id@, qb)[j]);
                            assert(child_at(ns, q@[k] as int, queue_ids(ns, node_id@, q@)[j]));
                        } else {
                            assert(child_at(ns, q@[k] as int, queue_ids(ns, node_id@, q@)[h as int]));
                        }
                    }
                    assert forall|j: int| 0 <= j < n && #[trigger] marked@[j] implies exists|k: int| 0 <= k < q.len() && q@[k] == j by {
                        if j != i {
                            assert(mb[j]);
                            let k = choose|k: int| 0 <= k < qb.len() && qb[k] == j;
                            assert(q@[k] == j);
                        } else {
                            assert(q@[qb.len() as int] == j);
                        }
                    }
                }
            }
            i = i + 1;
        }
        assert forall|k: int, j: int|
            0 <= k < h + 1 && #[trigger] child_at(ns, j, queue_ids(ns, node_id@, q@)[k]) implies marked@[j]
                || queue_ids(ns, node_id@, q@).contains(nodes@[j].id@) by {
            if k == h {
                assert(child_at(ns, j, head@));
            }
        }
        if h >= q.len() {
            break;
        }
        h = h + 1;
    }
    // every member has been processed: the walk is closed under children
    let ghost walk = queue_ids(ns, node_id@, q@);
    let mut order: Vec<String> = Vec::new();
    let mut k: usize = q.len();
    while k > 0
        invariant
            k <= q.len(),
            q.len() <= n,
            n == nodes.len(),
            forall|j: int| 0 <= j < q.len() ==> q@[j] < n,
            walk == queue_ids(ns, node_id@, q@),
            walk.len() == q.len() + 1,
            ns == nodes@,
            order.len() == q.len() - k,
            forall|t: int| 0 <= t < order.len() ==> #[trigger] order@[t]@ == walk[walk.len() - 1 - t],
        decreases k,
    {
        let id = string_of(&chars_of(nodes[q[k - 1]].id.as_str()));
        assert(id@ == walk[k as int]);
        order.push(id);
        k = k - 1;
    }
    let first = string_of(&chars_of(node_id));
    assert(first@ == walk[0]);
    order.push(first);
    assert(order@.map_values(|s: String| s@).reverse() =~= walk);
    proof {
        assert forall|k: int, i: int|
            0 <= k < walk.len() && #[trigger] child_at(ns, i, walk[k]) implies walk.contains(ns[i].id@) by {
            if marked@[i] {
                let kk = choose|kk: int| 0 <= kk < q.len() && q@[kk] == i;
                assert(walk[kk + 1] == ns[i].id@);
            }
        }
        assert forall|k: int| 0 < k < walk.len() implies #[trigger] justified(ns, walk, k) by {
            assert(reached(ns, node_id@, q@, k - 1));
            let j = choose|j: int| 0 <= j <= k - 1 && #[trigger] child_at(ns, q@[k - 1] as int, walk[j]);
            assert(walk[k] == q@.map_values(|i: usize| ns[i as int].id@)[k - 1]);
            assert(child_at(ns, q@[k - 1] as int, walk[j]) && ns[q@[k - 1] as int].id@ == walk[k]);
        }
        assert(walk[0] == node_id@);
        assert(is_subtree_order(ns, node_id@, walk));
        let ov = order@.map_values(|s: String| s@);
        assert forall|a: int, b: int| 0 <= a < ov.len() && 0 <= b < ov.len() && a != b implies ov[a] != ov[b] by {
            assert(ov[a] == ov.reverse()[ov.len() - 1 - a]);
            assert(ov[b] == ov.reverse()[ov.len() - 1 - b]);
        }
    }
    order
}

} // verus!
