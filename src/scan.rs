//! The scan: what storage and the boot manager show, merged into the stored
//! node tree.  Scan never removes a node; it inserts the disks it finds
//! without a record, relinks parents, records boot entries, and recomputes
//! every node's status.
use vstd::prelude::*;
use crate::bcd::{extract_guid_for_vhd, guid_lookup, GuidKey};
use crate::diskpart::{parent_of_lines, parse_detail_vdisk_parent};
use crate::lifecycle::OpRecord;
use crate::models::{CommandOutput, Node, NodeStatus, NodeV};
use crate::text::{chars_of, copy, copy_opt, lines, lower, opt_view, push_str, str_eq, string_of};
use crate::workspace::{derive_name_from_path, derived_name, normalize, normalize_path};

verus! {

/// A virtual-disk file found on storage, with what was learnt of it.
#[derive(Debug)]
pub struct ScannedVhd {
    pub path: String,
    /// The comparison key of `path`.
    pub normalized: String,
    /// The key of the parent that the disk itself names, if any.
    pub parent_normalized: Option<String>,
    /// Whether the disk's details could be read.
    pub detail_ok: bool,
    pub created_at: i64,
    /// The boot entry bound to the disk's path, if one was found.
    pub bcd_guid: Option<String>,
}

pub ghost struct ScanV {
    pub path: Seq<char>,
    pub key: Seq<char>,
    pub parent_key: Option<Seq<char>>,
    pub detail_ok: bool,
    pub created_at: i64,
    pub guid: Option<Seq<char>>,
}

impl View for ScannedVhd {
    type V = ScanV;

    open spec fn view(&self) -> ScanV {
        ScanV {
            path: self.path@,
            key: self.normalized@,
            parent_key: opt_view(self.parent_normalized),
            detail_ok: self.detail_ok,
            created_at: self.created_at,
            guid: opt_view(self.bcd_guid),
        }
    }
}

/// What a scan asks to be written to the store, in this order.
#[derive(Debug)]
pub struct ScanOutcome {
    /// The merged tree, as the store holds it afterwards.
    pub nodes: Vec<Node>,
    /// New nodes, each with its import record.
    pub inserted: Vec<(Node, OpRecord)>,
    /// Parent links to set, by node id.
    pub parent_updates: Vec<(String, Option<String>)>,
    /// Boot entries to record, by node id.
    pub bcd_updates: Vec<(String, String)>,
    /// Every node's recomputed status, by node id.
    pub statuses: Vec<(String, NodeStatus)>,
}

pub open spec fn opt_normalize(o: Option<Seq<char>>) -> Option<Seq<char>> {
    match o {
        Some(p) => Some(normalize(p)),
        None => None,
    }
}

/// What one discovered file yields: its key, the key of the parent its
/// details name (when `detail` ran and succeeded), and the boot entry bound
/// to its path in `bcd_enum` (when boot entries were listed).
pub fn scanned_vhd(path: &str, detail: Option<&CommandOutput>, bcd_enum: Option<&str>, created_at: i64) -> (r:
    ScannedVhd)
    ensures
        r@.path == path@,
        r@.key == normalize(path@),
        r.detail_ok == (detail matches Some(o) && o.succeeded()),
        r@.parent_key == (match detail {
            Some(o) => if o.succeeded() {
                opt_normalize(parent_of_lines(lines(o.stdout@)))
            } else {
                None
            },
            None => None,
        }),
        r@.guid == (match bcd_enum {
            Some(t) => guid_lookup(t@, GuidKey::Path(lower(path@))),
            None => None,
        }),
        r.created_at == created_at,
{
    let (detail_ok, parent_normalized) = match detail {
        Some(o) => if o.ok() {
            let d = parse_detail_vdisk_parent(o.stdout.as_str());
            (
                true,
                match d.parent {
                    Some(p) => Some(normalize_path(p.as_str())),
                    None => None,
                },
            )
        } else {
            (false, None)
        },
        None => (false, None),
    };
    let bcd_guid = match bcd_enum {
        Some(t) => extract_guid_for_vhd(t, path),
        None => None,
    };
    ScannedVhd {
        path: string_of(&chars_of(path)),
        normalized: normalize_path(path),
        parent_normalized,
        detail_ok,
        created_at,
        bcd_guid,
    }
}

// ---------------------------------------------------------------------------
// The merge, as specifications
pub open spec fn key_of(n: NodeV) -> Seq<char> {
    normalize(n.path)
}

/// Position of the last node whose key is `key` (`-1` if none).
pub open spec fn index_of_key(ns: Seq<NodeV>, key: Seq<char>) -> int
    decreases ns.len(),
{
    if ns.len() == 0 {
        -1
    } else if key_of(ns.last()) == key {
        ns.len() - 1
    } else {
        index_of_key(ns.drop_last(), key)
    }
}

/// Position of the last scanned file whose key is `key` (`-1` if none).
pub open spec fn scan_index(ss: Seq<ScanV>, key: Seq<char>) -> int
    decreases ss.len(),
{
    if ss.len() == 0 {
        -1
    } else if ss.last().key == key {
        ss.len() - 1
    } else {
        scan_index(ss.drop_last(), key)
    }
}

/// The node recorded for a file found without a record.
pub open spec fn new_node(s: ScanV, id: Seq<char>) -> NodeV {
    NodeV {
        id,
        parent: None,
        name: derived_name(s.path),
        path: s.path,
        guid: s.guid,
        desc: None,
        created_at: s.created_at,
        status: NodeStatus::Normal,
        ready: s.guid is Some,
    }
}

pub ghost struct Inserted {
    pub nodes: Seq<NodeV>,
    pub added: Seq<NodeV>,
}

/// First phase: every scanned file whose key no node has yet becomes a new
/// root node, with the identifier `fresh[k]` for the `k`-th file.
pub open spec fn insert_phase(existing: Seq<NodeV>, ss: Seq<ScanV>, fresh: Seq<Seq<char>>) -> Inserted
    decreases ss.len(),
{
    if ss.len() == 0 {
        Inserted { nodes: existing, added: Seq::empty() }
    } else {
        let prev = insert_phase(existing, ss.drop_last(), fresh);
        let s = ss.last();
        if index_of_key(prev.nodes, s.key) >= 0 {
            prev
        } else {
            let n = new_node(s, fresh[ss.len() - 1]);
            Inserted { nodes: prev.nodes.push(n), added: prev.added.push(n) }
        }
    }
}

/// The identifier of the node that the file's own parent reference names.
pub open spec fn target_parent(ns: Seq<NodeV>, s: ScanV) -> Option<Seq<char>> {
    match s.parent_key {
        Some(p) => if index_of_key(ns, p) >= 0 {
            Some(ns[index_of_key(ns, p)].id)
        } else {
            None
        },
        None => None,
    }
}

pub ghost struct Linked {
    pub nodes: Seq<NodeV>,
    pub parent_updates: Seq<(Seq<char>, Option<Seq<char>>)>,
    pub bcd_updates: Seq<(Seq<char>, Seq<char>)>,
}

pub open spec fn relinked(n: NodeV, t: Option<Seq<char>>) -> NodeV {
    NodeV { parent: t, ..n }
}

pub open spec fn rebound(n: NodeV, g: Seq<char>) -> NodeV {
    NodeV { guid: Some(g), ready: true, ..n }
}

/// Second phase, one file: its node takes the parent its reference names
/// and, when an entry was found that differs from the stored one, that entry.
pub open spec fn link_step(st: Linked, s: ScanV) -> Linked {
    let ns = st.nodes;
    let i = index_of_key(ns, s.key);
    if i < 0 {
        st
    } else {
        let t = target_parent(ns, s);
        let n0 = ns[i];
        let (n1, pu) = if n0.parent != t {
            (relinked(n0, t), st.parent_updates.push((n0.id, t)))
        } else {
            (n0, st.parent_updates)
        };
        let (n2, bu) = match s.guid {
            Some(g) => if n1.guid != Some(g) || !n1.ready {
                (rebound(n1, g), st.bcd_updates.push((n0.id, g)))
            } else {
                (n1, st.bcd_updates)
            },
            None => (n1, st.bcd_updates),
        };
        Linked { nodes: ns.update(i, n2), parent_updates: pu, bcd_updates: bu }
    }
}

pub open spec fn link_phase(ns: Seq<NodeV>, ss: Seq<ScanV>) -> Linked
    decreases ss.len(),
{
    if ss.len() == 0 {
        Linked { nodes: ns, parent_updates: Seq::empty(), bcd_updates: Seq::empty() }
    } else {
        link_step(link_phase(ns, ss.drop_last()), ss.last())
    }
}

/// Third phase: the status of the `i`-th node.  `MissingFile` when its file
/// is gone; `Error` when its details could not be read; `MissingParent`
/// when its parent reference does not name its stored parent, or when it
/// has a stored parent and no reference (also when its file was not among
/// those scanned); else `Normal`.
pub open spec fn status_of(ns: Seq<NodeV>, present: Seq<bool>, ss: Seq<ScanV>, i: int) -> NodeStatus {
    let n = ns[i];
    let k = scan_index(ss, key_of(n));
    if !present[i] {
        NodeStatus::MissingFile
    } else if k < 0 {
        if n.parent is Some {
            NodeStatus::MissingParent
        } else {
            NodeStatus::Normal
        }
    } else if !ss[k].detail_ok {
        NodeStatus::Error
    } else {
        match ss[k].parent_key {
            Some(p) => {
                let j = index_of_key(ns, p);
                if j >= 0 && n.parent == Some(ns[j].id) {
                    NodeStatus::Normal
                } else {
                    NodeStatus::MissingParent
                }
            },
            None => if n.parent is Some {
                NodeStatus::MissingParent
            } else {
                NodeStatus::Normal
            },
        }
    }
}

pub open spec fn with_status(n: NodeV, st: NodeStatus) -> NodeV {
    NodeV { status: st, ..n }
}

/// The files found: the stored nodes' flags, then one (present) per
/// inserted node.
pub open spec fn presence(existing_present: Seq<bool>, total: nat) -> Seq<bool> {
    Seq::new(total, |i: int| if i < existing_present.len() { existing_present[i] } else { true })
}

pub open spec fn merged(existing: Seq<NodeV>, ss: Seq<ScanV>, fresh: Seq<Seq<char>>) -> Seq<NodeV> {
    link_phase(insert_phase(existing, ss, fresh).nodes, ss).nodes
}

pub open spec fn final_nodes(
    existing: Seq<NodeV>,
    present: Seq<bool>,
    ss: Seq<ScanV>,
    fresh: Seq<Seq<char>>,
) -> Seq<NodeV> {
    let m = merged(existing, ss, fresh);
    let pr = presence(present, m.len());
    Seq::new(m.len(), |i: int| with_status(m[i], status_of(m, pr, ss, i)))
}

// ---------------------------------------------------------------------------
// Laws of the merge
/// Same length, and at each position the same path (so the same key) and
/// identifier.
pub open spec fn same_keys_ids(a: Seq<NodeV>, b: Seq<NodeV>) -> bool {
    a.len() == b.len() && forall|i: int|
        0 <= i < a.len() ==> key_of(#[trigger] a[i]) == key_of(b[i]) && a[i].id == b[i].id
            && a[i].path == b[i].path
}

/// Same keys and identifiers, and at each position the same parent and entry.
pub open spec fn same_links(a: Seq<NodeV>, b: Seq<NodeV>) -> bool {
    same_keys_ids(a, b) && forall|i: int|
        0 <= i < a.len() ==> (#[trigger] a[i]).parent == b[i].parent && a[i].guid == b[i].guid
}

/// What a scan needs of its inputs: each scanned key is the key of the
/// scanned path, and no two scanned files share a key.
pub open spec fn scan_well_formed(ss: Seq<ScanV>) -> bool {
    &&& forall|k: int| 0 <= k < ss.len() ==> (#[trigger] ss[k]).key == normalize(ss[k].path)
    &&& forall|k: int, l: int| 0 <= k < l < ss.len() ==> (#[trigger] ss[k]).key != (#[trigger] ss[l]).key
}

proof fn lemma_index_same(a: Seq<NodeV>, b: Seq<NodeV>, key: Seq<char>)
    requires
        same_keys_ids(a, b),
    ensures
        index_of_key(a, key) == index_of_key(b, key),
    decreases a.len(),
{
    if a.len() > 0 {
        assert(key_of(a[a.len() - 1]) == key_of(b[b.len() - 1]));
        lemma_index_same(a.drop_last(), b.drop_last(), key);
    }
}

proof fn lemma_index_found(ns: Seq<NodeV>, key: Seq<char>)
    ensures
        -1 <= index_of_key(ns, key) < ns.len(),
        index_of_key(ns, key) >= 0 ==> key_of(ns[index_of_key(ns, key)]) == key,
    decreases ns.len(),
{
    if ns.len() > 0 && key_of(ns.last()) != key {
        lemma_index_found(ns.drop_last(), key);
    }
}

proof fn lemma_index_push(ns: Seq<NodeV>, n: NodeV, key: Seq<char>)
    requires
        index_of_key(ns, key) >= 0,
    ensures
        index_of_key(ns.push(n), key) >= 0,
{
    assert(ns.push(n).drop_last() =~= ns);
}

proof fn lemma_target_same(a: Seq<NodeV>, b: Seq<NodeV>, s: ScanV)
    requires
        same_keys_ids(a, b),
    ensures
        target_parent(a, s) == target_parent(b, s),
{
    if s.parent_key is Some {
        let p = s.parent_key.unwrap();
        lemma_index_same(a, b, p);
        lemma_index_found(a, p);
    }
}

proof fn lemma_link_step_same(st: Linked, s: ScanV)
    ensures
        same_keys_ids(st.nodes, link_step(st, s).nodes),
{
    lemma_index_found(st.nodes, s.key);
}

proof fn lemma_link_phase_same(ns: Seq<NodeV>, ss: Seq<ScanV>)
    ensures
        same_keys_ids(ns, link_phase(ns, ss).nodes),
    decreases ss.len(),
{
    if ss.len() > 0 {
        lemma_link_phase_same(ns, ss.drop_last());
        lemma_link_step_same(link_phase(ns, ss.drop_last()), ss.last());
    }
}

/// After the link phase, the node of each scanned file carries the parent
/// its reference names and the entry found for it.
proof fn lemma_link_phase_effect(ns: Seq<NodeV>, ss: Seq<ScanV>, k: int)
    requires
        scan_well_formed(ss),
        0 <= k < ss.len(),
        index_of_key(ns, ss[k].key) >= 0,
    ensures
        ({
            let out = link_phase(ns, ss).nodes;
            let i = index_of_key(ns, ss[k].key);
            &&& out[i].parent == target_parent(ns, ss[k])
            &&& (ss[k].guid matches Some(g) ==> out[i].guid == Some(g) && out[i].ready)
        }),
    decreases ss.len(),
{
    let pre = ss.drop_last();
    let st = link_phase(ns, pre);
    lemma_link_phase_same(ns, pre);
    lemma_index_same(ns, st.nodes, ss[k].key);
    lemma_index_found(ns, ss[k].key);
    lemma_index_same(ns, st.nodes, ss.last().key);
    lemma_index_found(ns, ss.last().key);
    lemma_target_same(ns, st.nodes, ss[k]);
    assert(scan_well_formed(pre)) by {
        assert forall|a: int| 0 <= a < pre.len() implies (#[trigger] pre[a]).key == normalize(pre[a].path) by {
            assert(pre[a] == ss[a]);
        }
        assert forall|a: int, b: int| 0 <= a < b < pre.len() implies (#[trigger] pre[a]).key != (#[trigger] pre[b]).key by {
            assert(pre[a] == ss[a] && pre[b] == ss[b]);
        }
    }
    if k < ss.len() - 1 {
        assert(pre[k] == ss[k]);
        lemma_link_phase_effect(ns, pre, k);
        assert(ss[k].key != ss[ss.len() - 1].key);
    }
}

proof fn lemma_insert_present(existing: Seq<NodeV>, pre: Seq<ScanV>, fresh: Seq<Seq<char>>, k: int)
    requires
        scan_well_formed(pre),
        0 <= k < pre.len(),
        fresh.len() >= pre.len(),
    ensures
        index_of_key(insert_phase(existing, pre, fresh).nodes, pre[k].key) >= 0,
    decreases pre.len(),
{
    let head = pre.drop_last();
    let prev = insert_phase(existing, head, fresh);
    if k < pre.len() - 1 {
        assert(scan_well_formed(head)) by {
            assert forall|a: int| 0 <= a < head.len() implies (#[trigger] head[a]).key == normalize(head[a].path) by {
                assert(head[a] == pre[a]);
            }
            assert forall|a: int, b: int| 0 <= a < b < head.len() implies (#[trigger] head[a]).key != (#[trigger] head[b]).key by {
                assert(head[a] == pre[a] && head[b] == pre[b]);
            }
        }
        assert(head[k] == pre[k]);
        lemma_insert_present(existing, head, fresh, k);
        if index_of_key(prev.nodes, pre.last().key) < 0 {
            lemma_index_push(prev.nodes, new_node(pre.last(), fresh[pre.len() - 1]), pre[k].key);
        }
    } else {
        if index_of_key(prev.nodes, pre.last().key) < 0 {
            let n = new_node(pre.last(), fresh[pre.len() - 1]);
            assert(prev.nodes.push(n).last() == n);
        }
    }
}

proof fn lemma_insert_noop(ns: Seq<NodeV>, ss: Seq<ScanV>, fresh: Seq<Seq<char>>)
    requires
        forall|k: int| 0 <= k < ss.len() ==> index_of_key(ns, (#[trigger] ss[k]).key) >= 0,
    ensures
        insert_phase(ns, ss, fresh) == (Inserted { nodes: ns, added: Seq::empty() }),
    decreases ss.len(),
{
    if ss.len() > 0 {
        let pre = ss.drop_last();
        assert forall|k: int| 0 <= k < pre.len() implies index_of_key(ns, (#[trigger] pre[k]).key) >= 0 by {
            assert(pre[k] == ss[k]);
        }
        lemma_insert_noop(ns, pre, fresh);
        assert(index_of_key(ns, ss[ss.len() - 1].key) >= 0);
    }
}

proof fn lemma_link_noop(ns: Seq<NodeV>, ss: Seq<ScanV>)
    requires
        forall|k: int|
            0 <= k < ss.len() && index_of_key(ns, (#[trigger] ss[k]).key) >= 0 ==> ns[index_of_key(
                ns,
                ss[k].key,
            )].parent == target_parent(ns, ss[k]) && (ss[k].guid matches Some(g) ==> ns[index_of_key(
                ns,
                ss[k].key,
            )].guid == Some(g) && ns[index_of_key(ns, ss[k].key)].ready),
    ensures
        link_phase(ns, ss) == (Linked { nodes: ns, parent_updates: Seq::empty(), bcd_updates: Seq::empty() }),
    decreases ss.len(),
{
    if ss.len() > 0 {
        let pre = ss.drop_last();
        assert forall|k: int|
            0 <= k < pre.len() && index_of_key(ns, (#[trigger] pre[k]).key) >= 0 implies ns[index_of_key(
                ns,
                pre[k].key,
            )].parent == target_parent(ns, pre[k]) && (pre[k].guid matches Some(g) ==> ns[index_of_key(
                ns,
                pre[k].key,
            )].guid == Some(g) && ns[index_of_key(ns, pre[k].key)].ready) by {
            assert(pre[k] == ss[k]);
        }
        lemma_link_noop(ns, pre);
        let s = ss.last();
        assert(ss[ss.len() - 1] == s);
        let i = index_of_key(ns, s.key);
        lemma_index_found(ns, s.key);
        if i >= 0 {
            assert(ns.update(i, ns[i]) =~= ns);
        }
    }
}

proof fn lemma_status_same(a: Seq<NodeV>, b: Seq<NodeV>, pr: Seq<bool>, ss: Seq<ScanV>, i: int)
    requires
        same_links(a, b),
        0 <= i < a.len(),
        pr.len() == a.len(),
    ensures
        status_of(a, pr, ss, i) == status_of(b, pr, ss, i),
{
    assert(key_of(a[i]) == key_of(b[i]));
    let k = scan_index(ss, key_of(a[i]));
    if k >= 0 && ss[k].parent_key is Some {
        let p = ss[k].parent_key.unwrap();
        lemma_index_same(a, b, p);
        lemma_index_found(a, p);
    }
}

proof fn lemma_insert_keeps(existing: Seq<NodeV>, ss: Seq<ScanV>, fresh: Seq<Seq<char>>)
    ensures
        insert_phase(existing, ss, fresh).nodes.len() >= existing.len(),
        forall|i: int|
            0 <= i < existing.len() ==> #[trigger] insert_phase(existing, ss, fresh).nodes[i] == existing[i],
    decreases ss.len(),
{
    if ss.len() > 0 {
        lemma_insert_keeps(existing, ss.drop_last(), fresh);
    }
}

/// A scan never removes a node: every stored node is still there, at the
/// same position, with the same identifier and path (only its parent link,
/// boot entry and status may change), and new nodes come after them.
pub proof fn scan_keeps_every_node(
    existing: Seq<NodeV>,
    present: Seq<bool>,
    ss: Seq<ScanV>,
    fresh: Seq<Seq<char>>,
)
    ensures
        final_nodes(existing, present, ss, fresh).len() >= existing.len(),
        forall|i: int|
            0 <= i < existing.len() ==> (#[trigger] final_nodes(existing, present, ss, fresh)[i]).id
                == existing[i].id && final_nodes(existing, present, ss, fresh)[i].path == existing[i].path,
{
    let m0 = insert_phase(existing, ss, fresh).nodes;
    lemma_insert_keeps(existing, ss, fresh);
    lemma_link_phase_same(m0, ss);
    let f = final_nodes(existing, present, ss, fresh);
    assert forall|i: int| 0 <= i < existing.len() implies (#[trigger] f[i]).id == existing[i].id
        && f[i].path == existing[i].path by {
        assert(m0[i] == existing[i]);
    }
}

/// Scanning twice with nothing changed on storage or in the boot manager
/// (the scans being well formed, as [`distinct_scans`] makes them):
/// the second scan inserts no node and writes no import record, relinks
/// nothing, records no entry, and leaves every node (and so every status)
/// as the first scan left it.
pub proof fn scan_idempotent(
    existing: Seq<NodeV>,
    present: Seq<bool>,
    ss: Seq<ScanV>,
    fresh: Seq<Seq<char>>,
    fresh2: Seq<Seq<char>>,
)
    requires
        present.len() == existing.len(),
        fresh.len() == ss.len(),
        fresh2.len() == ss.len(),
        scan_well_formed(ss),
    ensures
        ({
            let first = final_nodes(existing, present, ss, fresh);
            let ins = insert_phase(first, ss, fresh2);
            let lnk = link_phase(ins.nodes, ss);
            &&& ins.added.len() == 0
            &&& lnk.parent_updates.len() == 0
            &&& lnk.bcd_updates.len() == 0
            &&& final_nodes(first, presence(present, first.len()), ss, fresh2) == first
        }),
{
    let m0 = insert_phase(existing, ss, fresh).nodes;
    let m1 = link_phase(m0, ss).nodes;
    let pr = presence(present, m1.len());
    let first = final_nodes(existing, present, ss, fresh);
    lemma_link_phase_same(m0, ss);
    assert(same_links(m1, first));
    assert(same_keys_ids(m0, first));
    assert forall|k: int| 0 <= k < ss.len() implies index_of_key(first, (#[trigger] ss[k]).key) >= 0 by {
        lemma_insert_present(existing, ss, fresh, k);
        lemma_index_same(m0, first, ss[k].key);
    }
    lemma_insert_noop(first, ss, fresh2);
    assert forall|k: int|
        0 <= k < ss.len() && index_of_key(first, (#[trigger] ss[k]).key) >= 0 implies first[index_of_key(
            first,
            ss[k].key,
        )].parent == target_parent(first, ss[k]) && (ss[k].guid matches Some(g) ==> first[index_of_key(
            first,
            ss[k].key,
        )].guid == Some(g) && first[index_of_key(first, ss[k].key)].ready) by {
        lemma_index_same(m0, first, ss[k].key);
        lemma_index_found(m0, ss[k].key);
        lemma_link_phase_effect(m0, ss, k);
        lemma_target_same(m0, first, ss[k]);
    }
    lemma_link_noop(first, ss);
    let pr2 = presence(present, first.len());
    assert(pr2 == pr);
    let second = final_nodes(first, pr2, ss, fresh2);
    assert forall|i: int| 0 <= i < first.len() implies second[i] == first[i] by {
        lemma_status_same(first, m1, pr, ss, i);
    }
    assert(second =~= first);
}

/// A node the scan leaves `Normal` has its file present and, when it has a
/// stored parent, that parent is the node whose path has the key of the
/// parent reference recorded inside the disk (identifiers being unique).
pub proof fn normal_status_is_consistent(
    existing: Seq<NodeV>,
    present: Seq<bool>,
    ss: Seq<ScanV>,
    fresh: Seq<Seq<char>>,
    i: int,
)
    requires
        present.len() == existing.len(),
        fresh.len() == ss.len(),
        0 <= i < final_nodes(existing, present, ss, fresh).len(),
        final_nodes(existing, present, ss, fresh)[i].status == NodeStatus::Normal,
        forall|a: int, b: int|
            0 <= a < b < final_nodes(existing, present, ss, fresh).len() ==> (#[trigger] final_nodes(
                existing,
                present,
                ss,
                fresh,
            )[a]).id != (#[trigger] final_nodes(existing, present, ss, fresh)[b]).id,
    ensures
        ({
            let f = final_nodes(existing, present, ss, fresh);
            &&& presence(present, f.len())[i]
            &&& (f[i].parent matches Some(pid) ==> ss[scan_index(ss, key_of(f[i]))].parent_key matches Some(
                p,
            ) && forall|j: int| 0 <= j < f.len() && (#[trigger] f[j]).id == pid ==> key_of(f[j]) == p)
        }),
{
    let m = merged(existing, ss, fresh);
    let f = final_nodes(existing, present, ss, fresh);
    let pr = presence(present, m.len());
    assert(f[i] == with_status(m[i], status_of(m, pr, ss, i)));
    let k = scan_index(ss, key_of(m[i]));
    if f[i].parent is Some {
        let pid = f[i].parent.unwrap();
        let p = ss[k].parent_key.unwrap();
        let j0 = index_of_key(m, p);
        lemma_index_found(m, p);
        assert(f[j0] == with_status(m[j0], status_of(m, pr, ss, j0)));
        assert forall|j: int| 0 <= j < f.len() && (#[trigger] f[j]).id == pid implies key_of(f[j]) == p by {
            if j != j0 {
                if j < j0 {
                    assert(f[j].id != f[j0].id);
                } else {
                    assert(f[j0].id != f[j].id);
                }
            }
        }
    }
}

// ---------------------------------------------------------------------------
// The merge
pub open spec fn views(ns: Seq<Node>) -> Seq<NodeV> {
    ns.map_values(|n: Node| n@)
}

pub open spec fn scan_views(ss: Seq<ScannedVhd>) -> Seq<ScanV> {
    ss.map_values(|s: ScannedVhd| s@)
}

pub open spec fn str_views(ss: Seq<String>) -> Seq<Seq<char>> {
    ss.map_values(|s: String| s@)
}

fn opt_eq(a: &Option<String>, b: &Option<String>) -> (r: bool)
    ensures
        r == (opt_view(*a) == opt_view(*b)),
{
    match (a, b) {
        (Some(x), Some(y)) => str_eq(x, y),
        (None, None) => true,
        _ => false,
    }
}

fn copy_node(n: &Node) -> (r: Node)
    ensures
        r@ == n@,
{
    Node {
        id: copy(n.id.as_str()),
        parent_id: copy_opt(&n.parent_id),
        name: copy(n.name.as_str()),
        path: copy(n.path.as_str()),
        bcd_guid: copy_opt(&n.bcd_guid),
        desc: copy_opt(&n.desc),
        created_at: n.created_at,
        status: n.status,
        boot_files_ready: n.boot_files_ready,
    }
}

fn find_key(ns: &Vec<Node>, key: &String) -> (r: Option<usize>)
    ensures
        match r {
            Some(i) => index_of_key(views(ns@), key@) == i as int && i < ns.len(),
            None => index_of_key(views(ns@), key@) == -1,
        },
{
    let ghost v = views(ns@);
    let mut i: usize = ns.len();
    assert(v.subrange(0, i as int) =~= v);
    while i > 0
        invariant
            i <= ns.len(),
            v == views(ns@),
            index_of_key(v, key@) == index_of_key(v.subrange(0, i as int), key@),
        decreases i,
    {
        let ghost cur = v.subrange(0, i as int);
        assert(cur.drop_last() =~= v.subrange(0, i - 1));
        assert(cur.last() == ns@[i - 1]@);
        let k = normalize_path(ns[i - 1].path.as_str());
        if str_eq(k.as_str(), key.as_str()) {
            return Some(i - 1);
        }
        i = i - 1;
    }
    None
}

fn find_scan(ss: &Vec<ScannedVhd>, key: &String) -> (r: Option<usize>)
    ensures
        match r {
            Some(k) => scan_index(scan_views(ss@), key@) == k as int && k < ss.len(),
            None => scan_index(scan_views(ss@), key@) == -1,
        },
{
    let ghost v = scan_views(ss@);
    let mut i: usize = ss.len();
    assert(v.subrange(0, i as int) =~= v);
    while i > 0
        invariant
            i <= ss.len(),
            v == scan_views(ss@),
            scan_index(v, key@) == scan_index(v.subrange(0, i as int), key@),
        decreases i,
    {
        let ghost cur = v.subrange(0, i as int);
        assert(cur.drop_last() =~= v.subrange(0, i - 1));
        assert(cur.last() == ss@[i - 1]@);
        if str_eq(ss[i - 1].normalized.as_str(), key.as_str()) {
            return Some(i - 1);
        }
        i = i - 1;
    }
    None
}

fn import_record(op_id: &String, node_id: &String, path: &String) -> (r: OpRecord)
    ensures
        r.id@ == op_id@,
        opt_view(r.node_id) == Some(node_id@),
        r.action@ == "import_vhdx"@,
        r.result@ == "ok"@,
        r.detail@ == "path="@ + path@,
{
    let mut d: Vec<char> = Vec::new();
    push_str(&mut d, "path=");
    push_str(&mut d, path.as_str());
    OpRecord {
        id: copy(op_id.as_str()),
        node_id: Some(copy(node_id.as_str())),
        action: "import_vhdx".to_owned(),
        result: "ok".to_owned(),
        detail: string_of(&d),
    }
}

fn insert_new(
    existing: &Vec<Node>,
    scanned: &Vec<ScannedVhd>,
    fresh: &Vec<String>,
    op_ids: &Vec<String>,
) -> (r: (Vec<Node>, Vec<(Node, OpRecord)>))
    requires
        fresh.len() == scanned.len(),
        op_ids.len() == scanned.len(),
    ensures
        views(r.0@) == insert_phase(views(existing@), scan_views(scanned@), str_views(fresh@)).nodes,
        r.1@.map_values(|p: (Node, OpRecord)| p.0@) == insert_phase(
            views(existing@),
            scan_views(scanned@),
            str_views(fresh@),
        ).added,
        forall|j: int|
            0 <= j < r.1.len() ==> opt_view(#[trigger] r.1@[j].1.node_id) == Some(r.1@[j].0.id@)
                && r.1@[j].1.action@ == "import_vhdx"@ && r.1@[j].1.result@ == "ok"@
                && r.1@[j].1.detail@ == "path="@ + r.1@[j].0.path@,
{
    let ghost e = views(existing@);
    let ghost sv = scan_views(scanned@);
    let ghost fv = str_views(fresh@);
    let mut ns: Vec<Node> = Vec::new();
    let mut i: usize = 0;
    while i < existing.len()
        invariant
            i <= existing.len(),
            e == views(existing@),
            views(ns@) == e.subrange(0, i as int),
        decreases existing.len() - i,
    {
        let ghost v0 = views(ns@);
        let c = copy_node(&existing[i]);
        assert(c@ == e[i as int]);
        ns.push(c);
        i = i + 1;
        assert(views(ns@) =~= v0.push(c@));
        assert(e.subrange(0, i as int) =~= e.subrange(0, i - 1).push(e[i - 1]));
    }
    assert(e.subrange(0, existing.len() as int) =~= e);
    let mut added: Vec<(Node, OpRecord)> = Vec::new();
    let mut k: usize = 0;
    assert(sv.subrange(0, 0) =~= Seq::<ScanV>::empty());
    assert(added@.map_values(|p: (Node, OpRecord)| p.0@) =~= Seq::<NodeV>::empty());
    while k < scanned.len()
        invariant
            k <= scanned.len(),
            fresh.len() == scanned.len(),
            op_ids.len() == scanned.len(),
            e == views(existing@),
            sv == scan_views(scanned@),
            fv == str_views(fresh@),
            views(ns@) == insert_phase(e, sv.subrange(0, k as int), fv).nodes,
            added@.map_values(|p: (Node, OpRecord)| p.0@) == insert_phase(e, sv.subrange(0, k as int), fv).added,
            forall|j: int|
                0 <= j < added.len() ==> opt_view(#[trigger] added@[j].1.node_id) == Some(added@[j].0.id@)
                    && added@[j].1.action@ == "import_vhdx"@ && added@[j].1.result@ == "ok"@
                    && added@[j].1.detail@ == "path="@ + added@[j].0.path@,
        decreases scanned.len() - k,
    {
        let ghost nxt = sv.subrange(0, k + 1);
        assert(nxt.drop_last() =~= sv.subrange(0, k as int));
        assert(nxt.last() == scanned@[k as int]@);
        let s = &scanned[k];
        match find_key(&ns, &s.normalized) {
            Some(_) => {},
            None => {
                let node = Node {
                    id: copy(fresh[k].as_str()),
                    parent_id: None,
                    name: derive_name_from_path(s.path.as_str()),
                    path: copy(s.path.as_str()),
                    bcd_guid: copy_opt(&s.bcd_guid),
                    desc: None,
                    created_at: s.created_at,
                    status: NodeStatus::Normal,
                    boot_files_ready: s.bcd_guid.is_some(),
                };
                assert(node@ == new_node(nxt.last(), fv[nxt.len() - 1]));
                let op = import_record(&op_ids[k], &node.id, &node.path);
                let ghost a0 = added@.map_values(|p: (Node, OpRecord)| p.0@);
                let ghost v0 = views(ns@);
                ns.push(copy_node(&node));
                added.push((node, op));
                assert(views(ns@) =~= v0.push(node@));
                assert(added@.map_values(|p: (Node, OpRecord)| p.0@) =~= a0.push(node@));
            },
        }
        k = k + 1;
    }
    assert(sv.subrange(0, scanned.len() as int) =~= sv);
    (ns, added)
}

fn target_of(ns: &Vec<Node>, s: &ScannedVhd) -> (r: Option<String>)
    ensures
        opt_view(r) == target_parent(views(ns@), s@),
{
    match &s.parent_normalized {
        Some(p) => match find_key(ns, p) {
            Some(j) => Some(copy(ns[j].id.as_str())),
            None => None,
        },
        None => None,
    }
}

fn link_one(
    ns: &mut Vec<Node>,
    parent_updates: &mut Vec<(String, Option<String>)>,
    bcd_updates: &mut Vec<(String, String)>,
    s: &ScannedVhd,
)
    ensures
        ({
            let st = link_step(
                Linked {
                    nodes: views(old(ns)@),
                    parent_updates: old(parent_updates)@.map_values(
                        |u: (String, Option<String>)| (u.0@, opt_view(u.1)),
                    ),
                    bcd_updates: old(bcd_updates)@.map_values(|u: (String, String)| (u.0@, u.1@)),
                },
                s@,
            );
            &&& views(final(ns)@) == st.nodes
            &&& final(parent_updates)@.map_values(|u: (String, Option<String>)| (u.0@, opt_view(u.1)))
                == st.parent_updates
            &&& final(bcd_updates)@.map_values(|u: (String, String)| (u.0@, u.1@)) == st.bcd_updates
        }),
{
    let ghost v0 = views(ns@);
    let ghost pu0 = parent_updates@.map_values(|u: (String, Option<String>)| (u.0@, opt_view(u.1)));
    let ghost bu0 = bcd_updates@.map_values(|u: (String, String)| (u.0@, u.1@));
    let i = match find_key(ns, &s.normalized) {
        Some(i) => i,
        None => {
            return ;
        },
    };
    let t = target_of(ns, s);
    let mut n = copy_node(&ns[i]);
    assert(n@ == v0[i as int]);
    if !opt_eq(&n.parent_id, &t) {
        parent_updates.push((copy(n.id.as_str()), copy_opt(&t)));
        n.parent_id = t;
        assert(parent_updates@.map_values(|u: (String, Option<String>)| (u.0@, opt_view(u.1))) =~= pu0.push(
            (v0[i as int].id, target_parent(v0, s@)),
        ));
    }
    let ghost n1 = n@;
    match &s.bcd_guid {
        Some(g) => {
            let want = Some(copy(g.as_str()));
            if !opt_eq(&n.bcd_guid, &want) || !n.boot_files_ready {
                bcd_updates.push((copy(n.id.as_str()), copy(g.as_str())));
                n.bcd_guid = want;
                n.boot_files_ready = true;
                assert(bcd_updates@.map_values(|u: (String, String)| (u.0@, u.1@)) =~= bu0.push(
                    (v0[i as int].id, g@),
                ));
                assert(n@ == rebound(n1, g@));
            }
        },
        None => {},
    }
    ns.set(i, n);
    assert(views(ns@) =~= link_step(Linked { nodes: v0, parent_updates: pu0, bcd_updates: bu0 }, s@).nodes);
}

fn status_at(ns: &Vec<Node>, present: bool, scanned: &Vec<ScannedVhd>, i: usize, ghost_present: Ghost<Seq<bool>>) -> (r: NodeStatus)
    requires
        i < ns.len(),
        ghost_present@.len() == ns.len(),
        ghost_present@[i as int] == present,
    ensures
        r == status_of(views(ns@), ghost_present@, scan_views(scanned@), i as int),
{
    let ghost v = views(ns@);
    assert(v[i as int] == ns@[i as int]@);
    if !present {
        return NodeStatus::MissingFile;
    }
    let key = normalize_path(ns[i].path.as_str());
    let k = match find_scan(scanned, &key) {
        Some(k) => k,
        None => {
            return if ns[i].parent_id.is_some() {
                NodeStatus::MissingParent
            } else {
                NodeStatus::Normal
            };
        },
    };
    assert(scan_views(scanned@)[k as int] == scanned@[k as int]@);
    if !scanned[k].detail_ok {
        return NodeStatus::Error;
    }
    match &scanned[k].parent_normalized {
        Some(p) => match find_key(ns, p) {
            Some(j) => {
                assert(v[j as int] == ns@[j as int]@);
                let pid = Some(copy(ns[j].id.as_str()));
                if opt_eq(&ns[i].parent_id, &pid) {
                    NodeStatus::Normal
                } else {
                    NodeStatus::MissingParent
                }
            },
            None => NodeStatus::MissingParent,
        },
        None => if ns[i].parent_id.is_some() {
            NodeStatus::MissingParent
        } else {
            NodeStatus::Normal
        },
    }
}

/// Merges the scanned files into the stored nodes.  `present[i]` says
/// whether the file of `existing[i]` still exists; `fresh[k]` is the
/// identifier for the `k`-th file should it need a new node, and `op_ids[k]`
/// that of its import record.
pub fn reconcile(
    existing: &Vec<Node>,
    present: &Vec<bool>,
    scanned: &Vec<ScannedVhd>,
    fresh: &Vec<String>,
    op_ids: &Vec<String>,
) -> (r: ScanOutcome)
    requires
        present.len() == existing.len(),
        fresh.len() == scanned.len(),
        op_ids.len() == scanned.len(),
    ensures
        views(r.nodes@) == final_nodes(views(existing@), present@, scan_views(scanned@), str_views(fresh@)),
        r.inserted@.map_values(|p: (Node, OpRecord)| p.0@) == insert_phase(
            views(existing@),
            scan_views(scanned@),
            str_views(fresh@),
        ).added,
        forall|j: int|
            0 <= j < r.inserted.len() ==> opt_view(#[trigger] r.inserted@[j].1.node_id) == Some(
                r.inserted@[j].0.id@,
            ) && r.inserted@[j].1.action@ == "import_vhdx"@ && r.inserted@[j].1.result@ == "ok"@
                && r.inserted@[j].1.detail@ == "path="@ + r.inserted@[j].0.path@,
        r.parent_updates@.map_values(|u: (String, Option<String>)| (u.0@, opt_view(u.1))) == link_phase(
            insert_phase(views(existing@), scan_views(scanned@), str_views(fresh@)).nodes,
            scan_views(scanned@),
        ).parent_updates,
        r.bcd_updates@.map_values(|u: (String, String)| (u.0@, u.1@)) == link_phase(
            insert_phase(views(existing@), scan_views(scanned@), str_views(fresh@)).nodes,
            scan_views(scanned@),
        ).bcd_updates,
        r.statuses.len() == r.nodes.len(),
        forall|i: int|
            0 <= i < r.nodes.len() ==> (#[trigger] r.statuses@[i]).0@ == r.nodes@[i].id@
                && r.statuses@[i].1 == r.nodes@[i].status,
{
    let (mut ns, inserted) = insert_new(existing, scanned, fresh, op_ids);
    let ghost sv = scan_views(scanned@);
    let ghost base = views(ns@);
    let mut parent_updates: Vec<(String, Option<String>)> = Vec::new();
    let mut bcd_updates: Vec<(String, String)> = Vec::new();
    let mut k: usize = 0;
    assert(parent_updates@.map_values(|u: (String, Option<String>)| (u.0@, opt_view(u.1)))
        =~= Seq::<(Seq<char>, Option<Seq<char>>)>::empty());
    assert(bcd_updates@.map_values(|u: (String, String)| (u.0@, u.1@)) =~= Seq::<(Seq<char>, Seq<char>)>::empty());
    assert(sv.subrange(0, 0) =~= Seq::<ScanV>::empty());
    while k < scanned.len()
        invariant
            k <= scanned.len(),
            sv == scan_views(scanned@),
            ({
                let st = link_phase(base, sv.subrange(0, k as int));
                &&& views(ns@) == st.nodes
                &&& parent_updates@.map_values(|u: (String, Option<String>)| (u.0@, opt_view(u.1)))
                    == st.parent_updates
                &&& bcd_updates@.map_values(|u: (String, String)| (u.0@, u.1@)) == st.bcd_updates
            }),
        decreases scanned.len() - k,
    {
        let ghost nxt = sv.subrange(0, k + 1);
        assert(nxt.drop_last() =~= sv.subrange(0, k as int));
        assert(nxt.last() == scanned@[k as int]@);
        link_one(&mut ns, &mut parent_updates, &mut bcd_updates, &scanned[k]);
        k = k + 1;
    }
    assert(sv.subrange(0, scanned.len() as int) =~= sv);
    let ghost m = views(ns@);
    let ghost pr = presence(present@, m.len());
    let mut nodes: Vec<Node> = Vec::new();
    let mut statuses: Vec<(String, NodeStatus)> = Vec::new();
    let mut i: usize = 0;
    while i < ns.len()
        invariant
            i <= ns.len(),
            m == views(ns@),
            pr == presence(present@, m.len()),
            present.len() == existing.len(),
            sv == scan_views(scanned@),
            nodes.len() == i,
            statuses.len() == i,
            forall|j: int| 0 <= j < i ==> #[trigger] nodes@[j]@ == with_status(m[j], status_of(m, pr, sv, j)),
            forall|j: int|
                0 <= j < i ==> (#[trigger] statuses@[j]).0@ == nodes@[j].id@ && statuses@[j].1
                    == nodes@[j].status,
        decreases ns.len() - i,
    {
        let p = if i < present.len() {
            present[i]
        } else {
            true
        };
        let st = status_at(&ns, p, scanned, i, Ghost(pr));
        let mut n = copy_node(&ns[i]);
        n.status = st;
        statuses.push((copy(n.id.as_str()), st));
        nodes.push(n);
        i = i + 1;
    }
    let ghost fin = final_nodes(views(existing@), present@, sv, str_views(fresh@));
    assert(views(nodes@) =~= fin);
    ScanOutcome { nodes, inserted, parent_updates, bcd_updates, statuses }
}

fn copy_scan(s: &ScannedVhd) -> (r: ScannedVhd)
    ensures
        r@ == s@,
{
    ScannedVhd {
        path: copy(s.path.as_str()),
        normalized: copy(s.normalized.as_str()),
        parent_normalized: copy_opt(&s.parent_normalized),
        detail_ok: s.detail_ok,
        created_at: s.created_at,
        bcd_guid: copy_opt(&s.bcd_guid),
    }
}

/// Some scanned file has the view `x`.
pub open spec fn comes_from(ss: Seq<ScannedVhd>, x: ScanV) -> bool {
    exists|k: int| 0 <= k < ss.len() && ss[k]@ == x
}

/// Some scanned file has the key `key`.
pub open spec fn has_key(ss: Seq<ScannedVhd>, key: Seq<char>) -> bool {
    exists|j: int| 0 <= j < ss.len() && ss[j]@.key == key
}

/// The scanned files with at most one per key: the first file seen under
/// each key is kept (and only files whose key is that of their path), in
/// order.  The result is what the merge's laws ask of their input.
pub fn distinct_scans(scanned: &Vec<ScannedVhd>) -> (r: Vec<ScannedVhd>)
    ensures
        scan_well_formed(scan_views(r@)),
        r.len() <= scanned.len(),
        forall|j: int| 0 <= j < r.len() ==> #[trigger] comes_from(scanned@, r@[j]@),
        forall|k: int|
            0 <= k < scanned.len() && scanned@[k]@.key == normalize(scanned@[k]@.path) ==> #[trigger] has_key(
                r@,
                scanned@[k]@.key,
            ),
{
    let mut out: Vec<ScannedVhd> = Vec::new();
    let mut k: usize = 0;
    while k < scanned.len()
        invariant
            k <= scanned.len(),
            out.len() <= k,
            scan_well_formed(scan_views(out@)),
            forall|j: int| 0 <= j < out.len() ==> #[trigger] comes_from(scanned@, out@[j]@),
            forall|i: int|
                0 <= i < k && scanned@[i]@.key == normalize(scanned@[i]@.path) ==> #[trigger] has_key(
                    out@,
                    scanned@[i]@.key,
                ),
        decreases scanned.len() - k,
    {
        let s = &scanned[k];
        let own = normalize_path(s.path.as_str());
        if str_eq(own.as_str(), s.normalized.as_str()) {
            let mut seen = false;
            let mut j: usize = 0;
            while j < out.len()
                invariant
                    j <= out.len(),
                    !seen ==> forall|t: int| 0 <= t < j ==> out@[t]@.key != s@.key,
                    seen ==> has_key(out@, s@.key),
                decreases out.len() - j,
            {
                if str_eq(out[j].normalized.as_str(), s.normalized.as_str()) {
                    assert(out@[j as int]@.key == s@.key);
                    seen = true;
                }
                j = j + 1;
            }
            if !seen {
                let ghost before = out@;
                out.push(copy_scan(s));
                proof {
                    let v = scan_views(out@);
                    assert forall|a: int| 0 <= a < v.len() implies (#[trigger] v[a]).key == normalize(v[a].path) by {
                        if a < before.len() {
                            assert(v[a] == scan_views(before)[a]);
                        }
                    }
                    assert forall|a: int, b: int| 0 <= a < b < v.len() implies (#[trigger] v[a]).key != (#[trigger] v[b]).key by {
                        assert(v[a] == out@[a]@);
                        assert(v[b] == out@[b]@);
                        if b < before.len() {
                            assert(scan_views(before)[a] == v[a] && scan_views(before)[b] == v[b]);
                        } else {
                            assert(out@[a] == before[a]);
                            assert(before[a]@.key != s@.key);
                        }
                    }
                    assert forall|j2: int| 0 <= j2 < out.len() implies #[trigger] comes_from(scanned@, out@[j2]@) by {
                        if j2 == before.len() {
                            assert(scanned@[k as int]@ == out@[j2]@);
                        } else {
                            assert(out@[j2] == before[j2]);
                            assert(comes_from(scanned@, before[j2]@));
                        }
                    }
                    assert forall|i: int|
                        0 <= i < k + 1 && scanned@[i]@.key == normalize(scanned@[i]@.path) implies #[trigger] has_key(
                            out@,
                            scanned@[i]@.key,
                        ) by {
                        if i == k {
                            assert(out@[before.len() as int]@.key == scanned@[i]@.key);
                        } else {
                            assert(has_key(before, scanned@[i]@.key));
                            let w = choose|w: int| 0 <= w < before.len() && before[w]@.key == scanned@[i]@.key;
                            assert(out@[w] == before[w]);
                        }
                    }
                }
            }
        }
        k = k + 1;
    }
    out
}

} // verus!
