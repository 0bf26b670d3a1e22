//! The decisions of the operations that provision a disk and bind it to a
//! boot entry.  Each operation is a step machine: it names the next external
//! action, and the caller performs it and hands back what came of it.
use vstd::prelude::*;
use crate::bcd::{bcdedit_enum_all, bcdedit_set_description, run_bcdboot};
use crate::diskpart::{
    assign_partitions_script, assign_text, attach_list_text, attach_list_vdisk_script,
    base_diskpart_script, base_script_text, detach_text, detach_vdisk_script, diff_attach_list_script,
    diff_script_text, parse_list_partition, partitions_of,
};
use crate::dism::apply_image;
use crate::letters::{first_free_from, pick_free_letter, pick_two_letters, reserved_letter};
use crate::models::{AppError, CommandOutput, Invocation, Node, NodeStatus};
use crate::paths::{join, join_path, AppPaths};
use crate::text::{chars_of, copy, copy_opt, lines, opt_view, push_str, push_zero_padded, string_of, zero_pad};
use crate::workspace::{
    detect_efi_partition, detect_system_partition, efi_partition, resolve_guid, resolved_guid,
    system_partition, command_error,
};

verus! {

/// What the lower-case form of a text is, as `str::to_lowercase` gives it.
pub uninterp spec fn lowercase_of(s: Seq<char>) -> Seq<char>;

/// Relies on `str::to_lowercase`: Unicode lower case, a function of the text alone.
#[verifier::external_body]
fn lowercase(s: &str) -> (r: String)
    ensures
        r@ == lowercase_of(s@),
{
    s.to_lowercase()
}

/// Relies on `uuid::Uuid::new_v4` and its hyphenated lower-case form: a
/// random identifier of 36 characters.
#[verifier::external_body]
pub fn new_id() -> (r: String)
    ensures
        r@.len() == 36,
{
    uuid::Uuid::new_v4().to_string()
}

/// An entry of the append-only audit log.
#[derive(Debug, Clone)]
pub struct OpRecord {
    pub id: String,
    pub node_id: Option<String>,
    pub action: String,
    pub result: String,
    pub detail: String,
}

/// Which operation a machine performs.
#[derive(Debug, Clone, Copy, PartialEq, Eq, Structural)]
pub enum ProvisionKind {
    Base,
    Diff,
    Repair,
}

/// Where a machine stands: the action it last asked for.
#[derive(Debug, Clone, Copy, PartialEq, Eq, Structural)]
pub enum Phase {
    /// The script that creates (or attaches) the disk.
    Create,
    /// The deployment of the OS image.
    Apply,
    /// The script that assigns letters to the detected partitions.
    Assign,
    /// The installation of boot files.
    InstallBoot,
    /// The enumeration of boot entries.
    Enumerate,
    /// The setting of the entry's description.
    Describe,
    /// The script that removes the letters and detaches the disk.
    Detach,
    /// Nothing more to do.
    Finished,
}

/// What came of the last action.
#[derive(Debug)]
pub enum Event {
    /// The command ran; here is its output.
    Output(CommandOutput),
    /// The command could not be run at all.
    Failed(AppError),
}

/// What was achieved, to be recorded in the store.
#[derive(Debug)]
pub enum Outcome {
    /// A new node, with its audit record.
    Created(Node, OpRecord),
    /// The boot entry found for an existing node (if any), with its audit record.
    Repaired { node_id: String, guid: Option<String>, op: OpRecord },
}

/// The next thing to do.
#[derive(Debug)]
pub enum Action {
    /// Write `script` to the file at `path`, run the partitioning tool on it
    /// (elevated), and report the output.
    RunScript { path: String, script: String },
    /// Run the command and report its output.
    Run(Invocation),
    /// Record the outcome; the operation succeeded.
    Finish(Outcome),
    /// The operation failed; nothing is to be recorded.
    Fail(AppError),
}

pub open spec fn event_ok(ev: Event) -> bool {
    ev matches Event::Output(o) && o.succeeded()
}

/// A provisioning operation in progress.
pub struct Provision {
    pub kind: ProvisionKind,
    pub phase: Phase,
    /// The node created (base, diff) or repaired.
    pub node_id: String,
    pub parent_id: Option<String>,
    pub name: String,
    pub desc: Option<String>,
    pub vhd_path: String,
    pub image_file: String,
    pub image_index: u32,
    pub efi_letter: char,
    pub sys_letter: char,
    /// Where scripts are written.
    pub tmp_dir: String,
    /// The description to give the boot entry (repair only).
    pub description: Option<String>,
    /// The boot entry found once boot entries were enumerated.
    pub guid: Option<String>,
    /// When the node is recorded as created (milliseconds since the Unix epoch).
    pub created_at: i64,
}

/// Everything a machine was set up with stays as it was; only the phase and
/// the boot entry found change as it runs.
pub open spec fn same_setup(a: Provision, b: Provision) -> bool {
    &&& a.kind == b.kind
    &&& a.node_id == b.node_id
    &&& a.parent_id == b.parent_id
    &&& a.name == b.name
    &&& a.desc == b.desc
    &&& a.vhd_path == b.vhd_path
    &&& a.image_file == b.image_file
    &&& a.image_index == b.image_index
    &&& a.efi_letter == b.efi_letter
    &&& a.sys_letter == b.sys_letter
    &&& a.tmp_dir == b.tmp_dir
    &&& a.description == b.description
    &&& a.created_at == b.created_at
}

/// The file name of a new disk: the zero-padded sequence number, a dash,
/// the lower-case name and the `.vhdx` extension.
pub open spec fn disk_file_name(seq: u64, name: Seq<char>) -> Seq<char> {
    zero_pad(seq as nat, 4) + seq!['-'] + lowercase_of(name) + ".vhdx"@
}

pub open spec fn script_path(tmp: Seq<char>, file: Seq<char>) -> Seq<char> {
    join(tmp, file)
}

/// The file name of a new disk whose name, in lower case, is `lower_name`:
/// the sequence number padded with zeros to four digits, a dash, the name
/// and the `.vhdx` extension.
pub fn disk_file_for(seq: u64, lower_name: &str) -> (r: String)
    ensures
        r@ == zero_pad(seq as nat, 4) + seq!['-'] + lower_name@ + ".vhdx"@,
{
    let mut t: Vec<char> = Vec::new();
    push_zero_padded(&mut t, seq, 4);
    t.push('-');
    push_str(&mut t, lower_name);
    push_str(&mut t, ".vhdx");
    assert(t@ =~= zero_pad(seq as nat, 4) + seq!['-'] + lower_name@ + ".vhdx"@);
    string_of(&t)
}

fn disk_file(seq: u64, name: &str) -> (r: String)
    ensures
        r@ == disk_file_name(seq, name@),
{
    let lower = lowercase(name);
    disk_file_for(seq, lower.as_str())
}

fn mount_point(letter: char, suffix: &str) -> (r: String)
    ensures
        r@ == seq![letter] + suffix@,
{
    let mut t: Vec<char> = Vec::new();
    t.push(letter);
    push_str(&mut t, suffix);
    assert(t@ =~= seq![letter] + suffix@);
    string_of(&t)
}

impl Provision {
    pub open spec fn letters(&self) -> Seq<char> {
        if self.kind == ProvisionKind::Repair {
            seq![self.sys_letter]
        } else {
            seq![self.efi_letter, self.sys_letter]
        }
    }

    /// Starts the creation of a base disk named `name` of `size_gb`
    /// gigabytes, deploying image `image_index` of `image_file`; `seq` is the
    /// next sequence number, `created_at` the time to record for the node and
    /// `drive_mask` the host's drives in use.  Fails with `NoFreeLetter`
    /// exactly when two letters of S..Z are not free, and succeeds otherwise.
    pub fn create_base(
        name: &str,
        desc: Option<String>,
        image_file: &str,
        image_index: u32,
        size_gb: u64,
        seq: u64,
        created_at: i64,
        paths: &AppPaths,
        drive_mask: u32,
    ) -> (r: Result<(Provision, Action), AppError>)
        requires
            size_gb <= u64::MAX / 1024,
        ensures
            pick_two_letters_spec(drive_mask) is None <==> r matches Err(AppError::NoFreeLetter),
            r is Err ==> r matches Err(AppError::NoFreeLetter),
            r matches Ok((m, a)) ==> {
                let path = join(join(paths.root_view(), "base"@), disk_file_name(seq, name@));
                &&& pick_two_letters_spec(drive_mask) == Some((m.efi_letter, m.sys_letter))
                &&& m.kind == ProvisionKind::Base
                &&& m.phase == Phase::Create
                &&& m.created_at == created_at
                &&& m.guid is None
                &&& m.vhd_path@ == path
                &&& m.name@ == name@
                &&& opt_view(m.desc) == opt_view(desc)
                &&& m.parent_id is None
                &&& m.image_file@ == image_file@
                &&& m.image_index == image_index
                &&& m.node_id@.len() == 36
                &&& m.tmp_dir@ == join(paths.meta_view(), "tmp"@)
                &&& a matches Action::RunScript { path: p, script: s } && p@ == script_path(
                    m.tmp_dir@,
                    "create_base.txt"@,
                ) && s@ == base_script_text(path, size_gb as nat * 1024, m.efi_letter, m.sys_letter)
            },
    {
        let (efi_letter, sys_letter) = match pick_two_letters(drive_mask) {
            Some(p) => p,
            None => {
                return Err(AppError::NoFreeLetter);
            },
        };
        let file = disk_file(seq, name);
        let vhd_path = join_path(paths.base_dir().as_str(), file.as_str());
        let tmp_dir = paths.tmp_dir();
        let script = base_diskpart_script(vhd_path.as_str(), size_gb, efi_letter, sys_letter);
        let path = join_path(tmp_dir.as_str(), "create_base.txt");
        let m = Provision {
            kind: ProvisionKind::Base,
            phase: Phase::Create,
            node_id: new_id(),
            parent_id: None,
            name: copy(name),
            desc,
            vhd_path,
            image_file: copy(image_file),
            image_index,
            efi_letter,
            sys_letter,
            tmp_dir,
            description: None,
            guid: None,
            created_at,
        };
        Ok((m, Action::RunScript { path, script }))
    }

    /// Starts the creation of a differencing disk over `parent` (as fetched
    /// from the store), to be recorded as created at `created_at`.  Fails
    /// with `NotFound` when there is no parent and with `NoFreeLetter` unless
    /// two letters of S..Z are free; succeeds otherwise.
    pub fn create_diff(
        parent: Option<Node>,
        name: &str,
        desc: Option<String>,
        seq: u64,
        created_at: i64,
        paths: &AppPaths,
        drive_mask: u32,
    ) -> (r: Result<(Provision, Action), AppError>)
        ensures
            parent is None ==> r matches Err(AppError::NotFound(_)),
            parent is Some ==> (pick_two_letters_spec(drive_mask) is None <==> r matches Err(
                AppError::NoFreeLetter,
            )),
            parent is Some && pick_two_letters_spec(drive_mask) is Some ==> r is Ok,
            r matches Ok((m, a)) ==> {
                let p = parent.unwrap();
                let path = join(join(paths.root_view(), "diff"@), disk_file_name(seq, name@));
                &&& pick_two_letters_spec(drive_mask) == Some((m.efi_letter, m.sys_letter))
                &&& m.kind == ProvisionKind::Diff
                &&& m.phase == Phase::Create
                &&& m.created_at == created_at
                &&& m.guid is None
                &&& m.vhd_path@ == path
                &&& m.name@ == name@
                &&& opt_view(m.desc) == opt_view(desc)
                &&& opt_view(m.parent_id) == Some(p.id@)
                &&& m.node_id@.len() == 36
                &&& m.tmp_dir@ == join(paths.meta_view(), "tmp"@)
                &&& a matches Action::RunScript { path: sp, script: s } && sp@ == script_path(
                    m.tmp_dir@,
                    "create_diff.txt"@,
                ) && s@ == diff_script_text(path, p.path@)
            },
    {
        let parent = match parent {
            Some(p) => p,
            None => {
                return Err(AppError::NotFound(copy("parent not found")));
            },
        };
        let (efi_letter, sys_letter) = match pick_two_letters(drive_mask) {
            Some(p) => p,
            None => {
                return Err(AppError::NoFreeLetter);
            },
        };
        let file = disk_file(seq, name);
        let vhd_path = join_path(paths.diff_dir().as_str(), file.as_str());
        let tmp_dir = paths.tmp_dir();
        let script = diff_attach_list_script(vhd_path.as_str(), parent.path.as_str());
        let path = join_path(tmp_dir.as_str(), "create_diff.txt");
        let m = Provision {
            kind: ProvisionKind::Diff,
            phase: Phase::Create,
            node_id: new_id(),
            parent_id: Some(copy(parent.id.as_str())),
            name: copy(name),
            desc,
            vhd_path,
            image_file: String::new(),
            image_index: 0,
            efi_letter,
            sys_letter,
            tmp_dir,
            description: None,
            guid: None,
            created_at,
        };
        Ok((m, Action::RunScript { path, script }))
    }

    /// Starts the re-creation of the boot entry of `node` (as fetched from
    /// the store), to be described as `description` when given.  Fails with
    /// `NotFound` when there is no node and with `NoFreeLetter` when no
    /// letter of S..Z is free; succeeds otherwise.
    pub fn repair(node: Option<Node>, description: Option<String>, paths: &AppPaths, drive_mask: u32) -> (r:
        Result<(Provision, Action), AppError>)
        ensures
            node is None ==> r matches Err(AppError::NotFound(_)),
            node is Some ==> (pick_free_letter_spec(drive_mask) is None <==> r matches Err(
                AppError::NoFreeLetter,
            )),
            node is Some && pick_free_letter_spec(drive_mask) is Some ==> r is Ok,
            r matches Ok((m, a)) ==> {
                let n = node.unwrap();
                &&& pick_free_letter_spec(drive_mask) == Some(m.sys_letter)
                &&& m.kind == ProvisionKind::Repair
                &&& m.phase == Phase::Create
                &&& m.guid is None
                &&& m.vhd_path@ == n.path@
                &&& m.node_id@ == n.id@
                &&& opt_view(m.description) == opt_view(description)
                &&& m.tmp_dir@ == join(paths.meta_view(), "tmp"@)
                &&& a matches Action::RunScript { path: sp, script: s } && sp@ == script_path(
                    m.tmp_dir@,
                    "attach_repair.txt"@,
                ) && s@ == attach_list_text(n.path@)
            },
    {
        let node = match node {
            Some(n) => n,
            None => {
                return Err(AppError::NotFound(copy("node not found")));
            },
        };
        let sys_letter = match pick_free_letter(drive_mask) {
            Some(l) => l,
            None => {
                return Err(AppError::NoFreeLetter);
            },
        };
        let tmp_dir = paths.tmp_dir();
        let script = attach_list_vdisk_script(node.path.as_str());
        let path = join_path(tmp_dir.as_str(), "attach_repair.txt");
        let m = Provision {
            kind: ProvisionKind::Repair,
            phase: Phase::Create,
            node_id: node.id,
            parent_id: None,
            name: node.name,
            desc: None,
            vhd_path: node.path,
            image_file: String::new(),
            image_index: 0,
            efi_letter: sys_letter,
            sys_letter,
            tmp_dir,
            description,
            guid: None,
            created_at: node.created_at,
        };
        Ok((m, Action::RunScript { path, script }))
    }

    fn script(&self, file: &str, script: String) -> (r: Action)
        ensures
            r matches Action::RunScript { path: p, script: s } && p@ == script_path(self.tmp_dir@, file@)
                && s@ == script@,
    {
        Action::RunScript { path: join_path(self.tmp_dir.as_str(), file), script }
    }

    fn fail_with(&mut self, e: AppError) -> (r: Action)
        ensures
            final(self).phase == Phase::Finished,
            same_setup(*old(self), *final(self)),
            final(self).guid == old(self).guid,
            r == Action::Fail(e),
    {
        self.phase = Phase::Finished;
        Action::Fail(e)
    }

    fn detach(&mut self) -> (r: Action)
        ensures
            final(self).phase == Phase::Detach,
            same_setup(*old(self), *final(self)),
            final(self).guid == old(self).guid,
            r matches Action::RunScript { path: p, script: s } && p@ == script_path(
                old(self).tmp_dir@,
                detach_file(old(self).kind),
            ) && s@ == detach_text(old(self).vhd_path@, old(self).letters()),
    {
        let letters: Vec<char> = if self.kind == ProvisionKind::Repair {
            vec![self.sys_letter]
        } else {
            vec![self.efi_letter, self.sys_letter]
        };
        assert(letters@ =~= self.letters());
        let script = detach_vdisk_script(self.vhd_path.as_str(), letters.as_slice());
        let file = match self.kind {
            ProvisionKind::Base => "detach_base.txt",
            ProvisionKind::Diff => "detach_diff.txt",
            ProvisionKind::Repair => "detach_repair.txt",
        };
        let a = self.script(file, script);
        self.phase = Phase::Detach;
        a
    }

    fn finish(&mut self) -> (r: Action)
        ensures
            final(self).phase == Phase::Finished,
            same_setup(*old(self), *final(self)),
            final(self).guid == old(self).guid,
            r matches Action::Finish(o) && outcome_matches(*old(self), o),
    {
        self.phase = Phase::Finished;
        let op_id = new_id();
        match self.kind {
            ProvisionKind::Repair => {
                let detail = match &self.description {
                    Some(d) => copy(d.as_str()),
                    None => String::new(),
                };
                let op = OpRecord {
                    id: op_id,
                    node_id: Some(copy(self.node_id.as_str())),
                    action: copy("repair_bcd"),
                    result: copy("ok"),
                    detail,
                };
                Action::Finish(
                    Outcome::Repaired { node_id: copy(self.node_id.as_str()), guid: copy_opt(&self.guid), op },
                )
            },
            _ => {
                let node = Node {
                    id: copy(self.node_id.as_str()),
                    parent_id: copy_opt(&self.parent_id),
                    name: copy(self.name.as_str()),
                    path: copy(self.vhd_path.as_str()),
                    bcd_guid: copy_opt(&self.guid),
                    desc: copy_opt(&self.desc),
                    created_at: self.created_at,
                    status: NodeStatus::Normal,
                    boot_files_ready: self.guid.is_some(),
                };
                let action = if self.kind == ProvisionKind::Base {
                    copy("create_base")
                } else {
                    copy("create_diff")
                };
                let op = OpRecord {
                    id: op_id,
                    node_id: Some(copy(self.node_id.as_str())),
                    action,
                    result: copy("ok"),
                    detail: String::new(),
                };
                Action::Finish(Outcome::Created(node, op))
            },
        }
    }

    /// Takes the result of the last action and names the next one.
    pub fn advance(&mut self, ev: Event) -> (r: Action)
        ensures
            same_setup(*old(self), *final(self)),
            old(self).phase != Phase::Enumerate ==> final(self).guid == old(self).guid,
            // a command that must succeed and did not ends the operation
            must_succeed(old(self).phase) && !event_ok(ev) ==> (r is Fail && final(self).phase
                == Phase::Finished),
            must_succeed(old(self).phase) ==> (ev matches Event::Output(o) ==> (!o.succeeded() ==> (
            r matches Action::Fail(e) && step_failure(*old(self), o, e)))),
            must_succeed(old(self).phase) ==> (ev matches Event::Failed(e) ==> r == Action::Fail(e)),
            old(self).phase == Phase::Enumerate && ev is Failed ==> r is Fail,
            old(self).phase == Phase::Finished ==> r is Fail,
            // the disk was created: deploy the image, or assign letters to
            // the detected partitions
            old(self).phase == Phase::Create && event_ok(ev) && old(self).kind == ProvisionKind::Base
                ==> (final(self).phase == Phase::Apply && (r matches Action::Run(inv)
                && inv.args_view() == apply_args(*old(self)))),
            old(self).phase == Phase::Create && event_ok(ev) && old(self).kind != ProvisionKind::Base
                ==> assigned_or_undetected(*old(self), *final(self), ev, r),
            // the system volume is ready: install boot files from it
            (old(self).phase == Phase::Apply || old(self).phase == Phase::Assign) && event_ok(ev)
                ==> (final(self).phase == Phase::InstallBoot && (r matches Action::Run(inv)
                && inv.args_view() == seq![seq![old(self).sys_letter, ':'] + "\\Windows"@, "/d"@])),
            old(self).phase == Phase::InstallBoot && event_ok(ev) ==> (final(self).phase
                == Phase::Enumerate && (r matches Action::Run(inv) && inv.args_view() == seq![
                "/enum"@,
                "all"@,
            ])),
            // the entries were listed: find the disk's entry
            old(self).phase == Phase::Enumerate ==> (ev matches Event::Output(o) ==> (opt_view(
                final(self).guid,
            ) == resolved_guid(o.stdout@, old(self).vhd_path@, old(self).sys_letter) && (
            final(self).phase == Phase::Describe || final(self).phase == Phase::Detach))),
            old(self).phase == Phase::Enumerate && ev is Output ==> enumerated(*old(self), *final(self), r),
            // describing the entry and detaching are best-effort
            old(self).phase == Phase::Describe ==> (final(self).phase == Phase::Detach && final(self).guid
                == old(self).guid && (r matches Action::RunScript { path: p, script: s } && s@
                == detach_text(old(self).vhd_path@, old(self).letters()))),
            old(self).phase == Phase::Detach ==> (final(self).phase == Phase::Finished && (
            r matches Action::Finish(o) && outcome_matches(*old(self), o))),
    {
        match self.phase {
            Phase::Finished => {
                Action::Fail(AppError::Message(copy("operation already finished")))
            },
            Phase::Detach => self.finish(),
            Phase::Describe => self.detach(),
            Phase::Enumerate => {
                match ev {
                    Event::Failed(e) => self.fail_with(e),
                    Event::Output(o) => {
                        self.guid = resolve_guid(o.stdout.as_str(), self.vhd_path.as_str(), self.sys_letter);
                        let describe = match (&self.guid, &self.description) {
                            (Some(g), Some(d)) => if self.kind == ProvisionKind::Repair {
                                Some(bcdedit_set_description(g.as_str(), d.as_str()))
                            } else {
                                None
                            },
                            _ => None,
                        };
                        match describe {
                            Some(inv) => {
                                self.phase = Phase::Describe;
                                Action::Run(inv)
                            },
                            None => self.detach(),
                        }
                    },
                }
            },
            _ => {
                let out = match ev {
                    Event::Failed(e) => {
                        return self.fail_with(e);
                    },
                    Event::Output(o) => o,
                };
                if !out.ok() {
                    let e = self.step_error(&out);
                    return self.fail_with(e);
                }
                match self.phase {
                    Phase::Create => {
                        if self.kind == ProvisionKind::Base {
                            let dir = mount_point(self.sys_letter, ":\\");
                            self.phase = Phase::Apply;
                            Action::Run(apply_image(self.image_file.as_str(), self.image_index, dir.as_str()))
                        } else {
                            self.assign(&out)
                        }
                    },
                    Phase::InstallBoot => {
                        self.phase = Phase::Enumerate;
                        bcdedit_enum_all_action()
                    },
                    _ => {
                        let dir = mount_point(self.sys_letter, ":");
                        proof {
                            reveal_strlit(":");
                        }
                        assert(dir@ =~= seq![self.sys_letter, ':']);
                        self.phase = Phase::InstallBoot;
                        Action::Run(run_bcdboot(dir.as_str()))
                    },
                }
            },
        }
    }

    fn assign(&mut self, out: &CommandOutput) -> (r: Action)
        requires
            old(self).phase == Phase::Create,
            old(self).kind != ProvisionKind::Base,
        ensures
            same_setup(*old(self), *final(self)),
            final(self).guid == old(self).guid,
            assigned_or_undetected(*old(self), *final(self), Event::Output(*out), r),
    {
        let parts = parse_list_partition(out.stdout.as_str());
        let sys = detect_system_partition(&parts);
        if self.kind == ProvisionKind::Repair {
            match sys {
                Some(s) => {
                    let a: Vec<(u32, char)> = vec![(s, self.sys_letter)];
                    assert(a@ =~= assignments(*old(self), 0, s as nat));
                    let script = assign_partitions_script(self.vhd_path.as_str(), a.as_slice());
                    let act = self.script("assign_repair.txt", script);
                    self.phase = Phase::Assign;
                    act
                },
                None => self.fail_with(
                    AppError::Detection(copy("failed to detect system partition from list partition")),
                ),
            }
        } else {
            let efi = detect_efi_partition(&parts);
            match (sys, efi) {
                (Some(s), Some(e)) => {
                    let a: Vec<(u32, char)> = vec![(e, self.efi_letter), (s, self.sys_letter)];
                    assert(a@ =~= assignments(*old(self), e as nat, s as nat));
                    let script = assign_partitions_script(self.vhd_path.as_str(), a.as_slice());
                    let act = self.script("assign_diff.txt", script);
                    self.phase = Phase::Assign;
                    act
                },
                _ => self.fail_with(
                    AppError::Detection(copy("failed to detect system/EFI partitions from list partition")),
                ),
            }
        }
    }

    fn step_error(&self, out: &CommandOutput) -> (r: AppError)
        requires
            must_succeed(self.phase),
        ensures
            step_failure(*self, *out, r),
    {
        let tmp = self.tmp_dir.as_str();
        match (self.phase, self.kind) {
            (Phase::Create, ProvisionKind::Base) => {
                let p = join_path(tmp, "create_base.txt");
                command_error("diskpart create base", out, Some(p.as_str()))
            },
            (Phase::Create, ProvisionKind::Diff) => {
                let p = join_path(tmp, "create_diff.txt");
                command_error("diskpart create diff", out, Some(p.as_str()))
            },
            (Phase::Create, ProvisionKind::Repair) => {
                let p = join_path(tmp, "attach_repair.txt");
                command_error("diskpart attach", out, Some(p.as_str()))
            },
            (Phase::Apply, _) => command_error("dism apply", out, None),
            (Phase::Assign, ProvisionKind::Repair) => {
                let p = join_path(tmp, "assign_repair.txt");
                command_error("diskpart assign", out, Some(p.as_str()))
            },
            (Phase::Assign, _) => {
                let p = join_path(tmp, "assign_diff.txt");
                command_error("diskpart assign diff", out, Some(p.as_str()))
            },
            _ => command_error("bcdboot", out, None),
        }
    }
}

fn bcdedit_enum_all_action() -> (r: Action)
    ensures
        r matches Action::Run(inv) && inv.args_view() == seq!["/enum"@, "all"@],
{
    Action::Run(bcdedit_enum_all())
}

pub open spec fn pick_two_letters_spec(mask: u32) -> Option<(char, char)> {
    if mask == 0 {
        None
    } else {
        match first_free_from(mask, 0) {
            Some(i) => match first_free_from(mask, i + 1) {
                Some(j) => Some((reserved_letter(i), reserved_letter(j))),
                None => None,
            },
            None => None,
        }
    }
}

pub open spec fn pick_free_letter_spec(mask: u32) -> Option<char> {
    if mask == 0 {
        None
    } else {
        match first_free_from(mask, 0) {
            Some(i) => Some(reserved_letter(i)),
            None => None,
        }
    }
}

/// After the listing of a created or attached disk: letters are assigned to
/// the partitions it shows in their roles, or the operation fails when a
/// role cannot be told.
pub open spec fn assigned_or_undetected(m: Provision, m2: Provision, ev: Event, r: Action) -> bool {
    match partition_roles(m, ev) {
        Some((efi, sys)) => m2.phase == Phase::Assign && (r matches Action::RunScript { path: p, script: s }
            && s@ == assign_text(m.vhd_path@, assignments(m, efi, sys))),
        None => (r matches Action::Fail(AppError::Detection(_))) && m2.phase == Phase::Finished,
    }
}

/// After the listing of boot entries: a repair that found an entry and has
/// a description to give it sets that description; otherwise the disk is
/// detached.
pub open spec fn enumerated(m: Provision, m2: Provision, r: Action) -> bool {
    if m.kind == ProvisionKind::Repair && m2.guid is Some && m.description is Some {
        m2.phase == Phase::Describe && (r matches Action::Run(inv) && inv.args_view() == seq![
            "/set"@,
            m2.guid.unwrap()@,
            "description"@,
            m.description.unwrap()@,
        ])
    } else {
        m2.phase == Phase::Detach && (r matches Action::RunScript { path: p, script: s } && p@
            == script_path(m.tmp_dir@, detach_file(m.kind)) && s@ == detach_text(m.vhd_path@, m.letters()))
    }
}

/// The tool a step runs, as named in its failure.
pub open spec fn step_name(k: ProvisionKind, p: Phase) -> Seq<char> {
    if p == Phase::Create {
        match k {
            ProvisionKind::Base => "diskpart create base"@,
            ProvisionKind::Diff => "diskpart create diff"@,
            ProvisionKind::Repair => "diskpart attach"@,
        }
    } else if p == Phase::Apply {
        "dism apply"@
    } else if p == Phase::Assign {
        if k == ProvisionKind::Repair {
            "diskpart assign"@
        } else {
            "diskpart assign diff"@
        }
    } else {
        "bcdboot"@
    }
}

/// The script file a step runs, if it runs one.
pub open spec fn step_script(k: ProvisionKind, p: Phase) -> Option<Seq<char>> {
    if p == Phase::Create {
        Some(
            match k {
                ProvisionKind::Base => "create_base.txt"@,
                ProvisionKind::Diff => "create_diff.txt"@,
                ProvisionKind::Repair => "attach_repair.txt"@,
            },
        )
    } else if p == Phase::Assign {
        Some(
            if k == ProvisionKind::Repair {
                "assign_repair.txt"@
            } else {
                "assign_diff.txt"@
            },
        )
    } else {
        None
    }
}

/// The failure of a step whose command exited otherwise than with zero:
/// the step's tool, the exit code, the script run (with its path) and what
/// the command printed.
pub open spec fn step_failure(m: Provision, out: CommandOutput, e: AppError) -> bool {
    e matches AppError::Command { name, exit_code, script, detail } && name@ == step_name(m.kind, m.phase)
        && exit_code == out.exit_code && detail@ == crate::workspace::output_detail(out)
        && opt_view(script) == match step_script(m.kind, m.phase) {
        Some(f) => Some(script_path(m.tmp_dir@, f)),
        None => None,
    }
}

/// Phases whose command must exit with code zero.
pub open spec fn must_succeed(p: Phase) -> bool {
    p == Phase::Create || p == Phase::Apply || p == Phase::Assign || p == Phase::InstallBoot
}

pub open spec fn detach_file(k: ProvisionKind) -> Seq<char> {
    match k {
        ProvisionKind::Base => "detach_base.txt"@,
        ProvisionKind::Diff => "detach_diff.txt"@,
        ProvisionKind::Repair => "detach_repair.txt"@,
    }
}

pub open spec fn apply_args(m: Provision) -> Seq<Seq<char>> {
    seq![
        "/English"@,
        "/Apply-Image"@,
        "/ImageFile:"@ + m.image_file@,
        "/Index:"@ + crate::text::dec_digits(m.image_index as nat),
        "/ApplyDir:"@ + (seq![m.sys_letter] + ":\\"@),
    ]
}

/// The (EFI, system) partitions that the listing of the created or
/// attached disk shows; a repair needs the system partition only.
pub open spec fn partition_roles(m: Provision, ev: Event) -> Option<(nat, nat)> {
    match ev {
        Event::Output(o) => {
            let ps = partitions_of(lines(o.stdout@));
            match system_partition(ps) {
                Some(sys) => if m.kind == ProvisionKind::Repair {
                    Some((0, sys))
                } else {
                    match efi_partition(ps) {
                        Some(efi) => Some((efi, sys)),
                        None => None,
                    }
                },
                None => None,
            }
        },
        Event::Failed(_) => None,
    }
}

pub open spec fn assignments(m: Provision, efi: nat, sys: nat) -> Seq<(u32, char)> {
    if m.kind == ProvisionKind::Repair {
        seq![(sys as u32, m.sys_letter)]
    } else {
        seq![(efi as u32, m.efi_letter), (sys as u32, m.sys_letter)]
    }
}

/// The record a finished machine asks to be stored.
pub open spec fn outcome_matches(m: Provision, o: Outcome) -> bool {
    match o {
        Outcome::Created(n, op) => {
            &&& m.kind != ProvisionKind::Repair
            &&& n.id@ == m.node_id@
            &&& opt_view(n.parent_id) == opt_view(m.parent_id)
            &&& n.name@ == m.name@
            &&& n.path@ == m.vhd_path@
            &&& opt_view(n.bcd_guid) == opt_view(m.guid)
            &&& opt_view(n.desc) == opt_view(m.desc)
            &&& n.status == NodeStatus::Normal
            &&& n.created_at == m.created_at
            &&& n.boot_files_ready == (m.guid is Some)
            &&& opt_view(op.node_id) == Some(m.node_id@)
            &&& op.action@ == (if m.kind == ProvisionKind::Base {
                "create_base"@
            } else {
                "create_diff"@
            })
            &&& op.result@ == "ok"@
            &&& op.detail@.len() == 0
        },
        Outcome::Repaired { node_id, guid, op } => {
            &&& m.kind == ProvisionKind::Repair
            &&& node_id@ == m.node_id@
            &&& opt_view(guid) == opt_view(m.guid)
            &&& opt_view(op.node_id) == Some(m.node_id@)
            &&& op.action@ == "repair_bcd"@
            &&& op.result@ == "ok"@
            &&& op.detail@ == match m.description {
                Some(d) => d@,
                None => Seq::empty(),
            }
        },
    }
}

// ---------------------------------------------------------------------------
// Boot-entry operations on a stored node
fn op_record(node_id: &str, action: &str, detail: &str) -> (r: OpRecord)
    ensures
        opt_view(r.node_id) == Some(node_id@),
        r.action@ == action@,
        r.result@ == "ok"@,
        r.detail@ == detail@,
{
    OpRecord {
        id: new_id(),
        node_id: Some(copy(node_id)),
        action: copy(action),
        result: copy("ok"),
        detail: copy(detail),
    }
}

/// The audit record of a lifecycle operation that failed: result `error`,
/// with the failure's description as detail.
pub fn failure_record(node_id: Option<&str>, action: &str, detail: &str) -> (r: OpRecord)
    ensures
        match node_id {
            Some(id) => opt_view(r.node_id) == Some(id@),
            None => r.node_id is None,
        },
        r.action@ == action@,
        r.result@ == "error"@,
        r.detail@ == detail@,
{
    OpRecord {
        id: new_id(),
        node_id: match node_id {
            Some(id) => Some(copy(id)),
            None => None,
        },
        action: copy(action),
        result: copy("error"),
        detail: copy(detail),
    }
}

/// First step of deleting a node's boot entry: the command to run, if the
/// node (as fetched from the store) has an entry; `NotFound` without a node.
pub fn plan_delete_bcd(node: &Option<Node>) -> (r: Result<Option<Invocation>, AppError>)
    ensures
        node is None <==> r matches Err(AppError::NotFound(_)),
        r is Err ==> node is None,
        r matches Ok(Some(inv)) ==> node.unwrap().bcd_guid matches Some(g) && inv.args_view()
            == seq!["/delete"@, g@],
        r matches Ok(None) ==> node.unwrap().bcd_guid is None,
{
    match node {
        None => Err(AppError::NotFound(copy("node not found"))),
        Some(n) => match &n.bcd_guid {
            Some(g) => Ok(Some(crate::bcd::bcdedit_delete(g.as_str()))),
            None => Ok(None),
        },
    }
}

/// Last step of deleting a node's boot entry: fails when the deletion ran
/// and exited nonzero; else the stored entry is to be cleared and this
/// audit record appended.
pub fn finish_delete_bcd(node_id: &str, output: Option<&CommandOutput>) -> (r: Result<OpRecord, AppError>)
    ensures
        r is Err <==> (output matches Some(o) && !o.succeeded()),
        r matches Err(e) ==> e is Command,
        r matches Ok(op) ==> opt_view(op.node_id) == Some(node_id@) && op.action@ == "delete_bcd"@
            && op.result@ == "ok"@,
{
    match output {
        Some(o) => if !o.ok() {
            return Err(command_error("bcdedit delete", o, None));
        },
        None => {},
    }
    Ok(op_record(node_id, "delete_bcd", ""))
}

/// First step of describing a node's boot entry: the command to run;
/// `NotFound` without a node, `MissingBootEntry` when it has no entry.
pub fn plan_update_bcd_description(node: &Option<Node>, description: &str) -> (r: Result<Invocation, AppError>)
    ensures
        node is None ==> r matches Err(AppError::NotFound(_)),
        node matches Some(n) ==> (n.bcd_guid is None <==> r matches Err(AppError::MissingBootEntry)),
        node matches Some(n) ==> (n.bcd_guid is Some ==> r is Ok),
        r matches Ok(inv) ==> node.unwrap().bcd_guid matches Some(g) && inv.args_view() == seq![
            "/set"@,
            g@,
            "description"@,
            description@,
        ],
{
    match node {
        None => Err(AppError::NotFound(copy("node not found"))),
        Some(n) => match &n.bcd_guid {
            Some(g) => Ok(crate::bcd::bcdedit_set_description(g.as_str(), description)),
            None => Err(AppError::MissingBootEntry),
        },
    }
}

/// Last step of describing a boot entry: fails when the command exited
/// nonzero; else this audit record is appended.
pub fn finish_update_bcd_description(node_id: &str, description: &str, output: &CommandOutput) -> (r:
    Result<OpRecord, AppError>)
    ensures
        r is Err <==> !output.succeeded(),
        r matches Err(e) ==> e is Command,
        r matches Ok(op) ==> opt_view(op.node_id) == Some(node_id@) && op.action@
            == "update_bcd_description"@ && op.detail@ == description@,
{
    if !output.ok() {
        return Err(command_error("bcdedit set description", output, None));
    }
    Ok(op_record(node_id, "update_bcd_description", description))
}

/// The commands that make a node's entry the next boot and restart at once,
/// with the audit record; `NotFound` without a node, `MissingBootEntry` when
/// it has no entry.  The restart's own failure is not the operation's.
pub fn plan_boot_sequence(node: &Option<Node>) -> (r: Result<(Invocation, Invocation, OpRecord), AppError>)
    ensures
        node is None ==> r matches Err(AppError::NotFound(_)),
        node matches Some(n) ==> (n.bcd_guid is None <==> r matches Err(AppError::MissingBootEntry)),
        node matches Some(n) ==> (n.bcd_guid is Some ==> r is Ok),
        r matches Ok((seq_inv, restart, op)) ==> node.unwrap().bcd_guid matches Some(g)
            && seq_inv.args_view() == seq!["/bootsequence"@, g@] && restart.program@ == "shutdown"@
            && restart.args_view() == seq!["/r"@, "/t"@, "0"@] && opt_view(op.node_id) == Some(
            node.unwrap().id@,
        ) && op.action@ == "bootsequence_reboot"@,
{
    match node {
        None => Err(AppError::NotFound(copy("node not found"))),
        Some(n) => match &n.bcd_guid {
            Some(g) => Ok(
                (
                    crate::bcd::bcdedit_boot_sequence(g.as_str()),
                    crate::bcd::restart_now(),
                    op_record(n.id.as_str(), "bootsequence_reboot", ""),
                ),
            ),
            None => Err(AppError::MissingBootEntry),
        },
    }
}

// ---------------------------------------------------------------------------
// Subtree deletion
/// Best-effort removal of one node's traces: its boot entry (if bound), its
/// attachment, and its file.  A failure of any step stops nothing.
#[derive(Debug)]
pub struct Cleanup {
    pub boot_entry: Option<Invocation>,
    pub detach_script_path: String,
    pub detach_script: String,
    pub file: String,
}

/// Everything that deleting a subtree does: the cleanup of each member (in
/// `order`, children first; `None` for an identifier no stored node has),
/// then the removal of all of `order` from the store, then one audit record.
#[derive(Debug)]
pub struct SubtreeDeletion {
    pub order: Vec<String>,
    pub cleanups: Vec<Option<Cleanup>>,
    pub op: OpRecord,
}

/// Position of the first node with identifier `id` (`-1` if none).
pub open spec fn node_index(nodes: Seq<Node>, id: Seq<char>) -> int
    decreases nodes.len(),
{
    if nodes.len() == 0 {
        -1
    } else if nodes[0].id@ == id {
        0
    } else if node_index(nodes.drop_first(), id) < 0 {
        -1
    } else {
        1 + node_index(nodes.drop_first(), id)
    }
}

proof fn lemma_node_index_bounds(nodes: Seq<Node>, id: Seq<char>)
    ensures
        -1 <= node_index(nodes, id) < nodes.len(),
        node_index(nodes, id) >= 0 ==> nodes[node_index(nodes, id)].id@ == id,
    decreases nodes.len(),
{
    if nodes.len() > 0 && nodes[0].id@ != id {
        lemma_node_index_bounds(nodes.drop_first(), id);
    }
}

fn find_node(nodes: &Vec<Node>, id: &str) -> (r: Option<usize>)
    ensures
        match r {
            Some(i) => node_index(nodes@, id@) == i as int && i < nodes.len(),
            None => node_index(nodes@, id@) == -1,
        },
{
    let mut i: usize = 0;
    let want = chars_of(id);
    assert(nodes@.subrange(0, nodes.len() as int) =~= nodes@);
    while i < nodes.len()
        invariant
            i <= nodes.len(),
            want@ == id@,
            node_index(nodes@, id@) == if node_index(nodes@.subrange(i as int, nodes.len() as int), id@) < 0 {
                -1
            } else {
                i + node_index(nodes@.subrange(i as int, nodes.len() as int), id@)
            },
        decreases nodes.len() - i,
    {
        let ghost cur = nodes@.subrange(i as int, nodes.len() as int);
        assert(cur.drop_first() =~= nodes@.subrange(i + 1, nodes.len() as int));
        if crate::text::slice_eq(&chars_of(nodes[i].id.as_str()), &want) {
            return Some(i);
        }
        i = i + 1;
    }
    None
}

/// The cleanup that a stored node calls for.
pub open spec fn cleanup_matches(n: Node, c: Cleanup, tmp: Seq<char>) -> bool {
    &&& c.file@ == n.path@
    &&& c.detach_script@ == detach_text(n.path@, Seq::empty())
    &&& c.detach_script_path@ == join(tmp, "detach_cleanup.txt"@)
    &&& match n.bcd_guid {
        Some(g) => c.boot_entry matches Some(inv) && inv.args_view() == seq!["/delete"@, g@],
        None => c.boot_entry is None,
    }
}

/// Plans the deletion of `node_id` and all its descendants among `nodes`
/// (the stored tree).
pub fn plan_delete_subtree(nodes: &Vec<Node>, node_id: &str, paths: &AppPaths) -> (r: SubtreeDeletion)
    ensures
        crate::workspace::is_subtree_order(nodes@, node_id@, r.order@.map_values(|s: String| s@).reverse()),
        r.order@.map_values(|s: String| s@).no_duplicates(),
        r.cleanups.len() == r.order.len(),
        forall|k: int|
            0 <= k < r.order.len() ==> match #[trigger] r.cleanups@[k] {
                Some(c) => node_index(nodes@, r.order@[k]@) >= 0 && cleanup_matches(
                    nodes@[node_index(nodes@, r.order@[k]@)],
                    c,
                    join(paths.meta_view(), "tmp"@),
                ),
                None => node_index(nodes@, r.order@[k]@) == -1,
            },
        opt_view(r.op.node_id) == Some(node_id@),
        r.op.action@ == "delete_subtree"@,
        r.op.result@ == "ok"@,
        r.op.detail@ == "count="@ + crate::text::dec_digits(r.order.len() as nat),
{
    let order = crate::workspace::subtree_order(nodes, node_id);
    let tmp = paths.tmp_dir();
    let mut cleanups: Vec<Option<Cleanup>> = Vec::new();
    let mut k: usize = 0;
    while k < order.len()
        invariant
            k <= order.len(),
            cleanups.len() == k,
            tmp@ == join(paths.meta_view(), "tmp"@),
            forall|j: int|
                0 <= j < k ==> match #[trigger] cleanups@[j] {
                    Some(c) => node_index(nodes@, order@[j]@) >= 0 && cleanup_matches(
                        nodes@[node_index(nodes@, order@[j]@)],
                        c,
                        tmp@,
                    ),
                    None => node_index(nodes@, order@[j]@) == -1,
                },
        decreases order.len() - k,
    {
        let c = match find_node(nodes, order[k].as_str()) {
            Some(i) => {
                let n = &nodes[i];
                let boot_entry = match &n.bcd_guid {
                    Some(g) => Some(crate::bcd::bcdedit_delete(g.as_str())),
                    None => None,
                };
                let no_letters: Vec<char> = Vec::new();
                assert(no_letters@ =~= Seq::<char>::empty());
                Some(
                    Cleanup {
                        boot_entry,
                        detach_script_path: join_path(tmp.as_str(), "detach_cleanup.txt"),
                        detach_script: detach_vdisk_script(n.path.as_str(), no_letters.as_slice()),
                        file: copy(n.path.as_str()),
                    },
                )
            },
            None => None,
        };
        cleanups.push(c);
        k = k + 1;
    }
    let mut count: Vec<char> = Vec::new();
    push_str(&mut count, "count=");
    crate::text::push_decimal(&mut count, order.len() as u64);
    let detail = string_of(&count);
    let op = op_record(node_id, "delete_subtree", detail.as_str());
    SubtreeDeletion { order, cleanups, op }
}

} // verus!
