//! Records shared by the adapters and the reconciler.
use vstd::prelude::*;
use crate::text::{push_decimal, push_str, string_of};

verus! {

/// Health of a node, recomputed on every scan.
#[derive(Debug, Clone, Copy, PartialEq, Eq, Structural)]
pub enum NodeStatus {
    Normal,
    MissingFile,
    MissingParent,
    MissingBcd,
    Mounted,
    Error,
}

impl Default for NodeStatus {
    fn default() -> (r: Self)
        ensures
            r == NodeStatus::Normal,
    {
        NodeStatus::Normal
    }
}

impl NodeStatus {
    pub open spec fn name_view(&self) -> Seq<char> {
        match self {
            NodeStatus::Normal => "Normal"@,
            NodeStatus::MissingFile => "MissingFile"@,
            NodeStatus::MissingParent => "MissingParent"@,
            NodeStatus::MissingBcd => "MissingBcd"@,
            NodeStatus::Mounted => "Mounted"@,
            NodeStatus::Error => "Error"@,
        }
    }

    /// The name under which the status is stored.
    pub fn as_name(&self) -> (r: &'static str)
        ensures
            r@ == self.name_view(),
    {
        match self {
            NodeStatus::Normal => "Normal",
            NodeStatus::MissingFile => "MissingFile",
            NodeStatus::MissingParent => "MissingParent",
            NodeStatus::MissingBcd => "MissingBcd",
            NodeStatus::Mounted => "Mounted",
            NodeStatus::Error => "Error",
        }
    }
}

/// A virtual disk registered in the workspace.  `created_at` is in
/// milliseconds since the Unix epoch (UTC).
#[derive(Debug, Clone)]
pub struct Node {
    pub id: String,
    pub parent_id: Option<String>,
    pub name: String,
    pub path: String,
    pub bcd_guid: Option<String>,
    pub desc: Option<String>,
    pub created_at: i64,
    pub status: NodeStatus,
    pub boot_files_ready: bool,
}

/// What a node holds, as plain values.
pub ghost struct NodeV {
    pub id: Seq<char>,
    pub parent: Option<Seq<char>>,
    pub name: Seq<char>,
    pub path: Seq<char>,
    pub guid: Option<Seq<char>>,
    pub desc: Option<Seq<char>>,
    pub created_at: i64,
    pub status: NodeStatus,
    pub ready: bool,
}

impl View for Node {
    type V = NodeV;

    open spec fn view(&self) -> NodeV {
        NodeV {
            id: self.id@,
            parent: crate::text::opt_view(self.parent_id),
            name: self.name@,
            path: self.path@,
            guid: crate::text::opt_view(self.bcd_guid),
            desc: crate::text::opt_view(self.desc),
            created_at: self.created_at,
            status: self.status,
            ready: self.boot_files_ready,
        }
    }
}

/// One image inside a deployable image file.
#[derive(Debug, Clone)]
pub struct WimImageInfo {
    pub index: u32,
    pub name: String,
    pub description: Option<String>,
    pub size: Option<String>,
}

/// What an external command left behind.
#[derive(Debug, Clone)]
pub struct CommandOutput {
    pub exit_code: Option<i32>,
    pub stdout: String,
    pub stderr: String,
}

impl CommandOutput {
    pub open spec fn succeeded(&self) -> bool {
        self.exit_code == Some(0i32)
    }

    /// Whether the command exited with code zero.
    pub fn ok(&self) -> (r: bool)
        ensures
            r == self.succeeded(),
    {
        match self.exit_code {
            Some(c) => c == 0,
            None => false,
        }
    }
}

/// Failures of the workspace operations.
#[derive(Debug)]
pub enum AppError {
    /// A file or directory operation failed.
    Io(String),
    /// The durable store failed.
    Db(String),
    /// A record could not be encoded or decoded.
    Serde(String),
    /// No workspace root has been chosen yet.
    RootNotInitialized,
    /// An external tool exited with a nonzero code (or none).
    Command { name: String, exit_code: Option<i32>, script: Option<String>, detail: String },
    /// A referenced node is absent from the store.
    NotFound(String),
    /// The node has no boot entry bound to it.
    MissingBootEntry,
    /// Every drive letter of the reserved range is in use.
    NoFreeLetter,
    /// The role of a partition could not be inferred from a listing.
    Detection(String),
    /// Any other failure, described in words.
    Message(String),
}

/// A command line to run: the program, its arguments, and whether it needs
/// elevated privileges.
#[derive(Debug, Clone)]
pub struct Invocation {
    pub program: String,
    pub args: Vec<String>,
    pub elevated: bool,
}

impl Invocation {
    pub open spec fn args_view(&self) -> Seq<Seq<char>> {
        self.args@.map_values(|a: String| a@)
    }
}

/// The persisted settings of a workspace.
#[derive(Debug, Clone)]
pub struct AppSettings {
    pub root_path: String,
    pub locale: String,
    pub seq_counter: i64,
    pub last_boot_guid: Option<String>,
}

/// What choosing a workspace root reports.
#[derive(Debug, Clone)]
pub struct InitResult {
    pub settings: AppSettings,
}

/// Decimal text of an integer, with a leading `-` when negative.
pub open spec fn int_text(v: int) -> Seq<char> {
    if v < 0 {
        seq!['-'] + crate::text::dec_digits((-v) as nat)
    } else {
        crate::text::dec_digits(v as nat)
    }
}

pub open spec fn command_text(
    name: Seq<char>,
    exit_code: Option<i32>,
    script: Option<Seq<char>>,
    detail: Seq<char>,
) -> Seq<char> {
    let e = match exit_code {
        Some(c) => "exit="@ + int_text(c as int) + " | "@,
        None => Seq::empty(),
    };
    let s = match script {
        Some(p) => "script="@ + p + " | "@,
        None => Seq::empty(),
    };
    name + " failed: "@ + e + s + detail
}

impl AppError {
    /// The words shown to a user.
    pub open spec fn text(&self) -> Seq<char> {
        match self {
            AppError::Io(s) => "I/O error: "@ + s@,
            AppError::Db(s) => "Database error: "@ + s@,
            AppError::Serde(s) => "Serialization error: "@ + s@,
            AppError::RootNotInitialized => "Root directory is not initialized"@,
            AppError::Command { name, exit_code, script, detail } => command_text(
                name@,
                *exit_code,
                crate::text::opt_view(*script),
                detail@,
            ),
            AppError::NotFound(s) => s@,
            AppError::MissingBootEntry => "node missing bcd guid"@,
            AppError::NoFreeLetter => "no free drive letter available between S: and Z:"@,
            AppError::Detection(s) => s@,
            AppError::Message(s) => s@,
        }
    }

    /// The failure as one descriptive line, as [`AppError::text`] says.
    pub fn message(&self) -> (r: String)
        ensures
            r@ == self.text(),
    {
        let mut t: Vec<char> = Vec::new();
        match self {
            AppError::Io(s) => {
                push_str(&mut t, "I/O error: ");
                push_str(&mut t, s.as_str());
            },
            AppError::Db(s) => {
                push_str(&mut t, "Database error: ");
                push_str(&mut t, s.as_str());
            },
            AppError::Serde(s) => {
                push_str(&mut t, "Serialization error: ");
                push_str(&mut t, s.as_str());
            },
            AppError::RootNotInitialized => push_str(&mut t, "Root directory is not initialized"),
            AppError::Command { name, exit_code, script, detail } => {
                push_str(&mut t, name.as_str());
                push_str(&mut t, " failed: ");
                match exit_code {
                    Some(c) => {
                        push_str(&mut t, "exit=");
                        if *c < 0 {
                            t.push('-');
                            push_decimal(&mut t, (-(*c as i64)) as u64);
                        } else {
                            push_decimal(&mut t, *c as u64);
                        }
                        push_str(&mut t, " | ");
                    },
                    None => {},
                }
                match script {
                    Some(p) => {
                        push_str(&mut t, "script=");
                        push_str(&mut t, p.as_str());
                        push_str(&mut t, " | ");
                    },
                    None => {},
                }
                push_str(&mut t, detail.as_str());
            },
            AppError::NotFound(s) => push_str(&mut t, s.as_str()),
            AppError::MissingBootEntry => push_str(&mut t, "node missing bcd guid"),
            AppError::NoFreeLetter => push_str(&mut t, "no free drive letter available between S: and Z:"),
            AppError::Detection(s) => push_str(&mut t, s.as_str()),
            AppError::Message(s) => push_str(&mut t, s.as_str()),
        }
        assert(t@ =~= self.text());
        string_of(&t)
    }
}

} // verus!
