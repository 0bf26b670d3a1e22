//! Layout of a workspace root on disk.
use vstd::prelude::*;
use crate::text::{push_str, string_of};

verus! {

/// `base` followed by `name`, with one backslash between them unless `base`
/// is empty or already ends with a separator.
pub open spec fn join(base: Seq<char>, name: Seq<char>) -> Seq<char> {
    if base.len() == 0 {
        name
    } else if base.last() == '\\' || base.last() == '/' {
        base + name
    } else {
        base + seq!['\\'] + name
    }
}

/// Joins a directory and a name as [`join`] describes.
pub fn join_path(base: &str, name: &str) -> (r: String)
    ensures
        r@ == join(base@, name@),
{
    let mut t: Vec<char> = Vec::new();
    push_str(&mut t, base);
    if t.len() > 0 && t[t.len() - 1] != '\\' && t[t.len() - 1] != '/' {
        t.push('\\');
    }
    push_str(&mut t, name);
    assert(t@ =~= join(base@, name@));
    string_of(&t)
}

/// The directories and files of a workspace, all under one root.
#[derive(Debug, Clone)]
pub struct AppPaths {
    root: String,
}

impl AppPaths {
    pub closed spec fn root_view(&self) -> Seq<char> {
        self.root@
    }

    pub open spec fn meta_view(&self) -> Seq<char> {
        join(self.root_view(), "meta"@)
    }

    pub fn new(root: String) -> (r: Self)
        ensures
            r.root_view() == root@,
    {
        AppPaths { root }
    }

    pub fn root(&self) -> (r: &str)
        ensures
            r@ == self.root_view(),
    {
        self.root.as_str()
    }

    /// Where base disks live.
    pub fn base_dir(&self) -> (r: String)
        ensures
            r@ == join(self.root_view(), "base"@),
    {
        join_path(self.root.as_str(), "base")
    }

    /// Where differencing disks live.
    pub fn diff_dir(&self) -> (r: String)
        ensures
            r@ == join(self.root_view(), "diff"@),
    {
        join_path(self.root.as_str(), "diff")
    }

    pub fn meta_dir(&self) -> (r: String)
        ensures
            r@ == self.meta_view(),
    {
        join_path(self.root.as_str(), "meta")
    }

    /// Where temporary scripts are written.
    pub fn tmp_dir(&self) -> (r: String)
        ensures
            r@ == join(self.meta_view(), "tmp"@),
    {
        join_path(self.meta_dir().as_str(), "tmp")
    }

    pub fn locales_dir(&self) -> (r: String)
        ensures
            r@ == join(self.meta_view(), "locales"@),
    {
        join_path(self.meta_dir().as_str(), "locales")
    }

    pub fn mount_root(&self) -> (r: String)
        ensures
            r@ == join(self.meta_view(), "mnt"@),
    {
        join_path(self.meta_dir().as_str(), "mnt")
    }

    pub fn state_db_path(&self) -> (r: String)
        ensures
            r@ == join(self.meta_view(), "state.db"@),
    {
        join_path(self.meta_dir().as_str(), "state.db")
    }

    pub fn ops_log_path(&self) -> (r: String)
        ensures
            r@ == join(self.meta_view(), "ops.log"@),
    {
        join_path(self.meta_dir().as_str(), "ops.log")
    }

    /// The directories that must exist, parents before children.
    pub fn layout(&self) -> (r: Vec<String>)
        ensures
            r@.map_values(|d: String| d@) == seq![
                self.root_view(),
                join(self.root_view(), "base"@),
                join(self.root_view(), "diff"@),
                self.meta_view(),
                join(self.meta_view(), "tmp"@),
                join(self.meta_view(), "locales"@),
                join(self.meta_view(), "mnt"@),
            ],
    {
        let r = vec![
            string_of(&crate::text::chars_of(self.root.as_str())),
            self.base_dir(),
            self.diff_dir(),
            self.meta_dir(),
            self.tmp_dir(),
            self.locales_dir(),
            self.mount_root(),
        ];
        assert(r@.map_values(|d: String| d@) =~= seq![
            self.root_view(),
            join(self.root_view(), "base"@),
            join(self.root_view(), "diff"@),
            self.meta_view(),
            join(self.meta_view(), "tmp"@),
            join(self.meta_view(), "locales"@),
            join(self.meta_view(), "mnt"@),
        ]);
        r
    }
}

} // verus!
