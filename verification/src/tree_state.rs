//! A project's file tree, kept up to date from file events, with the
//! structural changes reported as patches.
use vstd::prelude::*;
use crate::event::{EventType, FileEvent};
use crate::filter::{ignored_by, PathFilter};
use crate::text::{concat, push_char};
use crate::tree::{
    add_node, deep_unique, find_node, find_spec, has_path, is_nonempty_prefix, is_prefix, path_parts,
    remove_node, rename_node, renamed_has_path, well_formed, TreeNode,
};

verus! {

/// Scans stop this many directory levels below the project root.
pub const MAX_DEPTH: usize = 20;

/// Scans stop after adding this many entries.
pub const MAX_ENTRIES: usize = 10000;

/// Incremental tree patch operation.
#[derive(Debug, Clone, PartialEq, Eq)]
pub enum TreePatch {
    /// A file or directory was added.
    Add { path: String, is_dir: bool },
    /// A file or directory was removed.
    Remove { path: String },
    /// A file or directory was renamed.
    Rename { old_path: String, new_path: String, is_dir: bool },
}

/// Project tree state.
#[derive(Debug)]
pub struct ProjectTree {
    /// Root node of the tree (name is empty string for project root).
    pub root: TreeNode,
    /// Project identifier.
    pub project_id: String,
}

/// What a directory scan does with one directory entry.
#[derive(Debug, Clone, PartialEq, Eq)]
pub enum ScanStep {
    /// The entry is ignored or a symbolic link: go on with the next one.
    Skip,
    /// The entry limit is reached: stop scanning this directory.
    Stop,
    /// The entry was added at `child_relative`; scan inside it when it is a
    /// directory.
    Added { child_relative: String, descend: bool },
}

/// The relative path of `name` inside `relative` (`name` itself at the
/// root).
pub open spec fn child_path(relative: Seq<char>, name: Seq<char>) -> Seq<char> {
    if relative.len() == 0 {
        name
    } else {
        relative + seq!['/'] + name
    }
}

impl ProjectTree {
    /// An empty tree for the project: a root directory with empty name and
    /// path.
    pub fn new(project_id: String) -> (r: Self)
        ensures
            r.project_id == project_id,
            r.root.name@.len() == 0,
            r.root.path@.len() == 0,
            r.root.is_dir,
            r.root.children@.len() == 0,
            well_formed(r.root),
    {
        let root = TreeNode::dir("", "");
        proof {
            reveal_strlit("");
        }
        ProjectTree { root, project_id }
    }

    /// A directory at depth `depth` below the root is still scanned.
    pub fn should_scan_depth(depth: usize) -> (r: bool)
        ensures
            r == (depth < MAX_DEPTH),
    {
        depth < MAX_DEPTH
    }

    /// Handles one entry named `name` of the directory at `relative_path`
    /// during a scan: ignored paths and symbolic links are skipped, the
    /// scan stops once `MAX_ENTRIES` entries were added, and otherwise the
    /// entry is added to the tree and counted.
    pub fn scan_entry(
        &mut self,
        relative_path: &str,
        name: &str,
        is_dir: bool,
        is_symlink: bool,
        filter: &PathFilter,
        entry_count: &mut usize,
    ) -> (r: ScanStep)
        ensures
            final(self).project_id == old(self).project_id,
            ignored_by(filter@.0, child_path(relative_path@, name@)) ==> (r == ScanStep::Skip
                && *final(entry_count) == *old(entry_count) && final(self).root == old(self).root),
            !ignored_by(filter@.0, child_path(relative_path@, name@)) && is_symlink ==> (r
                == ScanStep::Skip && *final(entry_count) == *old(entry_count) && final(self).root
                == old(self).root),
            !ignored_by(filter@.0, child_path(relative_path@, name@)) && !is_symlink && *old(
                entry_count,
            ) >= MAX_ENTRIES ==> (r == ScanStep::Stop && *final(entry_count) == *old(entry_count)
                && final(self).root == old(self).root),
            !ignored_by(filter@.0, child_path(relative_path@, name@)) && !is_symlink && *old(
                entry_count,
            ) < MAX_ENTRIES ==> {
                &&& r matches ScanStep::Added { child_relative, descend }
                &&& child_relative@ == child_path(relative_path@, name@)
                &&& descend == is_dir
                &&& *final(entry_count) == *old(entry_count) + 1
                &&& forall|q: Seq<Seq<char>>| #[trigger]
                    has_path(final(self).root, q) <==> (has_path(old(self).root, q)
                        || is_nonempty_prefix(q, path_parts(child_path(relative_path@, name@))))
                &&& well_formed(old(self).root) ==> well_formed(final(self).root)
            },
    {
        let child_relative = if relative_path.is_empty() {
            name.to_owned()
        } else {
            let mut s = relative_path.to_owned();
            push_char(&mut s, '/');
            let t = concat(s.as_str(), name);
            t
        };
        assert(child_relative@ == child_path(relative_path@, name@));
        if filter.should_ignore(child_relative.as_str()) {
            return ScanStep::Skip;
        }
        if is_symlink {
            return ScanStep::Skip;
        }
        if *entry_count >= MAX_ENTRIES {
            return ScanStep::Stop;
        }
        add_node(&mut self.root, child_relative.as_str(), is_dir);
        *entry_count = *entry_count + 1;
        ScanStep::Added { child_relative, descend: is_dir }
    }

    /// Applies a file event: a creation adds a file node, a deletion
    /// removes the node, a rename with a known old path moves it; the
    /// patch describing the change is returned, or `None` when the
    /// structure did not change (modifications never change it).
    pub fn apply_event(&mut self, event: &FileEvent) -> (r: Option<TreePatch>)
        ensures
            final(self).project_id == old(self).project_id,
            well_formed(old(self).root) ==> well_formed(final(self).root),
            event.event_type == EventType::Modified ==> r is None && final(self).root == old(
                self,
            ).root,
            event.event_type == EventType::Created ==> {
                &&& (r is Some) == (path_parts(event.file_path@).len() > 0 && !has_path(
                    old(self).root,
                    path_parts(event.file_path@),
                ))
                &&& r is Some ==> (r matches Some(TreePatch::Add { path, is_dir }) && path
                    == event.file_path && !is_dir)
                &&& forall|q: Seq<Seq<char>>| #[trigger]
                    has_path(final(self).root, q) <==> (has_path(old(self).root, q)
                        || is_nonempty_prefix(q, path_parts(event.file_path@)))
            },
            event.event_type == EventType::Deleted ==> {
                &&& (r is Some) == (path_parts(event.file_path@).len() > 0 && has_path(
                    old(self).root,
                    path_parts(event.file_path@),
                ))
                &&& r is Some ==> (r matches Some(TreePatch::Remove { path }) && path
                    == event.file_path)
                &&& deep_unique(old(self).root) && path_parts(event.file_path@).len() > 0
                    ==> forall|q: Seq<Seq<char>>| #[trigger]
                    has_path(final(self).root, q) <==> (has_path(old(self).root, q) && !is_prefix(
                        path_parts(event.file_path@),
                        q,
                    ))
            },
            event.event_type == EventType::Renamed && event.old_path is None ==> r is None
                && final(self).root == old(self).root,
            event.event_type == EventType::Renamed && event.old_path is Some ==> (r is Some
                ==> (r matches Some(TreePatch::Rename { old_path, new_path, is_dir })
                && old_path@ == event.old_path->0@ && new_path@ == event.file_path@ && !is_dir)),
            event.event_type == EventType::Renamed ==> (event.old_path matches Some(o) ==> Self::renames(
                *old(self),
                o@,
                event.file_path@,
                false,
                *final(self),
                r,
            )),
    {
        match event.event_type {
            EventType::Created => {
                let added = add_node(&mut self.root, event.file_path.as_str(), false);
                if added {
                    Some(TreePatch::Add { path: event.file_path.clone(), is_dir: false })
                } else {
                    None
                }
            },
            EventType::Deleted => {
                let removed = remove_node(&mut self.root, event.file_path.as_str());
                if removed {
                    Some(TreePatch::Remove { path: event.file_path.clone() })
                } else {
                    None
                }
            },
            EventType::Renamed => {
                match &event.old_path {
                    Some(old_path) => self.apply_rename(old_path.as_str(), event.file_path.as_str(), false),
                    None => None,
                }
            },
            EventType::Modified => None,
        }
    }

    /// What renaming `old_path` to `new_path` does, taking `before` to
    /// `after` and answering `r`: the project stays; a rename patch with
    /// both paths comes back when the tree changed; nothing changes when
    /// `old_path` is not in the tree; in a well-formed tree that has it,
    /// the patch comes back exactly when `new_path` is a path that is not
    /// taken (or is taken only under `old_path`), and the new tree's paths
    /// are those of `renamed_has_path`.
    pub open spec fn renames(before: Self, old_path: Seq<char>, new_path: Seq<char>, is_dir: bool, after: Self, r: Option<TreePatch>) -> bool {
        &&& after.project_id == before.project_id
        &&& well_formed(before.root) ==> well_formed(after.root)
        &&& r is Some ==> (r matches Some(TreePatch::Rename { old_path: o, new_path: n, is_dir: d })
            && o@ == old_path && n@ == new_path && d == is_dir)
        &&& !(path_parts(old_path).len() > 0 && has_path(before.root, path_parts(old_path))) ==> r is None
        &&& well_formed(before.root) && path_parts(old_path).len() > 0 && has_path(
            before.root,
            path_parts(old_path),
        ) ==> {
            &&& (r is Some) == (path_parts(new_path).len() > 0 && !(has_path(
                before.root,
                path_parts(new_path),
            ) && !is_prefix(path_parts(old_path), path_parts(new_path))))
            &&& forall|q: Seq<Seq<char>>| #[trigger]
                has_path(after.root, q) <==> renamed_has_path(
                    before.root,
                    path_parts(old_path),
                    path_parts(new_path),
                    q,
                )
        }
    }

    /// Applies a rename where both paths are known; see `rename_node`.
    pub fn apply_rename(&mut self, old_path: &str, new_path: &str, is_dir: bool) -> (r: Option<TreePatch>)
        ensures
            Self::renames(*old(self), old_path@, new_path@, is_dir, *final(self), r),
            final(self).project_id == old(self).project_id,
            well_formed(old(self).root) ==> well_formed(final(self).root),
            r is Some ==> (r matches Some(TreePatch::Rename { old_path: o, new_path: n, is_dir: d })
                && o@ == old_path@ && n@ == new_path@ && d == is_dir),
            !(path_parts(old_path@).len() > 0 && has_path(old(self).root, path_parts(old_path@)))
                ==> r is None,
            well_formed(old(self).root) && path_parts(old_path@).len() > 0 && has_path(
                old(self).root,
                path_parts(old_path@),
            ) ==> {
                &&& (r is Some) == (path_parts(new_path@).len() > 0 && !(has_path(
                    old(self).root,
                    path_parts(new_path@),
                ) && !is_prefix(path_parts(old_path@), path_parts(new_path@))))
                &&& forall|q: Seq<Seq<char>>| #[trigger]
                    has_path(final(self).root, q) <==> renamed_has_path(
                        old(self).root,
                        path_parts(old_path@),
                        path_parts(new_path@),
                        q,
                    )
            },
    {
        let renamed = rename_node(&mut self.root, old_path, new_path, is_dir);
        if renamed {
            Some(TreePatch::Rename { old_path: old_path.to_owned(), new_path: new_path.to_owned(), is_dir })
        } else {
            None
        }
    }

    /// The root node.
    pub fn to_tree_node(&self) -> (r: &TreeNode)
        ensures
            *r == self.root,
    {
        &self.root
    }

    /// The node at `path`; see `find_node`.
    pub fn find(&self, path: &str) -> (r: Option<&TreeNode>)
        ensures
            match r {
                Some(n) => find_spec(self.root, path_parts(path@)) == Some(*n),
                None => find_spec(self.root, path_parts(path@)) is None,
            },
    {
        find_node(&self.root, path)
    }
}

} // verus!
