//! The WebDAV façade's decisions: what `open`, `remove`, `create_dir`
//! and `rename` do for each shape of input, before and after the
//! resolver has run. The caller performs the remote calls the plans ask
//! for.

use vstd::prelude::*;
use crate::error::{ErrModel, GofileError};
use crate::model::{children_model, contents_model, Contents, ContentsModel, FolderEntry};
use crate::strutil::{concat2, str_eq};

verus! {

/// Refuses mutation on a read-only mount, before any remote call.
pub fn mutation_allowed(write_enabled: bool) -> (r: Result<(), GofileError>)
    ensures
        r == if write_enabled {
            Ok::<(), GofileError>(())
        } else {
            Err::<(), GofileError>(GofileError::Forbidden)
        },
{
    if write_enabled {
        Ok(())
    } else {
        Err(GofileError::Forbidden)
    }
}

/// What `open` does with its options.
pub enum OpenPlan {
    /// Resolve the path and serve a read stream (a folder is refused).
    OpenRead,
    /// Hand out a write stream for the path.
    OpenWrite,
    /// Appending is not supported.
    NotImplemented,
    /// Anything else is refused.
    Forbidden,
}

/// The `open` decision: reads always resolve; writes need write mode
/// and no `append`; everything else is forbidden.
pub fn open_plan(read: bool, write: bool, append: bool, write_enabled: bool) -> (r: OpenPlan)
    ensures
        r == if read {
            OpenPlan::OpenRead
        } else if write_enabled && write {
            if append {
                OpenPlan::NotImplemented
            } else {
                OpenPlan::OpenWrite
            }
        } else {
            OpenPlan::Forbidden
        },
{
    if read {
        OpenPlan::OpenRead
    } else if write_enabled && write {
        if append {
            OpenPlan::NotImplemented
        } else {
            OpenPlan::OpenWrite
        }
    } else {
        OpenPlan::Forbidden
    }
}

/// Requires the resolved entry to be a folder; a file is an internal
/// fault naming the path.
pub fn expect_folder(contents: Contents, path: &str) -> (r: Result<FolderEntry, GofileError>)
    ensures
        match contents {
            Contents::Folder(f) => r == Ok::<FolderEntry, GofileError>(f),
            Contents::File(_) => (r matches Err(e) && e@ == ErrModel::Unexpected(
                "expected folder but found file at path "@ + path@,
            )),
        },
{
    match contents {
        Contents::Folder(f) => Ok(f),
        Contents::File(_) => {
            let message = concat2("expected folder but found file at path ", path);
            Err(GofileError::Unexpected { message })
        },
    }
}

/// Requires the resolved entry to be a file; a folder is an internal
/// fault naming the path.
pub fn expect_file(contents: Contents, path: &str) -> (r: Result<
    crate::model::FileEntry,
    GofileError,
>)
    ensures
        match contents {
            Contents::File(f) => r == Ok::<crate::model::FileEntry, GofileError>(f),
            Contents::Folder(_) => (r matches Err(e) && e@ == ErrModel::Unexpected(
                "expected file but found folder at path "@ + path@,
            )),
        },
{
    match contents {
        Contents::File(f) => Ok(f),
        Contents::Folder(_) => {
            let message = concat2("expected file but found folder at path ", path);
            Err(GofileError::Unexpected { message })
        },
    }
}

/// The removal decision: a file deletes; a folder deletes only when
/// empty, else the removal is refused; asking for the wrong kind is an
/// internal fault. `Ok` carries the id to delete.
pub fn remove_plan(contents: &Contents, remove_dir: bool) -> (r: Result<String, GofileError>)
    ensures
        match (contents, remove_dir) {
            (Contents::File(f), false) => r matches Ok(id) && id@ == f.id@,
            (Contents::Folder(f), true) => if f.children@.len() > 0 {
                r == Err::<String, GofileError>(GofileError::Forbidden)
            } else {
                r matches Ok(id) && id@ == f.id@
            },
            (Contents::File(f), true) => (r matches Err(e) && e@ == ErrModel::Unexpected(
                "expected to delete folder but found file "@ + f.id@,
            )),
            (Contents::Folder(f), false) => (r matches Err(e) && e@ == ErrModel::Unexpected(
                "expected to delete file but found folder "@ + f.id@,
            )),
        },
{
    match (contents, remove_dir) {
        (Contents::File(f), false) => Ok(f.id.clone()),
        (Contents::Folder(f), true) => {
            if f.children.len() > 0 {
                Err(GofileError::Forbidden)
            } else {
                Ok(f.id.clone())
            }
        },
        (Contents::File(f), true) => {
            let message = concat2("expected to delete folder but found file ", f.id.as_str());
            Err(GofileError::Unexpected { message })
        },
        (Contents::Folder(f), false) => {
            let message = concat2("expected to delete file but found folder ", f.id.as_str());
            Err(GofileError::Unexpected { message })
        },
    }
}

/// Does the folder hold a child of this name (of either kind)?
pub open spec fn has_child_named(cs: Seq<(Seq<char>, ContentsModel)>, name: Seq<char>) -> bool {
    exists|i: int|
        0 <= i < cs.len() && (match (#[trigger] cs[i]).1 {
            ContentsModel::File(f) => f.name,
            ContentsModel::Folder(f) => f.name,
        }) == name
}

/// Looks for a child of this name, returning the first one's index.
pub fn find_child_named(children: &Vec<(String, Contents)>, name: &str) -> (r: Option<usize>)
    ensures
        match r {
            Some(i) => i < children@.len() && (match children_model(children@)[i as int].1 {
                ContentsModel::File(f) => f.name,
                ContentsModel::Folder(f) => f.name,
            }) == name@,
            None => !has_child_named(children_model(children@), name@),
        },
{
    proof {
        crate::model::lemma_children_model(children@);
    }
    let n = children.len();
    let mut i: usize = 0;
    while i < n
        invariant
            n == children@.len(),
            i <= n,
            children_model(children@).len() == n,
            forall|j: int|
                0 <= j < n ==> #[trigger] children_model(children@)[j] == (
                children@[j].0@,
                contents_model(children@[j].1),
                ),
            forall|j: int|
                0 <= j < i ==> (match (#[trigger] children_model(children@)[j]).1 {
                    ContentsModel::File(f) => f.name,
                    ContentsModel::Folder(f) => f.name,
                }) != name@,
        decreases n - i,
    {
        if str_eq(children[i].1.name(), name) {
            return Some(i);
        }
        i = i + 1;
    }
    None
}

/// What `create_dir` does once the parent folder is resolved.
pub enum CreateDirPlan {
    /// A child of that name exists: succeed without a remote call.
    AlreadyThere,
    /// Create the folder under this parent id.
    Create { parent_id: String },
}

/// The `create_dir` decision: creating an existing name is a no-op;
/// otherwise the folder is created under the resolved parent.
pub fn create_dir_plan(parent: &FolderEntry, name: &str) -> (r: CreateDirPlan)
    ensures
        if has_child_named(children_model(parent.children@), name@) {
            r is AlreadyThere
        } else {
            (r matches CreateDirPlan::Create { parent_id } && parent_id@ == parent.id@)
        },
{
    match find_child_named(&parent.children, name) {
        Some(i) => {
            proof {
                crate::model::lemma_children_model(parent.children@);
                let cs = children_model(parent.children@);
                assert(0 <= i < cs.len() && (match cs[i as int].1 {
                    ContentsModel::File(f) => f.name,
                    ContentsModel::Folder(f) => f.name,
                }) == name@);
            }
            CreateDirPlan::AlreadyThere
        },
        None => CreateDirPlan::Create { parent_id: parent.id.clone() },
    }
}

/// What `rename` does, given the source entry and what sits at the
/// destination name.
pub enum RenamePlan {
    /// Rename in place; delete the listed ids afterwards (the replaced
    /// destination file, if any).
    SimpleRename { delete_after: Vec<String> },
    /// Copy the file to the destination, then delete the listed ids
    /// (the replaced destination file, if any, and the source).
    CopyDelete { delete_after: Vec<String> },
    /// Folder collides with folder.
    Exists,
    /// Folders cannot be moved across parents.
    NotImplemented,
    /// A file/folder collision.
    GeneralFailure,
}

/// The `rename` decision table: within one parent a rename replaces a
/// same-named destination file; across parents a file moves by copy and
/// delete; folders never move across parents; folder-to-folder is a
/// collision, and mixed kinds fail.
pub fn rename_plan(same_parent: bool, from: &Contents, to: Option<&Contents>) -> (r: RenamePlan)
    ensures
        match (from, to) {
            (Contents::File(_), Some(Contents::File(t))) => if same_parent {
                (r matches RenamePlan::SimpleRename { delete_after } && delete_after@.len() == 1
                    && delete_after@[0]@ == t.id@)
            } else {
                (r matches RenamePlan::CopyDelete { delete_after } && delete_after@.len() == 2
                    && delete_after@[0]@ == t.id@ && delete_after@[1]@ == from->File_0.id@)
            },
            (Contents::Folder(_), Some(Contents::Folder(_))) => if same_parent {
                r is Exists
            } else {
                r is NotImplemented
            },
            (Contents::Folder(_), None) => if same_parent {
                (r matches RenamePlan::SimpleRename { delete_after } && delete_after@.len() == 0)
            } else {
                r is NotImplemented
            },
            (Contents::Folder(_), Some(Contents::File(_))) => if same_parent {
                r is GeneralFailure
            } else {
                r is NotImplemented
            },
            (Contents::File(_), None) => if same_parent {
                (r matches RenamePlan::SimpleRename { delete_after } && delete_after@.len() == 0)
            } else {
                (r matches RenamePlan::CopyDelete { delete_after } && delete_after@.len() == 1
                    && delete_after@[0]@ == from->File_0.id@)
            },
            (Contents::File(_), Some(Contents::Folder(_))) => r is GeneralFailure,
        },
{
    if same_parent {
        match (from, to) {
            (Contents::File(_), Some(Contents::File(t))) => {
                let mut delete_after: Vec<String> = Vec::new();
                delete_after.push(t.id.clone());
                RenamePlan::SimpleRename { delete_after }
            },
            (Contents::Folder(_), Some(Contents::Folder(_))) => RenamePlan::Exists,
            (_, None) => RenamePlan::SimpleRename { delete_after: Vec::new() },
            _ => RenamePlan::GeneralFailure,
        }
    } else {
        match (from, to) {
            (Contents::File(f), Some(Contents::File(t))) => {
                let mut delete_after: Vec<String> = Vec::new();
                delete_after.push(t.id.clone());
                delete_after.push(f.id.clone());
                RenamePlan::CopyDelete { delete_after }
            },
            (Contents::Folder(_), _) => RenamePlan::NotImplemented,
            (Contents::File(f), None) => {
                let mut delete_after: Vec<String> = Vec::new();
                delete_after.push(f.id.clone());
                RenamePlan::CopyDelete { delete_after }
            },
            (Contents::File(_), Some(Contents::Folder(_))) => RenamePlan::GeneralFailure,
        }
    }
}

} // verus!
