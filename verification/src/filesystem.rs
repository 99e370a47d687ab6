//! The filesystem capability: the only boundary between planning logic and
//! storage.
//!
//! [`FileSystemOps`] exposes exactly the queries the planner needs (existence
//! and classification of a path, symlink reading) plus symlink creation.  An
//! implementation may be backed by real storage (outside this library) or by
//! the in-memory [`MemFileSystem`], which is verified here and lets the
//! planner and the tests run without touching any disk.

use vstd::prelude::*;

use crate::path::FsPath;

verus! {

/// Errors surfaced by a filesystem backend.
#[derive(Debug, Clone, PartialEq, Eq)]
pub enum FileSystemError {
    /// A plain I/O failure, with the backend's description.
    Io { message: String },
    /// Reading a symlink's target failed.
    LinkError { path: FsPath, message: String },
    /// Creating a symlink failed.
    SymLinkError { src: FsPath, dest: FsPath, message: String },
}

/// One entry of a simulated filesystem.
#[derive(Debug, Clone, PartialEq, Eq)]
pub enum FsEntry {
    File,
    Dir,
    Symlink { target: FsPath },
}

/// The entry recorded for `path`, scanning the newest records first, so a
/// later insertion at the same path shadows an earlier one.
pub open spec fn lookup(entries: Seq<(FsPath, FsEntry)>, path: Seq<Seq<char>>) -> Option<FsEntry>
    decreases entries.len(),
{
    if entries.len() == 0 {
        None
    } else if entries.last().0@ == path {
        Some(entries.last().1)
    } else {
        lookup(entries.drop_last(), path)
    }
}

/// Capability interface over a filesystem.
///
/// The five spec functions are the backend's abstract state; each executable
/// method answers exactly its spec-level counterpart.  Queries take `&self`:
/// a holder of a shared borrow can observe the filesystem but never change
/// it, which is what makes planning side-effect free by construction.
pub trait FileSystemOps: Sized {
    /// Whether any entry (file, directory or symlink) stands at `path`.
    open spec fn path_exists(&self, path: Seq<Seq<char>>) -> bool {
        arbitrary()
    }

    /// Whether `path` itself is a symbolic link (its target is not followed).
    open spec fn path_is_symlink(&self, path: Seq<Seq<char>>) -> bool {
        arbitrary()
    }

    /// Whether `path` classifies as a regular file.
    open spec fn path_is_file(&self, path: Seq<Seq<char>>) -> bool {
        arbitrary()
    }

    /// Whether `path` classifies as a directory.
    open spec fn path_is_dir(&self, path: Seq<Seq<char>>) -> bool {
        arbitrary()
    }

    /// The recorded target of the symlink at `path`.
    open spec fn link_target(&self, path: Seq<Seq<char>>) -> Seq<Seq<char>> {
        arbitrary()
    }

    /// Checks whether a path exists in the filesystem.
    fn entry_exists(&self, path: &FsPath) -> (r: bool)
        ensures
            r == self.path_exists(path@),
    ;

    /// Determines whether a path is a symbolic link.
    fn is_symlink(&self, path: &FsPath) -> (r: bool)
        ensures
            r == self.path_is_symlink(path@),
    ;

    /// Determines whether a path is a file.
    fn is_file(&self, path: &FsPath) -> (r: bool)
        ensures
            r == self.path_is_file(path@),
    ;

    /// Determines whether a path is a directory.
    fn is_dir(&self, path: &FsPath) -> (r: bool)
        ensures
            r == self.path_is_dir(path@),
    ;

    /// Reads the literal target of the symbolic link at `path`.  Fails at
    /// least whenever `path` is not a symlink; a backend may also fail for
    /// reasons of its own (a broken system call, say).
    fn read_link(&self, path: &FsPath) -> (r: Result<FsPath, FileSystemError>)
        ensures
            !self.path_is_symlink(path@) ==> r is Err,
            r is Ok ==> (r->Ok_0)@ == self.link_target(path@),
    ;

    /// Creates a symbolic link at `dest` pointing to `src`.  Fails at least
    /// when `dest` already exists or its parent is not a directory; on
    /// failure nothing has changed.  On success only `dest` has changed, and
    /// it is now a symlink recording `src`.
    fn create_symlink(&mut self, src: &FsPath, dest: &FsPath) -> (r: Result<(), FileSystemError>)
        ensures
            old(self).path_exists(dest@) ==> r is Err,
            dest@.len() == 0 ==> r is Err,
            dest@.len() > 0 && !old(self).path_is_dir(dest@.drop_last()) ==> r is Err,
            r is Err ==> *final(self) == *old(self),
            r is Ok ==> final(self).path_is_symlink(dest@) && final(self).path_exists(dest@)
                && final(self).link_target(dest@) == src@,
            r is Ok ==> forall|q: Seq<Seq<char>>|
                q != dest@ ==> final(self).path_exists(q) == old(self).path_exists(q)
                    && final(self).path_is_symlink(q) == old(self).path_is_symlink(q)
                    && final(self).path_is_file(q) == old(self).path_is_file(q)
                    && final(self).path_is_dir(q) == old(self).path_is_dir(q)
                    && (old(self).path_is_symlink(q) ==> final(self).link_target(q)
                        == old(self).link_target(q)),
    ;
}

/// An in-memory simulated filesystem: a record of (path, entry) pairs.
///
/// The empty path stands for the root, which always exists and is a
/// directory.  A later record for a path shadows an earlier one.
#[derive(Debug, Clone)]
pub struct MemFileSystem {
    pub entries: Vec<(FsPath, FsEntry)>,
}

proof fn lemma_lookup_push(entries: Seq<(FsPath, FsEntry)>, record: (FsPath, FsEntry), path: Seq<Seq<char>>)
    ensures
        lookup(entries.push(record), path) == if record.0@ == path {
            Some(record.1)
        } else {
            lookup(entries, path)
        },
{
    assert(entries.push(record).last() == record);
    assert(entries.push(record).drop_last() =~= entries);
}

impl MemFileSystem {
    /// A filesystem holding nothing but the root.
    pub fn new() -> (r: MemFileSystem)
        ensures
            r.entries@ == Seq::<(FsPath, FsEntry)>::empty(),
    {
        let r = MemFileSystem { entries: Vec::new() };
        proof {
            assert(r.entries@ =~= Seq::<(FsPath, FsEntry)>::empty());
        }
        r
    }

    /// Records `entry` at `path`, shadowing whatever stood there.
    pub fn insert(&mut self, path: FsPath, entry: FsEntry)
        ensures
            lookup(final(self).entries@, path@) == Some(entry),
            forall|q: Seq<Seq<char>>|
                q != path@ ==> lookup(final(self).entries@, q) == lookup(old(self).entries@, q),
    {
        let ghost old_entries = self.entries@;
        let ghost record = (path, entry);
        self.entries.push((path, entry));
        proof {
            assert forall|q: Seq<Seq<char>>| true implies lookup(self.entries@, q) == if record.0@
                == q {
                Some(record.1)
            } else {
                lookup(old_entries, q)
            } by {
                lemma_lookup_push(old_entries, record, q);
            }
        }
    }

    /// Records a regular file at `path`.
    pub fn insert_file(&mut self, path: FsPath)
        ensures
            lookup(final(self).entries@, path@) == Some(FsEntry::File),
            forall|q: Seq<Seq<char>>|
                q != path@ ==> lookup(final(self).entries@, q) == lookup(old(self).entries@, q),
    {
        self.insert(path, FsEntry::File);
    }

    /// Records a directory at `path`.
    pub fn insert_dir(&mut self, path: FsPath)
        ensures
            lookup(final(self).entries@, path@) == Some(FsEntry::Dir),
            forall|q: Seq<Seq<char>>|
                q != path@ ==> lookup(final(self).entries@, q) == lookup(old(self).entries@, q),
    {
        self.insert(path, FsEntry::Dir);
    }

    /// Records a symlink at `link` whose target is `target`.
    pub fn insert_symlink(&mut self, link: FsPath, target: FsPath)
        ensures
            lookup(final(self).entries@, link@) == Some(FsEntry::Symlink { target }),
            forall|q: Seq<Seq<char>>|
                q != link@ ==> lookup(final(self).entries@, q) == lookup(old(self).entries@, q),
    {
        self.insert(link, FsEntry::Symlink { target });
    }

    /// The newest record for `path`, if any.
    fn find_entry(&self, path: &FsPath) -> (r: Option<&FsEntry>)
        ensures
            match r {
                Some(e) => lookup(self.entries@, path@) == Some(*e),
                None => lookup(self.entries@, path@) is None,
            },
    {
        let mut i = self.entries.len();
        proof {
            assert(self.entries@.take(i as int) =~= self.entries@);
        }
        while i > 0
            invariant
                i <= self.entries.len(),
                lookup(self.entries@, path@) == lookup(self.entries@.take(i as int), path@),
            decreases i,
        {
            i = i - 1;
            if self.entries[i].0.path_eq(path) {
                proof {
                    assert(self.entries@.take(i as int + 1).last() == self.entries@[i as int]);
                }
                return Some(&self.entries[i].1);
            }
            proof {
                assert(self.entries@.take(i as int + 1).last() == self.entries@[i as int]);
                assert(self.entries@.take(i as int + 1).drop_last() =~= self.entries@.take(
                    i as int,
                ));
            }
        }
        proof {
            assert(self.entries@.take(0) =~= Seq::<(FsPath, FsEntry)>::empty());
        }
        None
    }
}

impl FileSystemOps for MemFileSystem {
    open spec fn path_exists(&self, path: Seq<Seq<char>>) -> bool {
        path.len() == 0 || lookup(self.entries@, path) is Some
    }

    open spec fn path_is_symlink(&self, path: Seq<Seq<char>>) -> bool {
        lookup(self.entries@, path) matches Some(FsEntry::Symlink { .. })
    }

    open spec fn path_is_file(&self, path: Seq<Seq<char>>) -> bool {
        lookup(self.entries@, path) matches Some(FsEntry::File)
    }

    open spec fn path_is_dir(&self, path: Seq<Seq<char>>) -> bool {
        path.len() == 0 || lookup(self.entries@, path) matches Some(FsEntry::Dir)
    }

    open spec fn link_target(&self, path: Seq<Seq<char>>) -> Seq<Seq<char>> {
        match lookup(self.entries@, path) {
            Some(FsEntry::Symlink { target }) => target@,
            _ => Seq::empty(),
        }
    }

    fn entry_exists(&self, path: &FsPath) -> (r: bool) {
        if path.len() == 0 {
            return true;
        }
        self.find_entry(path).is_some()
    }

    fn is_symlink(&self, path: &FsPath) -> (r: bool) {
        match self.find_entry(path) {
            Some(FsEntry::Symlink { .. }) => true,
            _ => false,
        }
    }

    fn is_file(&self, path: &FsPath) -> (r: bool) {
        match self.find_entry(path) {
            Some(FsEntry::File) => true,
            _ => false,
        }
    }

    fn is_dir(&self, path: &FsPath) -> (r: bool) {
        if path.len() == 0 {
            return true;
        }
        match self.find_entry(path) {
            Some(FsEntry::Dir) => true,
            _ => false,
        }
    }

    fn read_link(&self, path: &FsPath) -> (r: Result<FsPath, FileSystemError>)
        ensures
            r is Ok <==> self.path_is_symlink(path@),
    {
        match self.find_entry(path) {
            Some(FsEntry::Symlink { target }) => Ok(target.duplicate()),
            _ => Err(
                FileSystemError::LinkError {
                    path: path.duplicate(),
                    message: "not a symbolic link".to_owned(),
                },
            ),
        }
    }

    fn create_symlink(&mut self, src: &FsPath, dest: &FsPath) -> (r: Result<
        (),
        FileSystemError,
    >)
        ensures
            r is Ok <==> (!old(self).path_exists(dest@) && dest@.len() > 0 && old(
                self,
            ).path_is_dir(dest@.drop_last())),
    {
        if dest.len() == 0 || self.entry_exists(dest) {
            return Err(
                FileSystemError::SymLinkError {
                    src: src.duplicate(),
                    dest: dest.duplicate(),
                    message: "destination already exists".to_owned(),
                },
            );
        }
        let mut parent = dest.duplicate();
        parent.segments.pop();
        proof {
            assert(parent@ =~= dest@.drop_last());
        }
        if !self.is_dir(&parent) {
            return Err(
                FileSystemError::SymLinkError {
                    src: src.duplicate(),
                    dest: dest.duplicate(),
                    message: "parent of the destination is not a directory".to_owned(),
                },
            );
        }
        self.insert_symlink(dest.duplicate(), src.duplicate());
        Ok(())
    }
}

} // verus!
