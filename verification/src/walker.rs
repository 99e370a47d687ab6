//! The tree walk: from a source tree to an ordered list of path pairs.
//!
//! The walk visits every entry of a source tree snapshot, skips any entry —
//! and, for a directory, its whole subtree — whose base name exactly matches
//! an ignore pattern, and emits one [`FileMapping`] per surviving file,
//! re-rooting its path from the source root onto the destination root.
//! Directories themselves never produce a pair.
//!
//! Enumerating a real directory tree is I/O and stays outside this library;
//! a host hands the walk an [`FsTree`] snapshot (or implements [`Walker`]
//! over real storage).  The walk itself never touches the destination.

use vstd::prelude::*;

use crate::path::FsPath;

verus! {

/// A (source file, destination) path pairing produced by the walk.
#[derive(Debug, Clone, PartialEq, Eq)]
pub struct FileMapping {
    pub source: FsPath,
    pub dest: FsPath,
}

/// Spec-level picture of a [`FileMapping`].
pub struct MappingModel {
    pub source: Seq<Seq<char>>,
    pub dest: Seq<Seq<char>>,
}

impl View for FileMapping {
    type V = MappingModel;

    open spec fn view(&self) -> MappingModel {
        MappingModel { source: self.source@, dest: self.dest@ }
    }
}

impl DeepView for FileMapping {
    type V = MappingModel;

    open spec fn deep_view(&self) -> MappingModel {
        self@
    }
}

/// Errors a walking host may surface; the in-memory walk itself cannot fail.
#[derive(Debug, Clone, PartialEq, Eq)]
pub enum WalkerError {
    /// An I/O failure during traversal.
    Io { message: String },
    /// A fault of the underlying traversal machinery.
    Traversal { message: String },
}

/// An in-memory snapshot of a source tree: a file leaf, or a directory with
/// named children in traversal order.
#[derive(Debug)]
pub enum FsTree {
    File,
    Dir { entries: Vec<TreeEntry> },
}

/// One named child inside a directory node.
#[derive(Debug)]
pub struct TreeEntry {
    pub name: String,
    pub node: FsTree,
}

/// Whether a base name exactly matches one of the ignore patterns.
pub open spec fn is_ignored(name: Seq<char>, patterns: Seq<Seq<char>>) -> bool {
    patterns.contains(name)
}

/// Tests an entry's base name against the ignore patterns, by exact string
/// equality.
pub fn should_ignore(file_name: &String, patterns: &Vec<String>) -> (r: bool)
    ensures
        r == is_ignored(file_name@, patterns.deep_view()),
{
    for i in 0..patterns.len()
        invariant
            forall|j: int| 0 <= j < i ==> patterns.deep_view()[j] != file_name@,
    {
        if patterns[i] == *file_name {
            proof {
                assert(patterns.deep_view()[i as int] == file_name@);
            }
            return true;
        }
    }
    false
}

/// The mappings produced below one node whose own base name is `name` and
/// which stands at `source` in the source tree and at `dest` under the
/// destination root: nothing if the name is ignored, one pair for a file,
/// and the children's mappings in order for a directory.
pub open spec fn walk_node_model(
    node: FsTree,
    name: Seq<char>,
    source: Seq<Seq<char>>,
    dest: Seq<Seq<char>>,
    ignore: Seq<Seq<char>>,
) -> Seq<MappingModel>
    decreases node, 0int,
{
    if is_ignored(name, ignore) {
        Seq::empty()
    } else {
        match node {
            FsTree::File => seq![MappingModel { source, dest }],
            FsTree::Dir { entries } => walk_entries_model(entries@, source, dest, ignore),
        }
    }
}

/// The mappings produced by a directory's children, in order.
pub open spec fn walk_entries_model(
    entries: Seq<TreeEntry>,
    source: Seq<Seq<char>>,
    dest: Seq<Seq<char>>,
    ignore: Seq<Seq<char>>,
) -> Seq<MappingModel>
    decreases entries, 1int,
{
    if entries.len() == 0 {
        Seq::empty()
    } else {
        let e = entries.first();
        walk_node_model(e.node, e.name@, source.push(e.name@), dest.push(e.name@), ignore)
            + walk_entries_model(entries.drop_first(), source, dest, ignore)
    }
}

/// The whole walk: the root node is tested under its own base name (the last
/// segment of the source root), and every surviving file under it is
/// re-rooted onto the destination root.
pub open spec fn walk_model(
    tree: FsTree,
    source_root: Seq<Seq<char>>,
    dest_root: Seq<Seq<char>>,
    ignore: Seq<Seq<char>>,
) -> Seq<MappingModel> {
    let root_name = if source_root.len() > 0 {
        source_root.last()
    } else {
        Seq::<char>::empty()
    };
    walk_node_model(tree, root_name, source_root, dest_root, ignore)
}

/// Walks a source tree snapshot and resolves destinations.
///
/// The walk only reads the snapshot: it performs no filesystem access at
/// all, so in particular it never touches the destination.
pub fn walk_tree(
    tree: &FsTree,
    source_root: &FsPath,
    dest_root: &FsPath,
    ignore_patterns: &Vec<String>,
) -> (r: Vec<FileMapping>)
    ensures
        r.deep_view() == walk_model(*tree, source_root@, dest_root@, ignore_patterns.deep_view()),
{
    let root_name: String = if source_root.segments.len() > 0 {
        source_root.segments[source_root.segments.len() - 1].clone()
    } else {
        String::new()
    };
    proof {
        if source_root.segments.len() > 0 {
            assert(root_name@ == source_root@.last());
        }
    }
    walk_into(tree, &root_name, source_root, dest_root, ignore_patterns)
}

/// Recursive core of the walk, one call per node.
fn walk_into(
    node: &FsTree,
    name: &String,
    source: &FsPath,
    dest: &FsPath,
    ignore_patterns: &Vec<String>,
) -> (r: Vec<FileMapping>)
    ensures
        r.deep_view() == walk_node_model(
            *node,
            name@,
            source@,
            dest@,
            ignore_patterns.deep_view(),
        ),
    decreases *node, 0int,
{
    let mut out: Vec<FileMapping> = Vec::new();
    if should_ignore(name, ignore_patterns) {
        proof {
            assert(out.deep_view() =~= walk_node_model(
                *node,
                name@,
                source@,
                dest@,
                ignore_patterns.deep_view(),
            ));
        }
        return out;
    }
    match node {
        FsTree::File => {
            out.push(FileMapping { source: source.duplicate(), dest: dest.duplicate() });
            proof {
                assert(out.deep_view() =~= walk_node_model(
                    *node,
                    name@,
                    source@,
                    dest@,
                    ignore_patterns.deep_view(),
                ));
            }
            out
        },
        FsTree::Dir { entries } => {
            let r = walk_entries_from(entries, 0, source, dest, ignore_patterns);
            proof {
                assert(entries@.skip(0) =~= entries@);
            }
            r
        },
    }
}

/// Walks the children of one directory, from index `i` on.
fn walk_entries_from(
    entries: &Vec<TreeEntry>,
    i: usize,
    source: &FsPath,
    dest: &FsPath,
    ignore_patterns: &Vec<String>,
) -> (r: Vec<FileMapping>)
    requires
        i <= entries.len(),
    ensures
        r.deep_view() == walk_entries_model(
            entries@.skip(i as int),
            source@,
            dest@,
            ignore_patterns.deep_view(),
        ),
    decreases *entries, entries@.len() - i,
{
    if i == entries.len() {
        let r: Vec<FileMapping> = Vec::new();
        proof {
            assert(entries@.skip(i as int) =~= Seq::<TreeEntry>::empty());
            assert(r.deep_view() =~= walk_entries_model(
                entries@.skip(i as int),
                source@,
                dest@,
                ignore_patterns.deep_view(),
            ));
        }
        return r;
    }
    let child_source = source.child(&entries[i].name);
    let child_dest = dest.child(&entries[i].name);
    proof {
        assert(decreases_to!(*entries => entries@));
        assert(decreases_to!(entries@ => entries@[i as int]));
        assert(decreases_to!(entries@[i as int] => entries@[i as int].node));
    }
    let mut r = walk_into(
        &entries[i].node,
        &entries[i].name,
        &child_source,
        &child_dest,
        ignore_patterns,
    );
    let mut rest = walk_entries_from(entries, i + 1, source, dest, ignore_patterns);
    let ghost head = r.deep_view();
    let ghost tail = rest.deep_view();
    r.append(&mut rest);
    proof {
        assert(r.deep_view() =~= head + tail);
        let e = entries@.skip(i as int).first();
        assert(e == entries@[i as int]);
        assert(entries@.skip(i as int).drop_first() =~= entries@.skip(i as int + 1));
        assert(r.deep_view() == walk_entries_model(
            entries@.skip(i as int),
            source@,
            dest@,
            ignore_patterns.deep_view(),
        ));
    }
    r
}

/// Whether `m` re-roots one relative path from `source` onto `dest`, with no
/// segment of that relative path matching an ignore pattern.
pub open spec fn extends_roots(
    m: MappingModel,
    source: Seq<Seq<char>>,
    dest: Seq<Seq<char>>,
    ignore: Seq<Seq<char>>,
) -> bool {
    exists|rel: Seq<Seq<char>>|
        #![auto]
        m.source == source + rel && m.dest == dest + rel && (forall|k: int|
            0 <= k < rel.len() ==> !ignore.contains(rel[k]))
}

proof fn lemma_walk_node_extends(
    node: FsTree,
    name: Seq<char>,
    source: Seq<Seq<char>>,
    dest: Seq<Seq<char>>,
    ignore: Seq<Seq<char>>,
)
    ensures
        forall|i: int|
            0 <= i < walk_node_model(node, name, source, dest, ignore).len() ==> extends_roots(
                #[trigger] walk_node_model(node, name, source, dest, ignore)[i],
                source,
                dest,
                ignore,
            ),
        walk_node_model(node, name, source, dest, ignore).len() > 0 ==> !ignore.contains(name),
    decreases node, 0int,
{
    if !is_ignored(name, ignore) {
        match node {
            FsTree::File => {
                let rel = Seq::<Seq<char>>::empty();
                assert(source + rel =~= source);
                assert(dest + rel =~= dest);
                assert(forall|k: int| 0 <= k < rel.len() ==> !ignore.contains(rel[k]));
                assert(extends_roots(MappingModel { source, dest }, source, dest, ignore));
                assert forall|i: int|
                    0 <= i < walk_node_model(node, name, source, dest, ignore).len() implies
                    extends_roots(
                        walk_node_model(node, name, source, dest, ignore)[i],
                        source,
                        dest,
                        ignore,
                    ) by {
                    assert(walk_node_model(node, name, source, dest, ignore)[i]
                        == MappingModel { source, dest });
                }
            },
            FsTree::Dir { entries } => {
                lemma_walk_entries_extends(entries@, source, dest, ignore);
                assert(walk_node_model(node, name, source, dest, ignore) == walk_entries_model(
                    entries@,
                    source,
                    dest,
                    ignore,
                ));
                assert forall|i: int|
                    0 <= i < walk_node_model(node, name, source, dest, ignore).len() implies
                    extends_roots(
                        walk_node_model(node, name, source, dest, ignore)[i],
                        source,
                        dest,
                        ignore,
                    ) by {
                    assert(walk_node_model(node, name, source, dest, ignore)[i]
                        == walk_entries_model(entries@, source, dest, ignore)[i]);
                }
            },
        }
    }
}

proof fn lemma_walk_entries_extends(
    entries: Seq<TreeEntry>,
    source: Seq<Seq<char>>,
    dest: Seq<Seq<char>>,
    ignore: Seq<Seq<char>>,
)
    ensures
        forall|i: int|
            0 <= i < walk_entries_model(entries, source, dest, ignore).len() ==> extends_roots(
                #[trigger] walk_entries_model(entries, source, dest, ignore)[i],
                source,
                dest,
                ignore,
            ),
    decreases entries, 1int,
{
    if entries.len() > 0 {
        let e = entries.first();
        let child_source = source.push(e.name@);
        let child_dest = dest.push(e.name@);
        let head = walk_node_model(e.node, e.name@, child_source, child_dest, ignore);
        let tail = walk_entries_model(entries.drop_first(), source, dest, ignore);
        lemma_walk_node_extends(e.node, e.name@, child_source, child_dest, ignore);
        lemma_walk_entries_extends(entries.drop_first(), source, dest, ignore);
        assert forall|i: int| 0 <= i < (head + tail).len() implies extends_roots(
            (head + tail)[i],
            source,
            dest,
            ignore,
        ) by {
            if i < head.len() {
                assert((head + tail)[i] == head[i]);
                assert(extends_roots(head[i], child_source, child_dest, ignore));
                assert(!ignore.contains(e.name@));
                let rel = choose|rel: Seq<Seq<char>>|
                    #![auto]
                    head[i].source == child_source + rel && head[i].dest == child_dest + rel && (
                    forall|k: int| 0 <= k < rel.len() ==> !ignore.contains(rel[k]));
                let below = seq![e.name@] + rel;
                assert(child_source + rel =~= source + below);
                assert(child_dest + rel =~= dest + below);
                assert(below[0] == e.name@);
                assert(forall|k: int| 0 <= k < below.len() ==> !ignore.contains(below[k])) by {
                    assert forall|k: int| 0 <= k < below.len() implies !ignore.contains(
                        below[k],
                    ) by {
                        if k > 0 {
                            assert(below[k] == rel[k - 1]);
                        }
                    }
                }
                assert(head[i].source == source + below && head[i].dest == dest + below && (
                forall|k: int| 0 <= k < below.len() ==> !ignore.contains(below[k])));
                assert(extends_roots(head[i], source, dest, ignore));
            } else {
                assert((head + tail)[i] == tail[i - head.len()]);
                assert(extends_roots(tail[i - head.len()], source, dest, ignore));
            }
        }
    }
}

/// Law: round-trip mapping construction.  Every mapping the walk produces is
/// one relative path re-rooted: its destination is the destination root
/// joined with exactly the path of the file below the source root.
pub proof fn lemma_walk_round_trip(
    tree: FsTree,
    source_root: Seq<Seq<char>>,
    dest_root: Seq<Seq<char>>,
    ignore: Seq<Seq<char>>,
    i: int,
)
    requires
        0 <= i < walk_model(tree, source_root, dest_root, ignore).len(),
    ensures
        exists|rel: Seq<Seq<char>>|
            #![auto]
            walk_model(tree, source_root, dest_root, ignore)[i].source == source_root + rel
                && walk_model(tree, source_root, dest_root, ignore)[i].dest == dest_root + rel,
{
    let root_name = if source_root.len() > 0 {
        source_root.last()
    } else {
        Seq::<char>::empty()
    };
    lemma_walk_node_extends(tree, root_name, source_root, dest_root, ignore);
    let m = walk_model(tree, source_root, dest_root, ignore)[i];
    let rel = choose|rel: Seq<Seq<char>>|
        #![auto]
        m.source == source_root + rel && m.dest == dest_root + rel && (forall|k: int|
            0 <= k < rel.len() ==> !ignore.contains(rel[k]));
    assert(m.source == source_root + rel && m.dest == dest_root + rel);
}

/// Law: ignore filtering.  No mapping the walk produces descends through an
/// ignored name: each one's source extends the source root, no segment below
/// the root matches an ignore pattern, and nothing at all is produced under
/// a root whose own name is ignored.
pub proof fn lemma_walk_ignore_filtering(
    tree: FsTree,
    source_root: Seq<Seq<char>>,
    dest_root: Seq<Seq<char>>,
    ignore: Seq<Seq<char>>,
    i: int,
)
    requires
        0 <= i < walk_model(tree, source_root, dest_root, ignore).len(),
    ensures
        walk_model(tree, source_root, dest_root, ignore)[i].source.take(source_root.len() as int)
            == source_root,
        forall|j: int|
            source_root.len() <= j < walk_model(tree, source_root, dest_root, ignore)[i].source.len()
                ==> !ignore.contains(
                #[trigger] walk_model(tree, source_root, dest_root, ignore)[i].source[j],
            ),
        source_root.len() > 0 ==> !ignore.contains(source_root.last()),
{
    let root_name = if source_root.len() > 0 {
        source_root.last()
    } else {
        Seq::<char>::empty()
    };
    lemma_walk_node_extends(tree, root_name, source_root, dest_root, ignore);
    let m = walk_model(tree, source_root, dest_root, ignore)[i];
    let rel = choose|rel: Seq<Seq<char>>|
        #![auto]
        m.source == source_root + rel && m.dest == dest_root + rel && (forall|k: int|
            0 <= k < rel.len() ==> !ignore.contains(rel[k]));
    assert(m.source.take(source_root.len() as int) =~= source_root);
    assert forall|j: int| source_root.len() <= j < m.source.len() implies !ignore.contains(
        m.source[j],
    ) by {
        assert(m.source[j] == rel[j - source_root.len()]);
    }
}

/// A tree with no file leaf anywhere below it.
pub open spec fn tree_has_no_files(node: FsTree) -> bool
    decreases node, 0int,
{
    match node {
        FsTree::File => false,
        FsTree::Dir { entries } => entries_have_no_files(entries@),
    }
}

/// Whether none of these children contains a file leaf.
pub open spec fn entries_have_no_files(entries: Seq<TreeEntry>) -> bool
    decreases entries, 1int,
{
    entries.len() == 0 || (tree_has_no_files(entries.first().node) && entries_have_no_files(
        entries.drop_first(),
    ))
}

proof fn lemma_walk_node_no_files(
    node: FsTree,
    name: Seq<char>,
    source: Seq<Seq<char>>,
    dest: Seq<Seq<char>>,
    ignore: Seq<Seq<char>>,
)
    requires
        tree_has_no_files(node),
    ensures
        walk_node_model(node, name, source, dest, ignore) == Seq::<MappingModel>::empty(),
    decreases node, 0int,
{
    if !is_ignored(name, ignore) {
        match node {
            FsTree::File => {
            },
            FsTree::Dir { entries } => {
                lemma_walk_entries_no_files(entries@, source, dest, ignore);
            },
        }
    }
}

proof fn lemma_walk_entries_no_files(
    entries: Seq<TreeEntry>,
    source: Seq<Seq<char>>,
    dest: Seq<Seq<char>>,
    ignore: Seq<Seq<char>>,
)
    requires
        entries_have_no_files(entries),
    ensures
        walk_entries_model(entries, source, dest, ignore) == Seq::<MappingModel>::empty(),
    decreases entries, 1int,
{
    if entries.len() > 0 {
        let e = entries.first();
        lemma_walk_node_no_files(
            e.node,
            e.name@,
            source.push(e.name@),
            dest.push(e.name@),
            ignore,
        );
        lemma_walk_entries_no_files(entries.drop_first(), source, dest, ignore);
        assert(walk_entries_model(entries, source, dest, ignore) =~= Seq::<
            MappingModel,
        >::empty());
    }
}

/// Law: directory-skip.  Directories alone produce no mappings: walking a
/// tree that contains no file leaf — an empty subdirectory, say — yields an
/// empty mapping list.
pub proof fn lemma_walk_directories_only(
    tree: FsTree,
    source_root: Seq<Seq<char>>,
    dest_root: Seq<Seq<char>>,
    ignore: Seq<Seq<char>>,
)
    requires
        tree_has_no_files(tree),
    ensures
        walk_model(tree, source_root, dest_root, ignore) == Seq::<MappingModel>::empty(),
{
    let root_name = if source_root.len() > 0 {
        source_root.last()
    } else {
        Seq::<char>::empty()
    };
    lemma_walk_node_no_files(tree, root_name, source_root, dest_root, ignore);
}

/// Abstraction layer for recursively walking directories.
///
/// An implementation walks some source tree — its `snapshot` — and resolves
/// destination paths; a host backed by real storage may fail with a
/// [`WalkerError`], and a single failure yields no partial list.
pub trait Walker: Sized {
    /// The source tree the walk would see.
    open spec fn snapshot(&self) -> FsTree {
        arbitrary()
    }

    /// Walks the directory and resolves destinations.
    fn walk(
        &self,
        source_root: &FsPath,
        dest_root: &FsPath,
        ignore_patterns: &Vec<String>,
    ) -> (r: Result<Vec<FileMapping>, WalkerError>)
        ensures
            r is Ok ==> (r->Ok_0).deep_view() == walk_model(
                self.snapshot(),
                source_root@,
                dest_root@,
                ignore_patterns.deep_view(),
            ),
    ;
}

/// A walker over an in-memory snapshot; it cannot fail.
#[derive(Debug)]
pub struct TreeWalker {
    pub tree: FsTree,
}

impl Walker for TreeWalker {
    open spec fn snapshot(&self) -> FsTree {
        self.tree
    }

    fn walk(
        &self,
        source_root: &FsPath,
        dest_root: &FsPath,
        ignore_patterns: &Vec<String>,
    ) -> (r: Result<Vec<FileMapping>, WalkerError>)
        ensures
            r is Ok,
    {
        Ok(walk_tree(&self.tree, source_root, dest_root, ignore_patterns))
    }
}

} // verus!
