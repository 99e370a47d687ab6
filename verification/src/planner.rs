//! The planning engine.
//!
//! [`Planner::plan`] consumes a list of (source, destination) path pairs and
//! classifies each one against the current destination state into exactly one
//! [`Operation`], accumulating them into a [`Plan`].  Planning is total (it
//! never fails), deterministic, and performs no mutation: the planner only
//! holds the query half of the filesystem capability behind a shared borrow.
//!
//! The classification is deliberately conservative: an existing destination
//! entry is never overwritten, deleted or relinked, whatever it is — all
//! "destination exists" cases fold into [`Operation::NoOp`].  The
//! [`Operation::Warn`] variant is the designed extension point for a future
//! conflict-resolution pass; no classification branch produces it today.

use vstd::prelude::*;

use crate::filesystem::{FileSystemError, FileSystemOps};
use crate::path::FsPath;
use crate::walker::{FileMapping, MappingModel};

verus! {

/// A planned action for one path pair.
#[derive(Debug, Clone, PartialEq, Eq)]
pub enum Operation {
    /// The destination should become a symlink pointing at `src`.
    Link { src: FsPath, dest: FsPath },
    /// The destination directory must be created.
    MkDir { path: FsPath },
    /// The destination is in a state the planner cannot safely resolve; no
    /// mutation should be attempted for this pair.
    Warn { message: String },
    /// The destination already satisfies the mirror invariant; nothing to do.
    NoOp,
}

/// Spec-level picture of an [`Operation`].
pub enum OperationModel {
    Link { src: Seq<Seq<char>>, dest: Seq<Seq<char>> },
    MkDir { path: Seq<Seq<char>> },
    Warn { message: Seq<char> },
    NoOp,
}

impl View for Operation {
    type V = OperationModel;

    open spec fn view(&self) -> OperationModel {
        match self {
            Operation::Link { src, dest } => OperationModel::Link { src: src@, dest: dest@ },
            Operation::MkDir { path } => OperationModel::MkDir { path: path@ },
            Operation::Warn { message } => OperationModel::Warn { message: message@ },
            Operation::NoOp => OperationModel::NoOp,
        }
    }
}

impl DeepView for Operation {
    type V = OperationModel;

    open spec fn deep_view(&self) -> OperationModel {
        self@
    }
}

/// An ordered sequence of operations: the sole artifact planning produces.
///
/// Append-only while it is built; read-only to any consumer.  The order is
/// exactly the order the operations were appended in, and it is never
/// silently rearranged.
#[derive(Debug, Clone)]
pub struct Plan {
    pub operations: Vec<Operation>,
}

impl View for Plan {
    type V = Seq<OperationModel>;

    open spec fn view(&self) -> Seq<OperationModel> {
        self.operations.deep_view()
    }
}

impl Default for Plan {
    /// The empty plan.
    fn default() -> (r: Plan)
        ensures
            r@ == Seq::<OperationModel>::empty(),
    {
        let r = Plan { operations: Vec::new() };
        proof {
            assert(r@ =~= Seq::<OperationModel>::empty());
        }
        r
    }
}

impl Plan {
    /// Appends one operation at the end.
    pub fn add(&mut self, op: Operation)
        ensures
            final(self)@ == old(self)@.push(op@),
    {
        self.operations.push(op);
        proof {
            assert(self@ =~= old(self)@.push(op@));
        }
    }
}

/// Errors a planning host may surface; planning itself never fails.
#[derive(Debug, Clone, PartialEq, Eq)]
pub enum PlannerError {
    FileSystemError(FileSystemError),
}

/// How one path pair is classified against the destination state: a link
/// where the destination is free and the source is a file, a directory
/// creation where it is free and the source is a directory, and nothing
/// otherwise.
pub open spec fn evaluate_model<F: FileSystemOps>(
    fs: &F,
    src: Seq<Seq<char>>,
    dest: Seq<Seq<char>>,
) -> OperationModel {
    if !fs.path_exists(dest) && fs.path_is_file(src) {
        OperationModel::Link { src, dest }
    } else if !fs.path_exists(dest) && fs.path_is_dir(src) {
        OperationModel::MkDir { path: dest }
    } else {
        OperationModel::NoOp
    }
}

/// The whole plan for a list of mappings: each pair classified in order, one
/// operation per pair.
pub open spec fn plan_model<F: FileSystemOps>(fs: &F, mappings: Seq<MappingModel>) -> Seq<
    OperationModel,
> {
    mappings.map_values(|m: MappingModel| evaluate_model(fs, m.source, m.dest))
}

/// The planner: the filesystem capability plus the classification rules.
pub struct Planner<F: FileSystemOps> {
    pub fs: F,
}

impl<F: FileSystemOps> Planner<F> {
    /// A planner reading destination state through `fs`.
    pub fn new(fs: F) -> (r: Planner<F>)
        ensures
            r.fs == fs,
    {
        Planner { fs }
    }

    /// Classifies every mapping, in mapping order, into exactly one
    /// operation.  By contract this cannot fail: any anomaly is an operation
    /// inside the plan, never an error.
    pub fn plan(&self, mappings: &Vec<FileMapping>) -> (p: Plan)
        ensures
            p@ == plan_model(&self.fs, mappings.deep_view()),
    {
        let mut p = Plan::default();
        for i in 0..mappings.len()
            invariant
                p@.len() == i,
                forall|j: int|
                    0 <= j < i ==> p@[j] == evaluate_model(
                        &self.fs,
                        mappings.deep_view()[j].source,
                        mappings.deep_view()[j].dest,
                    ),
        {
            let op = self.evaluate(&mappings[i].source, &mappings[i].dest);
            p.add(op);
        }
        proof {
            assert(p@ =~= plan_model(&self.fs, mappings.deep_view()));
        }
        p
    }

    /// Classifies one pair.  A pure function of the pair and the destination
    /// state at call time: no hidden state is retained across calls.
    fn evaluate(&self, src: &FsPath, dest: &FsPath) -> (op: Operation)
        ensures
            op@ == evaluate_model(&self.fs, src@, dest@),
    {
        let exists = self.fs.entry_exists(dest);

        if !exists && self.fs.is_file(src) {
            return Operation::Link { src: src.duplicate(), dest: dest.duplicate() };
        } else if !exists && self.fs.is_dir(src) {
            return Operation::MkDir { path: dest.duplicate() };
        }

        Operation::NoOp
    }
}

/// Law: planning is idempotent.  Classification is a pure function of the
/// mappings and of the destination state at call time, so two plans computed
/// against unchanged state — planning twice before any apply — are
/// identical.
pub proof fn lemma_plan_idempotent<F: FileSystemOps>(
    fs: &F,
    mappings: Seq<MappingModel>,
    first: Seq<OperationModel>,
    second: Seq<OperationModel>,
)
    requires
        first == plan_model(fs, mappings),
        second == plan_model(fs, mappings),
    ensures
        first == second,
{
}

} // verus!
