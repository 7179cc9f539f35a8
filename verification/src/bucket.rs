//! The bucket tool: list the keys of a bucket, put files in it, remove keys
//! from it. A command is turned into the sequence of store operations it
//! performs; they are performed in order and the first failure ends the run.

use vstd::prelude::*;
use vstd::slice::slice_to_vec;

verus! {

/// Commands on remote buckets.
#[derive(Clone, Debug, PartialEq, Eq)]
pub struct Cmd {
    pub cmd: BucketCmd,
}

/// The bucket commands.
#[derive(Clone, Debug, PartialEq, Eq)]
pub enum BucketCmd {
    Ls(List),
    Rm(Remove),
    Put(Put),
}

/// List keys in a given bucket.
#[derive(Clone, Debug, PartialEq, Eq)]
pub struct List {
    pub bucket: String,
}

/// Put one or more files in a given bucket. Each file is given by the bytes of
/// its path.
#[derive(Clone, Debug, PartialEq, Eq)]
pub struct Put {
    pub bucket: String,
    pub files: Vec<Vec<u8>>,
}

/// Remove one or more keys from a given bucket.
#[derive(Clone, Debug, PartialEq, Eq)]
pub struct Remove {
    pub bucket: String,
    pub keys: Vec<String>,
}

/// One operation on the store.
#[derive(Clone, Debug, PartialEq, Eq)]
pub enum BucketOp {
    /// List the keys of the bucket.
    List { bucket: String },
    /// Store the file at the path (given by its bytes) in the bucket.
    Put { bucket: String, file: Vec<u8> },
    /// Remove the key from the bucket.
    Remove { bucket: String, key: String },
}

/// The view of a store operation.
pub enum BucketOpView {
    List { bucket: Seq<char> },
    Put { bucket: Seq<char>, file: Seq<u8> },
    Remove { bucket: Seq<char>, key: Seq<char> },
}

impl View for BucketOp {
    type V = BucketOpView;

    open spec fn view(&self) -> BucketOpView {
        match self {
            BucketOp::List { bucket } => BucketOpView::List { bucket: bucket@ },
            BucketOp::Put { bucket, file } => BucketOpView::Put { bucket: bucket@, file: file@ },
            BucketOp::Remove { bucket, key } => BucketOpView::Remove { bucket: bucket@, key: key@ },
        }
    }
}

/// The view of a list of operations.
pub open spec fn ops_view(ops: Seq<BucketOp>) -> Seq<BucketOpView> {
    ops.map_values(|op: BucketOp| op@)
}

impl List {
    /// The operations of the command: one listing of the bucket.
    pub open spec fn spec_ops(&self) -> Seq<BucketOpView> {
        seq![BucketOpView::List { bucket: self.bucket@ }]
    }

    pub fn ops(&self) -> (ops: Vec<BucketOp>)
        ensures
            ops_view(ops@) == self.spec_ops(),
    {
        let mut ops: Vec<BucketOp> = Vec::new();
        ops.push(BucketOp::List { bucket: self.bucket.clone() });
        assert(ops_view(ops@) =~= self.spec_ops());
        ops
    }
}

impl Put {
    /// The operations of the command: one store per file, in the given order.
    pub open spec fn spec_ops(&self) -> Seq<BucketOpView> {
        Seq::new(self.files@.len(), |i: int| BucketOpView::Put { bucket: self.bucket@, file: self.files@[i]@ })
    }

    pub fn ops(&self) -> (ops: Vec<BucketOp>)
        ensures
            ops_view(ops@) == self.spec_ops(),
    {
        let mut ops: Vec<BucketOp> = Vec::new();
        let mut i: usize = 0;
        while i < self.files.len()
            invariant
                i <= self.files@.len(),
                ops_view(ops@) =~= self.spec_ops().take(i as int),
            decreases self.files@.len() - i,
        {
            let file = slice_to_vec(self.files[i].as_slice());
            let ghost prev = ops@;
            ops.push(BucketOp::Put { bucket: self.bucket.clone(), file });
            assert(ops_view(ops@) =~= ops_view(prev).push(ops@[i as int]@));
            assert(self.spec_ops().take(i + 1) =~= self.spec_ops().take(i as int).push(self.spec_ops()[i as int]));
            i = i + 1;
        }
        assert(self.spec_ops().take(self.files@.len() as int) =~= self.spec_ops());
        ops
    }
}

impl Remove {
    /// The operations of the command: one removal per key, in the given order.
    pub open spec fn spec_ops(&self) -> Seq<BucketOpView> {
        Seq::new(self.keys@.len(), |i: int| BucketOpView::Remove { bucket: self.bucket@, key: self.keys@[i]@ })
    }

    pub fn ops(&self) -> (ops: Vec<BucketOp>)
        ensures
            ops_view(ops@) == self.spec_ops(),
    {
        let mut ops: Vec<BucketOp> = Vec::new();
        let mut i: usize = 0;
        while i < self.keys.len()
            invariant
                i <= self.keys@.len(),
                ops_view(ops@) =~= self.spec_ops().take(i as int),
            decreases self.keys@.len() - i,
        {
            let ghost prev = ops@;
            ops.push(BucketOp::Remove { bucket: self.bucket.clone(), key: self.keys[i].clone() });
            assert(ops_view(ops@) =~= ops_view(prev).push(ops@[i as int]@));
            assert(self.spec_ops().take(i + 1) =~= self.spec_ops().take(i as int).push(self.spec_ops()[i as int]));
            i = i + 1;
        }
        assert(self.spec_ops().take(self.keys@.len() as int) =~= self.spec_ops());
        ops
    }
}

impl BucketCmd {
    /// The operations of the chosen command.
    pub open spec fn spec_ops(&self) -> Seq<BucketOpView> {
        match self {
            BucketCmd::Ls(cmd) => cmd.spec_ops(),
            BucketCmd::Rm(cmd) => cmd.spec_ops(),
            BucketCmd::Put(cmd) => cmd.spec_ops(),
        }
    }

    pub fn ops(&self) -> (ops: Vec<BucketOp>)
        ensures
            ops_view(ops@) == self.spec_ops(),
    {
        match self {
            BucketCmd::Ls(cmd) => cmd.ops(),
            BucketCmd::Rm(cmd) => cmd.ops(),
            BucketCmd::Put(cmd) => cmd.ops(),
        }
    }
}

impl Cmd {
    /// The operations of the command, in the order they are performed.
    pub fn ops(&self) -> (ops: Vec<BucketOp>)
        ensures
            ops_view(ops@) == self.cmd.spec_ops(),
    {
        self.cmd.ops()
    }
}

/// Where a run of bucket operations stands after one more operation ended.
#[derive(Clone, Copy, Debug, PartialEq, Eq, Structural)]
pub enum RunStep {
    /// Perform the operation at this index next.
    Next(usize),
    /// Every operation succeeded.
    Finished,
    /// The operation at this index failed; the run ends with its error.
    Failed(usize),
}

/// The step after the operation at `index` of `count` ended with `succeeded`.
pub open spec fn run_next(count: nat, index: nat, succeeded: bool) -> RunStep {
    if !succeeded {
        RunStep::Failed(index as usize)
    } else if index + 1 < count {
        RunStep::Next((index + 1) as usize)
    } else {
        RunStep::Finished
    }
}

/// Decides what follows once the operation at `index` of `count` ended: the
/// next operation, the end of a successful run, or the end of a failed one.
pub fn next_step(count: usize, index: usize, succeeded: bool) -> (step: RunStep)
    requires
        index < count,
    ensures
        step == run_next(count as nat, index as nat, succeeded),
{
    if !succeeded {
        RunStep::Failed(index)
    } else if index + 1 < count {
        RunStep::Next(index + 1)
    } else {
        RunStep::Finished
    }
}

/// How a run of `count` operations starting at `index` ends when the
/// operations end with `results`: at the first failure, or when every
/// operation succeeded.
pub open spec fn run_from(count: nat, index: nat, results: Seq<bool>) -> RunStep
    decreases count - index,
{
    if index >= count {
        RunStep::Finished
    } else {
        match run_next(count, index, results[index as int]) {
            RunStep::Next(_) => run_from(count, index + 1, results),
            other => other,
        }
    }
}

/// A run of bucket operations performs them in order and ends with the first
/// one that fails; when none fails, it ends once all were performed.
pub proof fn lemma_run_stops_at_first_failure(count: nat, results: Seq<bool>, index: nat)
    requires
        results.len() == count,
        index <= count,
        count <= usize::MAX,
    ensures
        (forall|i: int| index <= i < count ==> #[trigger] results[i]) ==> run_from(count, index, results) == RunStep::Finished,
        forall|k: int|
            index <= k < count && !#[trigger] results[k] && (forall|i: int| index <= i < k ==> results[i])
                ==> run_from(count, index, results) == RunStep::Failed(k as usize),
    decreases count - index,
{
    if index < count {
        lemma_run_stops_at_first_failure(count, results, index + 1);
        assert forall|k: int|
            index <= k < count && !#[trigger] results[k] && (forall|i: int| index <= i < k ==> results[i])
                implies run_from(count, index, results) == RunStep::Failed(k as usize) by {
            if k > index {
                assert(results[index as int]);
            }
        }
    }
}

/// A remove command performs one removal per given key, from its bucket, in
/// the given order, and nothing else.
pub proof fn lemma_remove_ops(cmd: Remove)
    ensures
        cmd.spec_ops().len() == cmd.keys@.len(),
        forall|i: int| 0 <= i < cmd.keys@.len()
            ==> #[trigger] cmd.spec_ops()[i] == (BucketOpView::Remove { bucket: cmd.bucket@, key: cmd.keys@[i]@ }),
{
}

/// A put command stores each given file, in the given order, in its bucket,
/// and does nothing else.
pub proof fn lemma_put_ops(cmd: Put)
    ensures
        cmd.spec_ops().len() == cmd.files@.len(),
        forall|i: int| 0 <= i < cmd.files@.len()
            ==> #[trigger] cmd.spec_ops()[i] == (BucketOpView::Put { bucket: cmd.bucket@, file: cmd.files@[i]@ }),
{
}

/// A list command lists its bucket once.
pub proof fn lemma_list_ops(cmd: List)
    ensures
        cmd.spec_ops().len() == 1,
        cmd.spec_ops()[0] == (BucketOpView::List { bucket: cmd.bucket@ }),
{
}

} // verus!
