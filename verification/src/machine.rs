//! Machines: a name and the disks that were found on the machine, and the
//! creation of a machine, stage by stage: the library asks, the caller answers
//! from the catalog, the pool and the machine itself.

use vstd::prelude::*;
use vstd::string::StringExecFns;
use crate::base::{zfs, Command, CommandView, Operation, Status};
use crate::disk::{
    create_zvols, disk_identity, disk_views, fault_text, first_fault, machine_path, parse_output,
    parse_output_spec, pool_unset_text, volume_operation, volume_path, Disk, DiskError, DiskView,
    ProvisionError,
};
use crate::text::concat;

verus! {

/// A machine of the inventory.
#[derive(Debug, PartialEq)]
pub struct Machine {
    pub name: String,
    pub disks: Vec<Disk>,
}

/// What a `Machine` holds, as mathematical values.
pub struct MachineView {
    pub name: Seq<char>,
    pub disks: Seq<DiskView>,
}

impl View for Machine {
    type V = MachineView;

    open spec fn view(&self) -> MachineView {
        MachineView { name: self.name@, disks: disk_views(self.disks@) }
    }
}

/// What the catalog holds under a machine's name.
#[derive(Debug)]
pub enum Record {
    /// Nothing.
    Missing,
    /// Something that cannot be read as a machine.
    Corrupt,
    /// A machine.
    Found(Machine),
}

/// Why the catalog cannot give a machine.
#[derive(Clone, Copy, Debug, PartialEq, Eq, Structural)]
pub enum CatalogError {
    /// The record under the name cannot be read as a machine.
    Corrupt,
}

/// The machine of a name, given what the catalog holds under it. A name that
/// the catalog does not hold has no machine; that is no error. A record that
/// cannot be read is one.
pub fn get_machine(record: Record) -> (r: Result<Option<Machine>, CatalogError>)
    ensures
        match record {
            Record::Missing => r == Ok::<Option<Machine>, CatalogError>(None),
            Record::Corrupt => r == Err::<Option<Machine>, CatalogError>(CatalogError::Corrupt),
            Record::Found(machine) => r == Ok::<Option<Machine>, CatalogError>(Some(machine)),
        },
{
    match record {
        Record::Missing => Ok(None),
        Record::Corrupt => Err(CatalogError::Corrupt),
        Record::Found(machine) => Ok(Some(machine)),
    }
}

/// Why a machine cannot be created.
#[derive(Debug)]
pub enum NewError {
    /// The catalog holds a machine of this name already.
    MachineExists,
    /// No storage pool has been set.
    PoolUnset,
    /// The dataset of the machine exists on the pool already.
    DatasetExists { path: String },
    /// The query for the dataset of the machine could not be run.
    DatasetCheckNotRun,
    /// One of the machine's disks cannot be trusted.
    Disk(DiskError),
    /// The catalog does not hold the machine after it was stored.
    NotStored,
    /// The catalog holds something unreadable after the machine was stored.
    Corrupt,
    /// A reply came that answers another request than the pending one.
    OutOfTurn,
}

/// How far the creation of a machine has come. Each stage but the first
/// stands for one pending request to the caller, who answers with a `Reply`.
#[derive(Debug)]
pub enum Stage {
    /// Nothing was asked yet.
    Start,
    /// Pending: does the catalog hold a machine of the name?
    NameLookup,
    /// Pending: what is the storage pool setting?
    PoolLookup,
    /// Pending: run `command`, which asks for the machine's dataset on the
    /// pool, and tell how it ended.
    PathCheck { pool: String, command: Command },
    /// Pending: run the probe on the machine and hand over what it printed.
    Probe { pool: String },
    /// Pending: store `machine` under its name, flush the catalog, and tell
    /// what the catalog then holds under the name.
    Store { pool: String, machine: Machine },
    /// Pending: perform `operations` in their order. Nothing follows.
    Provision { operations: Vec<Operation> },
    /// The machine cannot be created. Nothing follows.
    Failed(NewError),
}

/// The caller's answer to a pending request.
#[derive(Debug)]
pub enum Reply {
    /// Whether the catalog holds a machine of the name.
    NameTaken(bool),
    /// The storage pool setting, if there is one.
    Pool(Option<String>),
    /// How the query for the machine's dataset ended.
    PathStatus(Status),
    /// What the probe printed.
    ProbeOutput(String),
    /// What the catalog holds under the name after the machine was stored.
    Stored(Record),
}

/// The command that asks whether the dataset `path` exists.
pub open spec fn dataset_query(pkexec_path: Seq<char>, zfs_path: Seq<char>, path: Seq<char>) -> CommandView {
    CommandView { program: pkexec_path, args: seq![zfs_path, "list"@, path] }
}

/// Whether `stage` is the check of the dataset of the machine `name` on `pool`.
pub open spec fn is_path_check(
    stage: Stage,
    name: Seq<char>,
    pkexec_path: Seq<char>,
    zfs_path: Seq<char>,
    pool: Seq<char>,
) -> bool {
    stage matches Stage::PathCheck { pool: p, command } && p@ == pool && command@ == dataset_query(
        pkexec_path,
        zfs_path,
        machine_path(pool, name),
    )
}

/// Whether `stage` is the plan of the volumes of `machine` on `pool`.
pub open spec fn is_provision(
    stage: Stage,
    pkexec_path: Seq<char>,
    zfs_path: Seq<char>,
    pool: Seq<char>,
    machine: MachineView,
) -> bool {
    &&& stage matches Stage::Provision { operations }
    &&& first_fault(machine.disks) is None
    &&& operations.len() == machine.disks.len()
    &&& forall|i: int|
        0 <= i < operations.len() ==> (#[trigger] operations[i])@ == volume_operation(
            pkexec_path,
            zfs_path,
            volume_path(pool, machine.name, disk_identity(machine.disks[i])->0),
            machine.disks[i],
        )
}

/// The stage that follows `stage` on `reply`, for the machine `name`.
///
/// The stages run in this order: the name must be free in the catalog; a pool
/// must be set; the machine's dataset must not exist on the pool; the probe
/// output must parse into disks that can all be trusted; the machine is
/// stored; the volumes of the stored machine are planned. The first of these
/// that does not hold ends the creation in `Stage::Failed`. Without a reply a
/// pending request stands. A reply to another request than the pending one
/// fails the creation. `Provision` and `Failed` are final.
pub open spec fn is_next_stage(
    name: Seq<char>,
    pkexec_path: Seq<char>,
    zfs_path: Seq<char>,
    stage: Stage,
    reply: Option<Reply>,
    next: Stage,
) -> bool {
    match (stage, reply) {
        (Stage::Start, _) => next is NameLookup,
        (Stage::Provision { .. }, _) => next == stage,
        (Stage::Failed(_), _) => next == stage,
        (_, None) => next == stage,
        (Stage::NameLookup, Some(Reply::NameTaken(taken))) => if taken {
            next matches Stage::Failed(NewError::MachineExists)
        } else {
            next is PoolLookup
        },
        (Stage::PoolLookup, Some(Reply::Pool(None))) => next matches Stage::Failed(
            NewError::PoolUnset,
        ),
        (Stage::PoolLookup, Some(Reply::Pool(Some(pool)))) => is_path_check(
            next,
            name,
            pkexec_path,
            zfs_path,
            pool@,
        ),
        (Stage::PathCheck { pool, .. }, Some(Reply::PathStatus(status))) => match status {
            Status::Success => next matches Stage::Failed(NewError::DatasetExists { path })
                && path@ == machine_path(pool@, name),
            Status::Failure => next matches Stage::Probe { pool: p } && p@ == pool@,
            _ => next matches Stage::Failed(NewError::DatasetCheckNotRun),
        },
        (Stage::Probe { pool }, Some(Reply::ProbeOutput(text))) => match parse_output_spec(text@) {
            Ok(disks) => next matches Stage::Store { pool: p, machine } && p@ == pool@
                && machine@ == (MachineView { name, disks }),
            Err(fault) => next matches Stage::Failed(NewError::Disk(e)) && e@ == fault,
        },
        (Stage::Store { pool, .. }, Some(Reply::Stored(record))) => match record {
            Record::Missing => next matches Stage::Failed(NewError::NotStored),
            Record::Corrupt => next matches Stage::Failed(NewError::Corrupt),
            Record::Found(stored) => match first_fault(stored@.disks) {
                None => is_provision(next, pkexec_path, zfs_path, pool@, stored@),
                Some(fault) => next matches Stage::Failed(NewError::Disk(e)) && e@ == fault,
            },
        },
        _ => next matches Stage::Failed(NewError::OutOfTurn),
    }
}

/// The check of the dataset of the machine `name` on `pool`.
fn path_check(name: &str, pkexec_path: &str, zfs_path: &str, pool: String) -> (stage: Stage)
    ensures
        is_path_check(stage, name@, pkexec_path@, zfs_path@, pool@),
{
    let mut path = concat(pool.as_str(), "/reflectron/");
    path.append(name);
    let command = zfs(pkexec_path, zfs_path, &["list", path.as_str()]);
    assert(command@.args =~= seq![zfs_path@, "list"@, path@]);
    Stage::PathCheck { pool, command }
}

/// One step of creating the machine `machine_name`: the stage that follows
/// `stage` on `reply`. `pkexec_path` and `zfs_path` are the paths of the two
/// programs that the commands of the stages run.
pub fn new(
    machine_name: &str,
    pkexec_path: &str,
    zfs_path: &str,
    stage: Stage,
    reply: Option<Reply>,
) -> (next: Stage)
    ensures
        is_next_stage(machine_name@, pkexec_path@, zfs_path@, stage, reply, next),
{
    match (stage, reply) {
        (Stage::Start, _) => Stage::NameLookup,
        (Stage::Provision { operations }, _) => Stage::Provision { operations },
        (Stage::Failed(e), _) => Stage::Failed(e),
        (stage, None) => stage,
        (Stage::NameLookup, Some(Reply::NameTaken(taken))) => {
            if taken {
                Stage::Failed(NewError::MachineExists)
            } else {
                Stage::PoolLookup
            }
        },
        (Stage::PoolLookup, Some(Reply::Pool(None))) => Stage::Failed(NewError::PoolUnset),
        (Stage::PoolLookup, Some(Reply::Pool(Some(pool)))) => path_check(
            machine_name,
            pkexec_path,
            zfs_path,
            pool,
        ),
        (Stage::PathCheck { pool, command }, Some(Reply::PathStatus(status))) => match status {
            Status::Success => {
                let mut path = concat(pool.as_str(), "/reflectron/");
                path.append(machine_name);
                Stage::Failed(NewError::DatasetExists { path })
            },
            Status::Failure => Stage::Probe { pool },
            _ => Stage::Failed(NewError::DatasetCheckNotRun),
        },
        (Stage::Probe { pool }, Some(Reply::ProbeOutput(text))) => {
            match parse_output(text.as_str()) {
                Ok(disks) => Stage::Store {
                    pool,
                    machine: Machine { name: String::from_str(machine_name), disks },
                },
                Err(e) => Stage::Failed(NewError::Disk(e)),
            }
        },
        (Stage::Store { pool, machine }, Some(Reply::Stored(record))) => match record {
            Record::Missing => Stage::Failed(NewError::NotStored),
            Record::Corrupt => Stage::Failed(NewError::Corrupt),
            Record::Found(stored) => {
                match create_zvols(&stored, Some(pool.as_str()), pkexec_path, zfs_path) {
                    Ok(operations) => Stage::Provision { operations },
                    Err(ProvisionError::Disk(e)) => Stage::Failed(NewError::Disk(e)),
                    Err(ProvisionError::PoolUnset) => Stage::Failed(NewError::PoolUnset),
                }
            },
        },
        _ => Stage::Failed(NewError::OutOfTurn),
    }
}

/// Whether `stages` is a run of creating the machine `name`: each stage
/// follows the one before it on the reply that came.
pub open spec fn is_run(
    name: Seq<char>,
    pkexec_path: Seq<char>,
    zfs_path: Seq<char>,
    stages: Seq<Stage>,
    replies: Seq<Option<Reply>>,
) -> bool {
    &&& stages.len() == replies.len() + 1
    &&& forall|i: int|
        0 <= i < replies.len() ==> is_next_stage(
            name,
            pkexec_path,
            zfs_path,
            #[trigger] stages[i],
            replies[i],
            stages[i + 1],
        )
}

/// A failure is final: once a run has failed, every later stage is that same
/// failure. In particular nothing is stored and no volume is planned after it.
pub proof fn lemma_failure_is_final(
    name: Seq<char>,
    pkexec_path: Seq<char>,
    zfs_path: Seq<char>,
    stages: Seq<Stage>,
    replies: Seq<Option<Reply>>,
    k: int,
    j: int,
)
    requires
        is_run(name, pkexec_path, zfs_path, stages, replies),
        0 <= k <= j < stages.len(),
        stages[k] is Failed,
    ensures
        stages[j] == stages[k],
    decreases j - k,
{
    if k < j {
        lemma_failure_is_final(name, pkexec_path, zfs_path, stages, replies, k, j - 1);
        assert(is_next_stage(name, pkexec_path, zfs_path, stages[j - 1], replies[j - 1], stages[j]));
    }
}

/// A machine whose name the catalog holds already is refused: from the reply
/// that says so, every stage of the run is the failure `MachineExists`. The
/// run asks for no write to the catalog and for no volume.
pub proof fn lemma_taken_name_is_refused(
    name: Seq<char>,
    pkexec_path: Seq<char>,
    zfs_path: Seq<char>,
    stages: Seq<Stage>,
    replies: Seq<Option<Reply>>,
    k: int,
    j: int,
)
    requires
        is_run(name, pkexec_path, zfs_path, stages, replies),
        0 <= k < j < stages.len(),
        stages[k] is NameLookup,
        replies[k] == Some(Reply::NameTaken(true)),
    ensures
        stages[j] matches Stage::Failed(NewError::MachineExists),
{
    assert(is_next_stage(name, pkexec_path, zfs_path, stages[k], replies[k], stages[k + 1]));
    lemma_failure_is_final(name, pkexec_path, zfs_path, stages, replies, k + 1, j);
}

/// A machine whose dataset exists on the pool is refused, though the catalog
/// does not hold its name: from the reply that says so, every stage of the
/// run is the failure `DatasetExists` with the path of that dataset.
pub proof fn lemma_existing_dataset_is_refused(
    name: Seq<char>,
    pkexec_path: Seq<char>,
    zfs_path: Seq<char>,
    stages: Seq<Stage>,
    replies: Seq<Option<Reply>>,
    k: int,
    j: int,
)
    requires
        is_run(name, pkexec_path, zfs_path, stages, replies),
        0 <= k < j < stages.len(),
        stages[k] is PathCheck,
        replies[k] == Some(Reply::PathStatus(Status::Success)),
    ensures
        stages[j] matches Stage::Failed(NewError::DatasetExists { path }) && path@ == machine_path(
            stages[k]->PathCheck_pool@,
            name,
        ),
{
    assert(is_next_stage(name, pkexec_path, zfs_path, stages[k], replies[k], stages[k + 1]));
    lemma_failure_is_final(name, pkexec_path, zfs_path, stages, replies, k + 1, j);
}

/// Whether `reply` answers the pending request of `stage` by saying that the
/// name is free in the catalog.
pub open spec fn says_name_free(stage: Stage, reply: Option<Reply>) -> bool {
    stage is NameLookup && reply == Some(Reply::NameTaken(false))
}

/// Whether `reply` answers the pending request of `stage` by saying that the
/// dataset of the machine `name` is absent from the pool.
pub open spec fn says_dataset_absent(
    name: Seq<char>,
    pkexec_path: Seq<char>,
    zfs_path: Seq<char>,
    stage: Stage,
    reply: Option<Reply>,
) -> bool {
    &&& stage matches Stage::PathCheck { pool, command }
    &&& command@ == dataset_query(pkexec_path, zfs_path, machine_path(pool@, name))
    &&& reply == Some(Reply::PathStatus(Status::Failure))
}

/// Whether, before stage `j` of a run, the catalog said that the name is free.
pub open spec fn name_was_free(stages: Seq<Stage>, replies: Seq<Option<Reply>>, j: int) -> bool {
    exists|k: int|
        0 <= k < j && k < replies.len() && #[trigger] says_name_free(stages[k], replies[k])
}

/// Whether, before stage `j` of a run, the query for the dataset of the
/// machine `name` said that there is none.
pub open spec fn dataset_was_absent(
    name: Seq<char>,
    pkexec_path: Seq<char>,
    zfs_path: Seq<char>,
    stages: Seq<Stage>,
    replies: Seq<Option<Reply>>,
    j: int,
) -> bool {
    exists|k: int|
        0 <= k < j && k < replies.len() && #[trigger] says_dataset_absent(
            name,
            pkexec_path,
            zfs_path,
            stages[k],
            replies[k],
        )
}

/// What holds at stage `j` of a run that began at `Stage::Start`.
pub open spec fn stage_is_earned(
    name: Seq<char>,
    pkexec_path: Seq<char>,
    zfs_path: Seq<char>,
    stages: Seq<Stage>,
    replies: Seq<Option<Reply>>,
    j: int,
) -> bool {
    match stages[j] {
        Stage::Start => j == 0,
        Stage::NameLookup => true,
        Stage::PoolLookup => name_was_free(stages, replies, j),
        Stage::PathCheck { pool, command } => {
            &&& name_was_free(stages, replies, j)
            &&& command@ == dataset_query(pkexec_path, zfs_path, machine_path(pool@, name))
        },
        Stage::Probe { .. } => {
            &&& name_was_free(stages, replies, j)
            &&& dataset_was_absent(name, pkexec_path, zfs_path, stages, replies, j)
        },
        Stage::Store { machine, .. } => {
            &&& name_was_free(stages, replies, j)
            &&& dataset_was_absent(name, pkexec_path, zfs_path, stages, replies, j)
            &&& machine.name@ == name
            &&& first_fault(machine@.disks) is None
        },
        Stage::Provision { .. } => {
            &&& name_was_free(stages, replies, j)
            &&& dataset_was_absent(name, pkexec_path, zfs_path, stages, replies, j)
        },
        Stage::Failed(_) => true,
    }
}

/// Nothing is stored or provisioned unchecked. In a run that began at
/// `Stage::Start`, a machine is handed over for storing only after the catalog
/// said that its name is free and the pool said that its dataset is absent,
/// and only if each of its disks can be trusted; volumes are planned only
/// after the same two answers.
pub proof fn lemma_stages_are_earned(
    name: Seq<char>,
    pkexec_path: Seq<char>,
    zfs_path: Seq<char>,
    stages: Seq<Stage>,
    replies: Seq<Option<Reply>>,
    j: int,
)
    requires
        is_run(name, pkexec_path, zfs_path, stages, replies),
        stages[0] is Start,
        0 <= j < stages.len(),
    ensures
        stage_is_earned(name, pkexec_path, zfs_path, stages, replies, j),
    decreases j,
{
    if j > 0 {
        let i = j - 1;
        lemma_stages_are_earned(name, pkexec_path, zfs_path, stages, replies, i);
        assert(is_next_stage(name, pkexec_path, zfs_path, stages[i], replies[i], stages[j]));
        if name_was_free(stages, replies, i) {
            let k = choose|k: int|
                0 <= k < i && k < replies.len() && #[trigger] says_name_free(stages[k], replies[k]);
            assert(0 <= k < j && says_name_free(stages[k], replies[k]));
        }
        if dataset_was_absent(name, pkexec_path, zfs_path, stages, replies, i) {
            let k = choose|k: int|
                0 <= k < i && k < replies.len() && #[trigger] says_dataset_absent(
                    name,
                    pkexec_path,
                    zfs_path,
                    stages[k],
                    replies[k],
                );
            assert(0 <= k < j && says_dataset_absent(
                name,
                pkexec_path,
                zfs_path,
                stages[k],
                replies[k],
            ));
        }
        if says_name_free(stages[i], replies[i]) {
            assert(name_was_free(stages, replies, j));
        }
        if stage_is_earned(name, pkexec_path, zfs_path, stages, replies, i) && stages[i] is PathCheck
            && replies[i] == Some(Reply::PathStatus(Status::Failure)) {
            assert(says_dataset_absent(name, pkexec_path, zfs_path, stages[i], replies[i]));
            assert(dataset_was_absent(name, pkexec_path, zfs_path, stages, replies, j));
        }
    }
}

/// The message that tells why the machine `name` cannot be created.
pub open spec fn new_error_text(e: NewError, name: Seq<char>) -> Seq<char> {
    match e {
        NewError::MachineExists => "Machine "@ + name + " already exists in the database"@,
        NewError::PoolUnset => pool_unset_text(),
        NewError::DatasetExists { path } => "ZFS dataset "@ + path@
            + " already exists - refusing to overwrite it by creating new machine "@ + name,
        NewError::DatasetCheckNotRun => "Could not ask for the ZFS dataset of machine "@ + name,
        NewError::Disk(e) => fault_text(e@),
        NewError::NotStored => "No data found for machine "@ + name,
        NewError::Corrupt => "Could not read the data of machine "@ + name,
        NewError::OutOfTurn => "Unexpected reply while creating machine "@ + name,
    }
}

impl NewError {
    /// The message that tells why the machine `name` cannot be created.
    pub fn message(&self, name: &str) -> (text: String)
        ensures
            text@ == new_error_text(*self, name@),
    {
        match self {
            NewError::MachineExists => {
                let mut text = concat("Machine ", name);
                text.append(" already exists in the database");
                text
            },
            NewError::PoolUnset => ProvisionError::PoolUnset.message(),
            NewError::DatasetExists { path } => {
                let mut text = concat("ZFS dataset ", path.as_str());
                text.append(" already exists - refusing to overwrite it by creating new machine ");
                text.append(name);
                text
            },
            NewError::DatasetCheckNotRun => concat(
                "Could not ask for the ZFS dataset of machine ",
                name,
            ),
            NewError::Disk(e) => e.message(),
            NewError::NotStored => concat("No data found for machine ", name),
            NewError::Corrupt => concat("Could not read the data of machine ", name),
            NewError::OutOfTurn => concat("Unexpected reply while creating machine ", name),
        }
    }
}

} // verus!
