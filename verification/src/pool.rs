//! A model of the storage pool, and what provisioning does to it.
//!
//! The pool is taken to hold a set of volumes, named by their paths. The
//! query for a volume is taken to succeed exactly if the pool holds the
//! volume, and the creation of a volume to succeed and to add the volume.
//! Under these assumptions the policy of `perform` makes provisioning
//! idempotent, which the laws of this module state.

use vstd::prelude::*;
use crate::base::{failure_of, perform_spec, Action, Phase, Status};
use crate::disk::{disk_identity, volume_path};
use crate::machine::MachineView;

verus! {

/// How the query for the volume `path` ends on a pool that holds `volumes`.
pub open spec fn query_status(volumes: Set<Seq<char>>, path: Seq<char>) -> Status {
    if volumes.contains(path) {
        Status::Success
    } else {
        Status::Failure
    }
}

/// The last action of an operation that has a check, where the check ends as
/// `check` and the operation, if it comes to run, ends as `operation`.
pub open spec fn checked_outcome(check: Status, operation: Status) -> Action {
    let begun = perform_spec(true, Phase::Start, None);
    let checked = perform_spec(true, begun.0, Some(check));
    if checked.1 == Action::RunOperation {
        perform_spec(true, checked.0, Some(operation)).1
    } else {
        checked.1
    }
}

/// What performing the operation for the volume `path` does on a pool that
/// holds `volumes`, where the creation, if it comes to run, ends as `create`:
/// the volumes that the pool holds afterwards, and the last action of the
/// operation. Only a creation that succeeds adds the volume.
pub open spec fn attempt(volumes: Set<Seq<char>>, path: Seq<char>, create: Status) -> (
    Set<Seq<char>>,
    Action,
) {
    let action = checked_outcome(query_status(volumes, path), create);
    (
        if action == Action::Succeed {
            volumes.insert(path)
        } else {
            volumes
        },
        action,
    )
}

/// What performing the operation for the volume `path` does on a pool that
/// holds `volumes`, where the creation succeeds if it comes to run.
pub open spec fn provision_one(volumes: Set<Seq<char>>, path: Seq<char>) -> (
    Set<Seq<char>>,
    Action,
) {
    attempt(volumes, path, Status::Success)
}

/// A creation that fails changes nothing: the operation ends in that failure,
/// and the pool holds what it held, the volumes of earlier operations among
/// it.
pub proof fn lemma_failed_create_changes_nothing(
    volumes: Set<Seq<char>>,
    path: Seq<char>,
    create: Status,
)
    requires
        !volumes.contains(path),
        create != Status::Success,
    ensures
        attempt(volumes, path, create) == (volumes, Action::Fail(failure_of(create)->0)),
{
}

/// What performing the operations for the volumes `paths`, in their order,
/// does on a pool that holds `volumes`: the volumes that the pool holds
/// afterwards, and the last action of each operation.
pub open spec fn provision(volumes: Set<Seq<char>>, paths: Seq<Seq<char>>) -> (
    Set<Seq<char>>,
    Seq<Action>,
)
    decreases paths.len(),
{
    if paths.len() == 0 {
        (volumes, Seq::empty())
    } else {
        let before = provision(volumes, paths.drop_last());
        let last = provision_one(before.0, paths.last());
        (last.0, before.1.push(last.1))
    }
}

/// Whether the path at `i` stands earlier in `paths` too.
pub open spec fn stands_earlier(paths: Seq<Seq<char>>, i: int) -> bool {
    exists|j: int| 0 <= j < i && #[trigger] paths[j] == paths[i]
}

/// The paths of the volumes of `machine` on `pool`, in the order of its disks.
pub open spec fn volume_paths(pool: Seq<char>, machine: MachineView) -> Seq<Seq<char>> {
    Seq::new(
        machine.disks.len(),
        |i: int| volume_path(pool, machine.name, disk_identity(machine.disks[i])->0),
    )
}

/// Provisioning creates what is missing and nothing else: there is one
/// action for each path; a volume is created where the pool did not hold it
/// and no earlier operation has made it, and skipped otherwise; afterwards the
/// pool holds what it held and every path.
pub proof fn lemma_provision(volumes: Set<Seq<char>>, paths: Seq<Seq<char>>)
    ensures
        provision(volumes, paths).1.len() == paths.len(),
        forall|p: Seq<char>|
            provision(volumes, paths).0.contains(p) <==> volumes.contains(p) || paths.contains(p),
        forall|i: int|
            0 <= i < paths.len() ==> #[trigger] provision(volumes, paths).1[i] == if volumes.contains(
                paths[i],
            ) || stands_earlier(paths, i) {
                Action::Skip
            } else {
                Action::Succeed
            },
    decreases paths.len(),
{
    if paths.len() > 0 {
        let head = paths.drop_last();
        let n = head.len() as int;
        lemma_provision(volumes, head);
        let before = provision(volumes, head);
        assert forall|p: Seq<char>| paths.contains(p) <==> head.contains(p) || p
            == paths.last() by {
            if paths.contains(p) {
                let i = choose|i: int| 0 <= i < paths.len() && paths[i] == p;
                if i < n {
                    assert(head[i] == p);
                }
            }
            if head.contains(p) {
                let i = choose|i: int| 0 <= i < head.len() && head[i] == p;
                assert(paths[i] == p);
            }
            if p == paths.last() {
                assert(paths[n] == p);
            }
        }
        assert(stands_earlier(paths, n) <==> head.contains(paths[n])) by {
            if stands_earlier(paths, n) {
                let j = choose|j: int| 0 <= j < n && #[trigger] paths[j] == paths[n];
                assert(head[j] == paths[n]);
            }
            if head.contains(paths[n]) {
                let j = choose|j: int| 0 <= j < head.len() && head[j] == paths[n];
                assert(paths[j] == paths[n]);
            }
        }
        assert forall|i: int| 0 <= i < n implies stands_earlier(paths, i) == stands_earlier(
            head,
            i,
        ) by {
            if stands_earlier(paths, i) {
                let j = choose|j: int| 0 <= j < i && #[trigger] paths[j] == paths[i];
                assert(head[j] == head[i]);
            }
            if stands_earlier(head, i) {
                let j = choose|j: int| 0 <= j < i && #[trigger] head[j] == head[i];
                assert(paths[j] == paths[i]);
            }
        }
        assert forall|i: int| 0 <= i < paths.len() implies #[trigger] provision(
            volumes,
            paths,
        ).1[i] == if volumes.contains(paths[i]) || stands_earlier(paths, i) {
            Action::Skip
        } else {
            Action::Succeed
        } by {
            if i < n {
                assert(provision(volumes, paths).1[i] == before.1[i]);
                assert(head[i] == paths[i]);
            }
        }
    }
}

/// Provisioning is idempotent: a second pass over the same paths skips every
/// operation and leaves the pool as the first pass left it.
pub proof fn lemma_second_pass_skips(volumes: Set<Seq<char>>, paths: Seq<Seq<char>>)
    ensures
        ({
            let first = provision(volumes, paths);
            let second = provision(first.0, paths);
            &&& second.0 == first.0
            &&& second.1.len() == paths.len()
            &&& forall|i: int| 0 <= i < paths.len() ==> #[trigger] second.1[i] == Action::Skip
        }),
{
    let first = provision(volumes, paths);
    let second = provision(first.0, paths);
    lemma_provision(volumes, paths);
    lemma_provision(first.0, paths);
    assert forall|i: int| 0 <= i < paths.len() implies #[trigger] second.1[i] == Action::Skip by {
        assert(paths.contains(paths[i]));
    }
    assert(second.0 =~= first.0);
}

/// On a pool that holds none of them, the volumes of distinct paths are each
/// created, once.
pub proof fn lemma_first_pass_creates(volumes: Set<Seq<char>>, paths: Seq<Seq<char>>)
    requires
        forall|i: int| 0 <= i < paths.len() ==> !volumes.contains(#[trigger] paths[i]),
        forall|i: int, j: int| 0 <= i < j < paths.len() ==> paths[i] != paths[j],
    ensures
        provision(volumes, paths).1.len() == paths.len(),
        forall|i: int|
            0 <= i < paths.len() ==> #[trigger] provision(volumes, paths).1[i] == Action::Succeed,
{
    lemma_provision(volumes, paths);
}

/// Provisioning a machine twice creates each of its volumes once: where the
/// disks have distinct identities and the pool holds none of their volumes,
/// the first pass creates one volume for each disk, and the second pass skips
/// each and leaves the pool as it was.
pub proof fn lemma_provisioning_is_idempotent(
    volumes: Set<Seq<char>>,
    pool: Seq<char>,
    machine: MachineView,
)
    requires
        forall|i: int|
            0 <= i < machine.disks.len() ==> !volumes.contains(
                #[trigger] volume_paths(pool, machine)[i],
            ),
        forall|i: int, j: int|
            0 <= i < j < machine.disks.len() ==> volume_paths(pool, machine)[i] != volume_paths(
                pool,
                machine,
            )[j],
    ensures
        ({
            let paths = volume_paths(pool, machine);
            let first = provision(volumes, paths);
            let second = provision(first.0, paths);
            &&& first.1.len() == machine.disks.len()
            &&& second.1.len() == machine.disks.len()
            &&& forall|i: int|
                0 <= i < machine.disks.len() ==> #[trigger] first.1[i] == Action::Succeed
            &&& forall|i: int|
                0 <= i < machine.disks.len() ==> #[trigger] second.1[i] == Action::Skip
            &&& second.0 == first.0
        }),
{
    let paths = volume_paths(pool, machine);
    lemma_first_pass_creates(volumes, paths);
    lemma_second_pass_skips(volumes, paths);
}

} // verus!
