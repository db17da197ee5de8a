use reflectron::base::{
    first_step, next_step, perform, Action, Failure, Operation, Phase, PlanStep, Status,
};
use reflectron::disk::{create_zvols, parse_output};
use reflectron::machine::Machine;
use std::collections::BTreeSet;

const PROBE: &str = "sda 1000 disk\nnvme0n1 2000 disk\nDisk: sda\nE: ID_BUS=ata\nE: ID_SERIAL=A\nS: DEVLINKS=/dev/disk/by-id/ata-A\nDisk: nvme0n1\nE: ID_SERIAL=B\nS: DEVLINKS=/dev/disk/by-id/nvme-B\n";

/// Runs `op` on a pool that holds `volumes`: the query for a volume succeeds
/// if the pool holds it, and the creation adds it.
fn run(op: &Operation, volumes: &mut BTreeSet<String>) -> Action {
    let mut phase = Phase::Start;
    let mut event = None;
    loop {
        let (next, action) = perform(op, phase, event);
        phase = next;
        match action {
            Action::RunCheck => {
                let path = op.check.as_ref().unwrap().args.last().unwrap();
                event = Some(if volumes.contains(path) { Status::Success } else { Status::Failure });
            }
            Action::RunOperation => {
                volumes.insert(op.operation.args.last().unwrap().clone());
                event = Some(Status::Success);
            }
            last => {
                assert_eq!(phase, Phase::Finished);
                return last;
            }
        }
    }
}

fn plan() -> Vec<Operation> {
    let machine = Machine { name: "m1".to_string(), disks: parse_output(PROBE).unwrap() };
    create_zvols(&machine, Some("tank"), "pkexec", "zfs").unwrap()
}

#[test]
fn the_first_pass_creates_each_volume_and_the_second_skips_each() {
    let ops = plan();
    let mut volumes = BTreeSet::new();
    let first: Vec<Action> = ops.iter().map(|op| run(op, &mut volumes)).collect();
    assert_eq!(first, [Action::Succeed, Action::Succeed]);
    let after_first = volumes.clone();
    assert_eq!(
        after_first.iter().map(String::as_str).collect::<Vec<_>>(),
        ["tank/reflectron/m1/ata-A", "tank/reflectron/m1/nvme-B"]
    );
    let second: Vec<Action> = ops.iter().map(|op| run(op, &mut volumes)).collect();
    assert_eq!(second, [Action::Skip, Action::Skip]);
    assert_eq!(volumes, after_first);
}

#[test]
fn a_volume_that_exists_is_not_created_again() {
    let ops = plan();
    let mut volumes = BTreeSet::new();
    volumes.insert("tank/reflectron/m1/nvme-B".to_string());
    let first: Vec<Action> = ops.iter().map(|op| run(op, &mut volumes)).collect();
    assert_eq!(first, [Action::Succeed, Action::Skip]);
    assert_eq!(volumes.len(), 2);
}

/// Runs `op` on a pool that holds `volumes` and on which no volume can be
/// created whose path is among `broken`.
fn run_on(op: &Operation, volumes: &mut BTreeSet<String>, broken: &[&str]) -> Action {
    let mut phase = Phase::Start;
    let mut event = None;
    loop {
        let (next, action) = perform(op, phase, event);
        phase = next;
        match action {
            Action::RunCheck => {
                let path = op.check.as_ref().unwrap().args.last().unwrap();
                event = Some(if volumes.contains(path) { Status::Success } else { Status::Failure });
            }
            Action::RunOperation => {
                let path = op.operation.args.last().unwrap();
                if broken.contains(&path.as_str()) {
                    event = Some(Status::Failure);
                } else {
                    volumes.insert(path.clone());
                    event = Some(Status::Success);
                }
            }
            last => return last,
        }
    }
}

#[test]
fn a_failed_create_ends_the_plan_and_undoes_nothing() {
    let text = "sda 1 disk\nsdb 2 disk\nsdc 3 disk\nDisk: sda\nE: ID_SERIAL=A\nS: DEVLINKS=nvme-A\nDisk: sdb\nE: ID_SERIAL=B\nS: DEVLINKS=nvme-B\nDisk: sdc\nE: ID_SERIAL=C\nS: DEVLINKS=nvme-C\n";
    let machine = Machine { name: "m1".to_string(), disks: parse_output(text).unwrap() };
    let ops = create_zvols(&machine, Some("tank"), "pkexec", "zfs").unwrap();
    assert_eq!(ops.len(), 3);
    let mut volumes = BTreeSet::new();
    let mut performed = Vec::new();
    let mut step = first_step(ops.len());
    while let PlanStep::Perform(index) = step {
        performed.push(index);
        let last = run_on(&ops[index], &mut volumes, &["tank/reflectron/m1/nvme-B"]);
        step = next_step(ops.len(), index, last);
    }
    assert_eq!(step, PlanStep::Stopped(Failure::NonZeroExit));
    assert_eq!(performed, [0, 1]);
    assert_eq!(
        volumes.iter().map(String::as_str).collect::<Vec<_>>(),
        ["tank/reflectron/m1/nvme-A"]
    );
}

#[test]
fn a_plan_without_failure_performs_each_operation_once() {
    let ops = plan();
    let mut volumes = BTreeSet::new();
    let mut performed = Vec::new();
    let mut step = first_step(ops.len());
    while let PlanStep::Perform(index) = step {
        performed.push(index);
        let last = run_on(&ops[index], &mut volumes, &[]);
        step = next_step(ops.len(), index, last);
    }
    assert_eq!(step, PlanStep::Finished);
    assert_eq!(performed, [0, 1]);
    assert_eq!(volumes.len(), 2);
}
