use reflectron::base::{Command, Status};
use reflectron::disk::{parse_output, DiskError};
use reflectron::machine::{get_machine, new, CatalogError, Machine, NewError, Record, Reply, Stage};

const PROBE: &str = "sda 500107862016 disk\n\nDisk: sda\nE: ID_BUS=ata\nE: ID_SERIAL=WD-1234\nS: DEVLINKS=/dev/disk/by-id/ata-WD-1234\n\n";

fn step(stage: Stage, reply: Option<Reply>) -> Stage {
    new("m1", "/usr/bin/pkexec", "/usr/sbin/zfs", stage, reply)
}

fn strings(parts: &[&str]) -> Vec<String> {
    parts.iter().map(|s| s.to_string()).collect()
}

fn path_check() -> Stage {
    step(Stage::PoolLookup, Some(Reply::Pool(Some("tank".to_string()))))
}

fn store() -> Stage {
    step(Stage::Probe { pool: "tank".to_string() }, Some(Reply::ProbeOutput(PROBE.to_string())))
}

#[test]
fn the_creation_begins_with_the_name() {
    assert!(matches!(step(Stage::Start, None), Stage::NameLookup));
    assert!(matches!(step(Stage::Start, Some(Reply::NameTaken(true))), Stage::NameLookup));
}

#[test]
fn a_name_that_is_taken_is_refused() {
    let next = step(Stage::NameLookup, Some(Reply::NameTaken(true)));
    assert!(matches!(next, Stage::Failed(NewError::MachineExists)));
    let later = step(next, Some(Reply::Pool(Some("tank".to_string()))));
    assert!(matches!(later, Stage::Failed(NewError::MachineExists)));
    let later = step(later, Some(Reply::ProbeOutput(PROBE.to_string())));
    assert!(matches!(later, Stage::Failed(NewError::MachineExists)));
    let later = step(later, None);
    assert!(matches!(later, Stage::Failed(NewError::MachineExists)));
}

#[test]
fn a_free_name_leads_to_the_pool() {
    assert!(matches!(step(Stage::NameLookup, Some(Reply::NameTaken(false))), Stage::PoolLookup));
}

#[test]
fn a_pool_must_be_set() {
    assert!(matches!(
        step(Stage::PoolLookup, Some(Reply::Pool(None))),
        Stage::Failed(NewError::PoolUnset)
    ));
}

#[test]
fn the_dataset_of_the_machine_is_asked_for() {
    match path_check() {
        Stage::PathCheck { pool, command } => {
            assert_eq!(pool, "tank");
            assert_eq!(
                command,
                Command {
                    program: "/usr/bin/pkexec".to_string(),
                    args: strings(&["/usr/sbin/zfs", "list", "tank/reflectron/m1"]),
                }
            );
        }
        other => panic!("{:?}", other),
    }
}

#[test]
fn an_existing_dataset_is_refused() {
    match step(path_check(), Some(Reply::PathStatus(Status::Success))) {
        Stage::Failed(NewError::DatasetExists { path }) => assert_eq!(path, "tank/reflectron/m1"),
        other => panic!("{:?}", other),
    }
}

#[test]
fn a_dataset_query_that_cannot_run_is_a_failure() {
    for status in [Status::SpawnFailed, Status::WaitFailed] {
        assert!(matches!(
            step(path_check(), Some(Reply::PathStatus(status))),
            Stage::Failed(NewError::DatasetCheckNotRun)
        ));
    }
}

#[test]
fn an_absent_dataset_leads_to_the_probe() {
    match step(path_check(), Some(Reply::PathStatus(Status::Failure))) {
        Stage::Probe { pool } => assert_eq!(pool, "tank"),
        other => panic!("{:?}", other),
    }
}

#[test]
fn trusted_disks_are_handed_over_for_storing() {
    match store() {
        Stage::Store { pool, machine } => {
            assert_eq!(pool, "tank");
            assert_eq!(machine, Machine { name: "m1".to_string(), disks: parse_output(PROBE).unwrap() });
        }
        other => panic!("{:?}", other),
    }
}

#[test]
fn a_disk_without_devlinks_ends_the_creation_before_anything_is_stored() {
    let text = "sda 500107862016 disk\n\nDisk: sda\nE: ID_BUS=ata\nE: ID_SERIAL=WD-1234\n";
    let next = step(Stage::Probe { pool: "tank".to_string() }, Some(Reply::ProbeOutput(text.to_string())));
    match &next {
        Stage::Failed(NewError::Disk(DiskError::MissingDevlinks { disk })) => assert_eq!(disk, "sda"),
        other => panic!("{:?}", other),
    }
    let machine = Machine { name: "m1".to_string(), disks: parse_output(PROBE).unwrap() };
    let later = step(next, Some(Reply::Stored(Record::Found(machine))));
    assert!(matches!(later, Stage::Failed(NewError::Disk(DiskError::MissingDevlinks { .. }))));
}

#[test]
fn the_volumes_of_the_stored_machine_are_planned() {
    let machine = Machine { name: "m1".to_string(), disks: parse_output(PROBE).unwrap() };
    match step(store(), Some(Reply::Stored(Record::Found(machine)))) {
        Stage::Provision { operations } => {
            assert_eq!(operations.len(), 1);
            assert_eq!(
                operations[0].check.as_ref().unwrap().args,
                strings(&["/usr/sbin/zfs", "list", "tank/reflectron/m1/ata-WD-1234"])
            );
            assert_eq!(
                operations[0].operation.args,
                strings(&[
                    "/usr/sbin/zfs",
                    "create",
                    "-s",
                    "-b",
                    "4K",
                    "-V",
                    "500107862016",
                    "tank/reflectron/m1/ata-WD-1234",
                ])
            );
            let again = step(Stage::Provision { operations }, Some(Reply::NameTaken(false)));
            assert!(matches!(again, Stage::Provision { .. }));
        }
        other => panic!("{:?}", other),
    }
}

#[test]
fn a_machine_that_is_not_there_after_storing_is_a_failure() {
    assert!(matches!(
        step(store(), Some(Reply::Stored(Record::Missing))),
        Stage::Failed(NewError::NotStored)
    ));
    assert!(matches!(
        step(store(), Some(Reply::Stored(Record::Corrupt))),
        Stage::Failed(NewError::Corrupt)
    ));
}

#[test]
fn a_stored_machine_with_a_disk_at_fault_gets_no_volumes() {
    let text = "sda 500107862016 disk\n";
    let machine = Machine { name: "m1".to_string(), disks: reflectron::disk::parse_disks(text) };
    assert!(matches!(
        step(store(), Some(Reply::Stored(Record::Found(machine)))),
        Stage::Failed(NewError::Disk(DiskError::MissingDevlinks { .. }))
    ));
}

#[test]
fn a_reply_out_of_turn_is_a_failure() {
    assert!(matches!(
        step(Stage::NameLookup, Some(Reply::Pool(None))),
        Stage::Failed(NewError::OutOfTurn)
    ));
    assert!(matches!(
        step(Stage::PoolLookup, Some(Reply::NameTaken(false))),
        Stage::Failed(NewError::OutOfTurn)
    ));
    assert!(matches!(
        step(path_check(), Some(Reply::ProbeOutput(PROBE.to_string()))),
        Stage::Failed(NewError::OutOfTurn)
    ));
    assert!(matches!(
        step(Stage::Probe { pool: "tank".to_string() }, Some(Reply::PathStatus(Status::Failure))),
        Stage::Failed(NewError::OutOfTurn)
    ));
    assert!(matches!(step(store(), Some(Reply::NameTaken(false))), Stage::Failed(NewError::OutOfTurn)));
}

#[test]
fn a_pending_request_stands_until_it_is_answered() {
    assert!(matches!(step(Stage::NameLookup, None), Stage::NameLookup));
    assert!(matches!(step(Stage::PoolLookup, None), Stage::PoolLookup));
    assert!(matches!(step(path_check(), None), Stage::PathCheck { .. }));
    assert!(matches!(step(Stage::Probe { pool: "tank".to_string() }, None), Stage::Probe { .. }));
    assert!(matches!(step(store(), None), Stage::Store { .. }));
}

#[test]
fn a_whole_run_stores_and_provisions_once() {
    let mut stage = Stage::Start;
    let machine = Machine { name: "m1".to_string(), disks: parse_output(PROBE).unwrap() };
    let replies = vec![
        None,
        Some(Reply::NameTaken(false)),
        Some(Reply::Pool(Some("tank".to_string()))),
        Some(Reply::PathStatus(Status::Failure)),
        Some(Reply::ProbeOutput(PROBE.to_string())),
        Some(Reply::Stored(Record::Found(machine))),
    ];
    let mut stores = 0;
    for reply in replies {
        stage = step(stage, reply);
        if matches!(stage, Stage::Store { .. }) {
            stores += 1;
        }
    }
    assert_eq!(stores, 1);
    assert!(matches!(stage, Stage::Provision { .. }));
}

#[test]
fn a_missing_machine_is_no_error() {
    assert_eq!(get_machine(Record::Missing), Ok(None));
}

#[test]
fn a_corrupt_machine_is_an_error() {
    assert_eq!(get_machine(Record::Corrupt), Err(CatalogError::Corrupt));
}

#[test]
fn a_found_machine_is_handed_out() {
    let machine = Machine { name: "m1".to_string(), disks: parse_output(PROBE).unwrap() };
    let same = Machine { name: "m1".to_string(), disks: parse_output(PROBE).unwrap() };
    assert_eq!(get_machine(Record::Found(machine)), Ok(Some(same)));
}

#[test]
fn errors_tell_why_the_machine_cannot_be_created() {
    assert_eq!(NewError::MachineExists.message("m1"), "Machine m1 already exists in the database");
    assert_eq!(
        NewError::PoolUnset.message("m1"),
        "Reflectron property disk-pool has not been set. Use 'ref set disk-pool <poolname>' to set it, and retry this command."
    );
    assert_eq!(
        NewError::DatasetExists { path: "tank/reflectron/m1".to_string() }.message("m1"),
        "ZFS dataset tank/reflectron/m1 already exists - refusing to overwrite it by creating new machine m1"
    );
    assert_eq!(
        NewError::DatasetCheckNotRun.message("m1"),
        "Could not ask for the ZFS dataset of machine m1"
    );
    assert_eq!(
        NewError::Disk(DiskError::MissingDevlinks { disk: "sda".to_string() }).message("m1"),
        "Could not find DEVLINKS in additional info for disk sda"
    );
    assert_eq!(NewError::NotStored.message("m1"), "No data found for machine m1");
    assert_eq!(NewError::Corrupt.message("m1"), "Could not read the data of machine m1");
    assert_eq!(NewError::OutOfTurn.message("m1"), "Unexpected reply while creating machine m1");
}
