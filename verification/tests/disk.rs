use reflectron::attributes::Attributes;
use reflectron::base::Operation;
use reflectron::disk::{
    confirmed_identity, create_disk_id, create_zvols, label, parse_disks, parse_output, validate,
    zvol_operation, zvol_path, Disk, DiskError, ProvisionError, DISK_INFO,
};
use reflectron::machine::Machine;

const PROBE: &str = "sda 500107862016 disk\n\nDisk: sda\nE: ID_BUS=ata\nE: ID_SERIAL=WD-1234\nS: DEVLINKS=/dev/disk/by-id/ata-WD-1234\n\n";

fn strings(parts: &[&str]) -> Vec<String> {
    parts.iter().map(|s| s.to_string()).collect()
}

fn disk(name: &str, info: &[(&str, &str)]) -> Disk {
    let mut additional_info = Attributes::new();
    for (key, value) in info {
        additional_info.insert(key.to_string(), value.to_string());
    }
    Disk {
        name: name.to_string(),
        size: "4096".to_string(),
        device_type: "disk".to_string(),
        wwn: None,
        serial: None,
        model: None,
        vendor: None,
        additional_info,
    }
}

#[test]
fn one_disk_is_parsed_with_its_attributes() {
    let disks = parse_output(PROBE).unwrap();
    assert_eq!(disks.len(), 1);
    let d = &disks[0];
    assert_eq!(d.name, "sda");
    assert_eq!(d.size, "500107862016");
    assert_eq!(d.device_type, "disk");
    assert_eq!(d.wwn, None);
    assert_eq!(d.serial, None);
    assert_eq!(d.model, None);
    assert_eq!(d.vendor, None);
    assert_eq!(d.additional_info.get("ID_BUS").unwrap(), "ata");
    assert_eq!(d.additional_info.get("ID_SERIAL").unwrap(), "WD-1234");
    assert_eq!(d.additional_info.get("DEVLINKS").unwrap(), "/dev/disk/by-id/ata-WD-1234");
    assert_eq!(d.additional_info.get("ID_MODEL"), None);
}

#[test]
fn the_identity_of_an_ata_disk_is_confirmed() {
    let disks = parse_output(PROBE).unwrap();
    assert_eq!(create_disk_id(&disks[0]).unwrap(), "ata-WD-1234");
    assert_eq!(confirmed_identity(&disks[0]).unwrap(), "ata-WD-1234");
    assert!(validate(&disks[0]).is_ok());
}

#[test]
fn the_volume_of_the_disk_is_planned() {
    let disks = parse_output(PROBE).unwrap();
    let machine = Machine { name: "m1".to_string(), disks };
    let ops: Vec<Operation> = create_zvols(&machine, Some("tank"), "/usr/bin/pkexec", "/usr/sbin/zfs").unwrap();
    assert_eq!(ops.len(), 1);
    let op = &ops[0];
    assert_eq!(op.description, "Create ZVOL for disk unknown-unknown-unknown");
    assert!(op.stream_output);
    let check = op.check.as_ref().unwrap();
    assert_eq!(check.program, "/usr/bin/pkexec");
    assert_eq!(check.args, strings(&["/usr/sbin/zfs", "list", "tank/reflectron/m1/ata-WD-1234"]));
    assert_eq!(op.operation.program, "/usr/bin/pkexec");
    assert_eq!(
        op.operation.args,
        strings(&[
            "/usr/sbin/zfs",
            "create",
            "-s",
            "-b",
            "4K",
            "-V",
            "500107862016",
            "tank/reflectron/m1/ata-WD-1234",
        ])
    );
}

#[test]
fn a_disk_without_devlinks_is_refused() {
    let text = "sda 500107862016 disk\n\nDisk: sda\nE: ID_BUS=ata\nE: ID_SERIAL=WD-1234\n";
    match parse_output(text) {
        Err(DiskError::MissingDevlinks { disk }) => assert_eq!(disk, "sda"),
        other => panic!("{:?}", other),
    }
    let disks = parse_disks(text);
    assert_eq!(disks.len(), 1);
    let machine = Machine { name: "m1".to_string(), disks };
    match create_zvols(&machine, Some("tank"), "pkexec", "zfs") {
        Err(ProvisionError::Disk(DiskError::MissingDevlinks { disk })) => assert_eq!(disk, "sda"),
        other => panic!("{:?}", other),
    }
}

#[test]
fn a_disk_without_serial_is_refused() {
    let d = disk("sdb", &[("DEVLINKS", "/dev/disk/by-id/ata-X"), ("ID_BUS", "ata")]);
    match create_disk_id(&d) {
        Err(DiskError::MissingSerial { disk }) => assert_eq!(disk, "sdb"),
        other => panic!("{:?}", other),
    }
    match validate(&d) {
        Err(DiskError::MissingSerial { disk }) => assert_eq!(disk, "sdb"),
        other => panic!("{:?}", other),
    }
}

#[test]
fn a_disk_whose_identity_is_not_in_its_devlinks_is_refused() {
    let d = disk(
        "sdc",
        &[("DEVLINKS", "/dev/disk/by-id/ata-WD-9999"), ("ID_BUS", "ata"), ("ID_SERIAL", "WD-1234")],
    );
    match validate(&d) {
        Err(DiskError::IdentityMismatch { disk, identity, devlinks }) => {
            assert_eq!(disk, "sdc");
            assert_eq!(identity, "ata-WD-1234");
            assert_eq!(devlinks, "/dev/disk/by-id/ata-WD-9999");
        }
        other => panic!("{:?}", other),
    }
}

#[test]
fn validation_succeeds_exactly_if_the_identity_is_in_the_devlinks() {
    let cases = [
        ("ata", "S1", "/dev/disk/by-id/ata-S1 /dev/disk/by-path/pci-0000", true),
        ("ata", "S1", "ata-S1", true),
        ("ata", "S1", "xata-S1x", true),
        ("ata", "S1", "ata-S", false),
        ("ata", "S1", "", false),
        ("ata", "S1", "nvme-S1", false),
        ("nvme", "S1", "/dev/disk/by-id/nvme-S1", true),
        ("scsi", "S1", "/dev/disk/by-id/nvme-S1", true),
        ("scsi", "S1", "/dev/disk/by-id/scsi-S1", false),
        ("ata", "", "ata-", true),
    ];
    for (bus, serial, devlinks, expected) in cases {
        let d = disk("sda", &[("ID_BUS", bus), ("ID_SERIAL", serial), ("DEVLINKS", devlinks)]);
        let identity = create_disk_id(&d).unwrap();
        assert_eq!(devlinks.contains(&identity), expected);
        assert_eq!(validate(&d).is_ok(), expected, "{} {} {}", bus, serial, devlinks);
    }
}

#[test]
fn a_disk_on_another_bus_than_ata_gets_the_nvme_prefix() {
    let d = disk("nvme0n1", &[("ID_SERIAL", "Samsung_SSD_1"), ("DEVLINKS", "x")]);
    assert_eq!(create_disk_id(&d).unwrap(), "nvme-Samsung_SSD_1");
    let d = disk("sdd", &[("ID_BUS", "usb"), ("ID_SERIAL", "K1")]);
    assert_eq!(create_disk_id(&d).unwrap(), "nvme-K1");
    let d = disk("sde", &[("ID_BUS", "ATA"), ("ID_SERIAL", "K1")]);
    assert_eq!(create_disk_id(&d).unwrap(), "nvme-K1");
}

#[test]
fn optional_fields_are_taken_by_position() {
    let text = "sda 100 disk 0x5000 SER1 ModelX VendorY extra\nsdb 200 disk 0x5001\nsdc 300 part\n";
    let disks = parse_disks(text);
    assert_eq!(disks.len(), 3);
    assert_eq!(disks[0].wwn.as_deref(), Some("0x5000"));
    assert_eq!(disks[0].serial.as_deref(), Some("SER1"));
    assert_eq!(disks[0].model.as_deref(), Some("ModelX"));
    assert_eq!(disks[0].vendor.as_deref(), Some("VendorY"));
    assert_eq!(disks[1].wwn.as_deref(), Some("0x5001"));
    assert_eq!(disks[1].serial, None);
    assert_eq!(disks[1].model, None);
    assert_eq!(disks[1].vendor, None);
    assert_eq!(disks[2].name, "sdc");
    assert_eq!(disks[2].size, "300");
    assert_eq!(disks[2].device_type, "part");
    assert_eq!(disks[2].wwn, None);
}

#[test]
fn lines_of_fewer_than_three_words_describe_no_disk() {
    assert_eq!(parse_disks("sda 100\n").len(), 0);
    assert_eq!(parse_disks("sda\n").len(), 0);
    assert_eq!(parse_disks("   \n").len(), 0);
    assert_eq!(parse_disks("").len(), 0);
    assert_eq!(parse_disks("\n\n\n").len(), 0);
    assert_eq!(parse_disks("  sda \t 100   disk  ").len(), 1);
}

#[test]
fn disks_keep_the_order_of_their_primary_lines() {
    let text = "sdb 2 disk\nsda 1 disk\nDisk: sda\nE: K=a\nsdc 3 disk\nDisk: sdb\nE: K=b\n";
    let disks = parse_disks(text);
    let names: Vec<&str> = disks.iter().map(|d| d.name.as_str()).collect();
    assert_eq!(names, ["sdb", "sda", "sdc"]);
    assert_eq!(disks[0].additional_info.get("K").unwrap(), "b");
    assert_eq!(disks[1].additional_info.get("K").unwrap(), "a");
    assert_eq!(disks[2].additional_info.get("K"), None);
}

#[test]
fn attributes_go_to_the_disk_of_the_last_header() {
    let text = "sda 1 disk\nsdb 2 disk\nE: EARLY=1\nDisk: sdb\nE: A = 1 \nDisk: sda\nS:  B=2=3\nE: NOPAIR\nDisk: sdz\nE: C=3\n";
    let disks = parse_disks(text);
    assert_eq!(disks.len(), 2);
    assert_eq!(disks[0].additional_info.get("B").unwrap(), "2=3");
    assert_eq!(disks[0].additional_info.get("A"), None);
    assert_eq!(disks[0].additional_info.get("EARLY"), None);
    assert_eq!(disks[0].additional_info.get("NOPAIR"), None);
    assert_eq!(disks[0].additional_info.get("C"), None);
    assert_eq!(disks[1].additional_info.get("A").unwrap(), "1");
    assert_eq!(disks[1].additional_info.get("C"), None);
    assert_eq!(disks[1].additional_info.len(), 1);
    assert_eq!(disks[0].additional_info.len(), 1);
}

#[test]
fn attributes_go_to_the_first_disk_of_a_name() {
    let text = "sda 1 disk\nsda 2 disk\nDisk: sda\nE: K=v\n";
    let disks = parse_disks(text);
    assert_eq!(disks.len(), 2);
    assert_eq!(disks[0].additional_info.get("K").unwrap(), "v");
    assert!(disks[1].additional_info.is_empty());
}

#[test]
fn a_later_value_replaces_an_earlier_one() {
    let text = "sda 1 disk\nDisk: sda\nE: K=old\nE: K=new\n";
    let disks = parse_disks(text);
    assert_eq!(disks[0].additional_info.get("K").unwrap(), "new");
    assert_eq!(disks[0].additional_info.len(), 1);
}

#[test]
fn markers_are_taken_off_as_often_as_they_stand() {
    let text = "sda 1 disk\nDisk: Disk: sda\nS: S: E: E: K=v\nE: S: L=w\n";
    let disks = parse_disks(text);
    assert_eq!(disks[0].additional_info.get("K").unwrap(), "v");
    assert_eq!(disks[0].additional_info.get("S: L").unwrap(), "w");
}

#[test]
fn a_header_creates_no_disk() {
    let disks = parse_disks("Disk: sda\nE: K=v\n");
    assert_eq!(disks.len(), 0);
}

#[test]
fn lines_may_end_in_carriage_return_and_line_feed() {
    let text = "sda 1 disk\r\nDisk: sda\r\nE: DEVLINKS=ata-X\r\nE: ID_SERIAL=X\r\nE: ID_BUS=ata\r\n";
    let disks = parse_output(text).unwrap();
    assert_eq!(disks[0].additional_info.get("ID_BUS").unwrap(), "ata");
    assert_eq!(create_disk_id(&disks[0]).unwrap(), "ata-X");
}

#[test]
fn parsing_the_same_text_again_gives_the_same_disks() {
    let text = "sdb 2 disk w s m v\nsda 1 disk\nDisk: sda\nE: DEVLINKS=nvme-1\nE: ID_SERIAL=1\nDisk: sdb\nE: DEVLINKS=nvme-2\nE: ID_SERIAL=2\n";
    let first = parse_output(text).unwrap();
    let second = parse_output(&text.to_string()).unwrap();
    assert_eq!(first, second);
    assert_eq!(first.len(), 2);
    let bad = "sda 1 disk\n";
    assert_eq!(format!("{:?}", parse_output(bad)), format!("{:?}", parse_output(bad)));
}

#[test]
fn the_first_disk_at_fault_gives_the_error() {
    let text = "sda 1 disk\nsdb 2 disk\nsdc 3 disk\nDisk: sda\nE: DEVLINKS=nvme-1\nE: ID_SERIAL=1\nDisk: sdb\nE: DEVLINKS=nvme-1\nDisk: sdc\nE: ID_SERIAL=3\n";
    match parse_output(text) {
        Err(DiskError::MissingSerial { disk }) => assert_eq!(disk, "sdb"),
        other => panic!("{:?}", other),
    }
}

#[test]
fn attributes_map_each_key_once() {
    let mut a = Attributes::new();
    assert!(a.is_empty());
    assert_eq!(a.len(), 0);
    a.insert("k".to_string(), "1".to_string());
    a.insert("l".to_string(), "2".to_string());
    a.insert("k".to_string(), "3".to_string());
    assert_eq!(a.len(), 2);
    assert!(!a.is_empty());
    assert_eq!(a.get("k").unwrap(), "3");
    assert_eq!(a.get("l").unwrap(), "2");
    assert_eq!(a.get(""), None);
    assert!(a.contains_key("l"));
    assert!(!a.contains_key("m"));
}

#[test]
fn attributes_are_equal_whatever_the_order_of_insertion() {
    let mut a = Attributes::new();
    a.insert("k".to_string(), "1".to_string());
    a.insert("l".to_string(), "2".to_string());
    let mut b = Attributes::new();
    b.insert("l".to_string(), "2".to_string());
    b.insert("k".to_string(), "0".to_string());
    assert_ne!(a, b);
    b.insert("k".to_string(), "1".to_string());
    assert_eq!(a, b);
    b.insert("m".to_string(), "1".to_string());
    assert_ne!(a, b);
    assert_ne!(b, a);
}

#[test]
fn the_label_is_lower_case_with_hyphens() {
    let mut d = disk("sda", &[]);
    assert_eq!(label(&d), "unknown-unknown-unknown");
    d.vendor = Some("ATA".to_string());
    d.model = Some("WDC WD5000".to_string());
    d.serial = Some("WD-1234".to_string());
    assert_eq!(label(&d), "ata-wdc-wd5000-wd-1234");
}

#[test]
fn the_volume_path_names_pool_machine_and_identity() {
    assert_eq!(zvol_path("tank", "m1", "ata-WD-1234"), "tank/reflectron/m1/ata-WD-1234");
    assert_eq!(zvol_path("", "", ""), "/reflectron//");
}

#[test]
fn volumes_are_planned_in_the_order_of_the_disks() {
    let disks = vec![
        disk("sda", &[("ID_SERIAL", "A"), ("DEVLINKS", "nvme-A")]),
        disk("sdb", &[("ID_SERIAL", "B"), ("DEVLINKS", "ata-B"), ("ID_BUS", "ata")]),
    ];
    let machine = Machine { name: "box".to_string(), disks };
    let ops = create_zvols(&machine, Some("pool"), "pk", "z").unwrap();
    assert_eq!(ops.len(), 2);
    assert_eq!(ops[0].operation.args.last().unwrap(), "pool/reflectron/box/nvme-A");
    assert_eq!(ops[1].operation.args.last().unwrap(), "pool/reflectron/box/ata-B");
    assert_eq!(ops[1].check.as_ref().unwrap().args, strings(&["z", "list", "pool/reflectron/box/ata-B"]));
}

#[test]
fn volumes_need_a_pool() {
    let machine = Machine { name: "box".to_string(), disks: vec![disk("sda", &[])] };
    assert!(matches!(create_zvols(&machine, None, "pk", "z"), Err(ProvisionError::PoolUnset)));
    let empty = Machine { name: "box".to_string(), disks: vec![] };
    assert_eq!(create_zvols(&empty, None, "pk", "z").unwrap().len(), 0);
    assert_eq!(create_zvols(&empty, Some("pool"), "pk", "z").unwrap().len(), 0);
}

#[test]
fn attributes_are_listed_in_the_order_of_their_keys() {
    let mut a = Attributes::new();
    for key in ["ID_SERIAL", "DEVLINKS", "ID_BUS", "a", "Z", "", "ID_", "\u{e9}", "z"] {
        a.insert(key.to_string(), key.to_lowercase());
    }
    a.insert("ID_BUS".to_string(), "ata".to_string());
    let keys: Vec<&str> = a.entries().iter().map(|e| e.0.as_str()).collect();
    let mut sorted = keys.clone();
    sorted.sort();
    assert_eq!(keys, sorted);
    assert_eq!(keys, ["", "DEVLINKS", "ID_", "ID_BUS", "ID_SERIAL", "Z", "a", "z", "\u{e9}"]);
    assert_eq!(a.entries()[3].1, "ata");
}

#[test]
fn a_disk_is_described_with_the_fields_it_has() {
    let mut d = disk("sda", &[]);
    assert_eq!(d.describe(), "Name: sda\nSize: 4096\nDevice Type: disk\n");
    d.wwn = Some("0x5000".to_string());
    d.model = Some("WDC".to_string());
    assert_eq!(d.describe(), "Name: sda\nSize: 4096\nDevice Type: disk\nWWN: 0x5000\nModel: WDC\n");
    d.serial = Some("S1".to_string());
    d.vendor = Some("ATA".to_string());
    d.additional_info.insert("ID_SERIAL".to_string(), "S1".to_string());
    d.additional_info.insert("ID_BUS".to_string(), "ata".to_string());
    assert_eq!(
        d.describe(),
        "Name: sda\nSize: 4096\nDevice Type: disk\nWWN: 0x5000\nSerial: S1\nModel: WDC\nVendor: ATA\nAdditional Information:\n  ID_BUS: ata\n  ID_SERIAL: S1\n"
    );
}

#[test]
fn the_probe_prints_what_the_parser_reads() {
    assert!(DISK_INFO.contains("lsblk -b -ndo NAME,SIZE,TYPE,WWN,SERIAL,MODEL,VENDOR"));
    assert!(DISK_INFO.contains("echo \"Disk: $disk\";"));
    assert!(DISK_INFO.contains("udevadm info --query=all --name=/dev/$disk"));
}

#[test]
fn attributes_are_rebuilt_from_their_listing() {
    let mut a = Attributes::new();
    for (key, value) in [("ID_SERIAL", "WD-1234"), ("DEVLINKS", "/dev/disk/by-id/ata-WD-1234"), ("ID_BUS", "ata")] {
        a.insert(key.to_string(), value.to_string());
    }
    let rebuilt = Attributes::from_entries(a.entries().clone());
    assert_eq!(rebuilt, a);
    assert_eq!(rebuilt.entries(), a.entries());
    assert_eq!(Attributes::from_entries(Vec::new()), Attributes::new());
}

#[test]
fn the_last_of_several_values_for_a_key_stays() {
    let pairs = vec![
        ("k".to_string(), "1".to_string()),
        ("l".to_string(), "2".to_string()),
        ("k".to_string(), "3".to_string()),
    ];
    let a = Attributes::from_entries(pairs);
    assert_eq!(a.len(), 2);
    assert_eq!(a.get("k").unwrap(), "3");
    assert_eq!(a.get("l").unwrap(), "2");
}

#[test]
fn disk_errors_tell_what_is_wrong() {
    assert_eq!(
        DiskError::MissingDevlinks { disk: "sda".to_string() }.message(),
        "Could not find DEVLINKS in additional info for disk sda"
    );
    assert_eq!(
        DiskError::MissingSerial { disk: "sda".to_string() }.message(),
        "Could not find ID_SERIAL in disk additional_info for disk sda"
    );
    assert_eq!(
        DiskError::IdentityMismatch {
            disk: "sda".to_string(),
            identity: "ata-WD-1234".to_string(),
            devlinks: "/dev/disk/by-id/ata-WD-9999".to_string(),
        }
        .message(),
        "Calculated disk ID 'ata-WD-1234' not found in DEVLINKS '/dev/disk/by-id/ata-WD-9999' for disk sda"
    );
    assert_eq!(
        ProvisionError::PoolUnset.message(),
        "Reflectron property disk-pool has not been set. Use 'ref set disk-pool <poolname>' to set it, and retry this command."
    );
    assert_eq!(
        ProvisionError::Disk(DiskError::MissingSerial { disk: "sdb".to_string() }).message(),
        "Could not find ID_SERIAL in disk additional_info for disk sdb"
    );
}

#[test]
fn a_volume_is_created_sparse_with_blocks_of_four_kib() {
    let op = zvol_operation("pk", "z", "tank/reflectron/m1/ata-A", "8192", "ata-wdc-a");
    assert_eq!(op.description, "Create ZVOL for disk ata-wdc-a");
    assert_eq!(op.check.unwrap().args, strings(&["z", "list", "tank/reflectron/m1/ata-A"]));
    assert_eq!(op.operation.program, "pk");
    assert_eq!(
        op.operation.args,
        strings(&["z", "create", "-s", "-b", "4K", "-V", "8192", "tank/reflectron/m1/ata-A"])
    );
    assert!(op.stream_output);
}
