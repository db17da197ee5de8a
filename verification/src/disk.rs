//! Disks: the records parsed from a machine's probe output, the identity of
//! each, and the volumes that stand for them on the storage pool.

use vstd::prelude::*;
use vstd::string::StringExecFns;
use crate::attributes::{ascending, map_of, Attributes};
use crate::base::{zfs, CommandView, Operation, OperationView};
use crate::machine::Machine;
use crate::text::{
    concat, contains, index_of, is_contained, lemma_index_of, lines, lines_of, lowercase,
    replace_char, replaced, rows, same_text, slice, split_whitespace, starts_with, strip_all,
    strip_prefixes, to_chars, to_lowercase, to_string, trim, trimmed, words,
};

verus! {

/// The probe: the shell commands that, run on a machine, print its disks in
/// the form that `parse_output` reads. A table of the disks comes first, one
/// line each; then for each disk a header line with its name and the lines of
/// its attributes.
pub const DISK_INFO: &'static str = "
        lsblk -b -ndo NAME,SIZE,TYPE,WWN,SERIAL,MODEL,VENDOR | grep -v ^loop;
        echo '';
        for disk in $(lsblk -ndo NAME | grep -v ^loop); do
            echo \"Disk: $disk\";
            udevadm info --query=all --name=/dev/$disk | grep -E 'ID_|by-';
            echo '';
        done
    ";

/// A disk as the probe reported it.
#[derive(Debug, PartialEq)]
pub struct Disk {
    pub name: String,
    pub size: String,
    pub device_type: String,
    pub wwn: Option<String>,
    pub serial: Option<String>,
    pub model: Option<String>,
    pub vendor: Option<String>,
    pub additional_info: Attributes,
}

/// What a `Disk` holds, as mathematical values.
pub struct DiskView {
    pub name: Seq<char>,
    pub size: Seq<char>,
    pub device_type: Seq<char>,
    pub wwn: Option<Seq<char>>,
    pub serial: Option<Seq<char>>,
    pub model: Option<Seq<char>>,
    pub vendor: Option<Seq<char>>,
    pub additional_info: Map<Seq<char>, Seq<char>>,
}

/// The text of an optional string.
pub open spec fn option_text(o: Option<String>) -> Option<Seq<char>> {
    match o {
        Some(s) => Some(s@),
        None => None,
    }
}

impl View for Disk {
    type V = DiskView;

    open spec fn view(&self) -> DiskView {
        DiskView {
            name: self.name@,
            size: self.size@,
            device_type: self.device_type@,
            wwn: option_text(self.wwn),
            serial: option_text(self.serial),
            model: option_text(self.model),
            vendor: option_text(self.vendor),
            additional_info: self.additional_info@,
        }
    }
}

/// The views of a list of disks.
pub open spec fn disk_views(disks: Seq<Disk>) -> Seq<DiskView> {
    disks.map_values(|d: Disk| d@)
}

/// The marker that starts a disk header line.
pub open spec fn header_marker() -> Seq<char> {
    "Disk: "@
}

/// The marker that starts an attribute line which names a device link.
pub open spec fn link_marker() -> Seq<char> {
    "S: "@
}

/// The marker that starts an attribute line which names a device property.
pub open spec fn property_marker() -> Seq<char> {
    "E: "@
}

/// Whether `line` is a disk header.
pub open spec fn is_header(line: Seq<char>) -> bool {
    header_marker().is_prefix_of(line)
}

/// Whether `line` is an attribute line.
pub open spec fn is_attribute(line: Seq<char>) -> bool {
    link_marker().is_prefix_of(line) || property_marker().is_prefix_of(line)
}

/// The disk that a header line names.
pub open spec fn header_name(line: Seq<char>) -> Seq<char> {
    strip_prefixes(line, header_marker())
}

/// The key and the value of an attribute line: what stands left and right of
/// the first `=` behind the markers, without surrounding white space. A line
/// without `=` gives none.
pub open spec fn attribute_pair(line: Seq<char>) -> Option<(Seq<char>, Seq<char>)> {
    let body = strip_prefixes(strip_prefixes(line, link_marker()), property_marker());
    let at = index_of(body, '=');
    if at < body.len() {
        Some((trimmed(body.take(at as int)), trimmed(body.skip(at as int + 1))))
    } else {
        None
    }
}

/// The word at `i`, where there is one.
pub open spec fn word_at(w: Seq<Seq<char>>, i: int) -> Option<Seq<char>> {
    if 0 <= i < w.len() {
        Some(w[i])
    } else {
        None
    }
}

/// The disk that a primary line describes by its words `name size type [wwn]
/// [serial] [model] [vendor]`. A line of fewer than three words describes none.
pub open spec fn primary_disk(line: Seq<char>) -> Option<DiskView> {
    let w = words(line);
    if w.len() < 3 {
        None
    } else {
        Some(
            DiskView {
                name: w[0],
                size: w[1],
                device_type: w[2],
                wwn: word_at(w, 3),
                serial: word_at(w, 4),
                model: word_at(w, 5),
                vendor: word_at(w, 6),
                additional_info: Map::empty(),
            },
        )
    }
}

/// The index of the first of `disks` that is named `name`, or their number
/// where none is.
pub open spec fn first_named(disks: Seq<DiskView>, name: Seq<char>) -> nat
    decreases disks.len(),
{
    if disks.len() > 0 && disks[0].name != name {
        1 + first_named(disks.skip(1), name)
    } else {
        0
    }
}

/// The first disk of a name stands where no earlier disk has that name.
pub proof fn lemma_first_named(disks: Seq<DiskView>, name: Seq<char>, n: int)
    requires
        0 <= n <= disks.len(),
        forall|i: int| 0 <= i < n ==> (#[trigger] disks[i]).name != name,
        n < disks.len() ==> disks[n].name == name,
    ensures
        first_named(disks, name) == n,
    decreases n,
{
    if n > 0 {
        let rest = disks.skip(1);
        assert forall|i: int| 0 <= i < n - 1 implies (#[trigger] rest[i]).name != name by {
            assert(rest[i] == disks[i + 1]);
        }
        lemma_first_named(rest, name, n - 1);
    }
}

/// `disk` with `key` mapped to `value` among its additional attributes.
pub open spec fn with_attribute(disk: DiskView, key: Seq<char>, value: Seq<char>) -> DiskView {
    DiskView { additional_info: disk.additional_info.insert(key, value), ..disk }
}

/// What the parser has gathered so far: the disks in the order of their
/// primary lines, and the disk that the last header named.
pub struct ParseState {
    pub disks: Seq<DiskView>,
    pub current: Option<Seq<char>>,
}

/// The effect of one line. An empty line has none. A header names the current
/// disk. An attribute line adds its pair to the first disk that has the current
/// name, if there is such a disk and the line holds a pair. Any other line adds
/// the disk it describes, if it describes one.
pub open spec fn parse_line(state: ParseState, line: Seq<char>) -> ParseState {
    if line.len() == 0 {
        state
    } else if is_header(line) {
        ParseState { current: Some(header_name(line)), ..state }
    } else if is_attribute(line) {
        match (state.current, attribute_pair(line)) {
            (Some(name), Some((key, value))) => {
                let at = first_named(state.disks, name) as int;
                if at < state.disks.len() {
                    ParseState {
                        disks: state.disks.update(
                            at,
                            with_attribute(state.disks[at], key, value),
                        ),
                        ..state
                    }
                } else {
                    state
                }
            },
            _ => state,
        }
    } else {
        match primary_disk(line) {
            Some(disk) => ParseState { disks: state.disks.push(disk), ..state },
            None => state,
        }
    }
}

/// `disk` without its additional attributes.
pub open spec fn primary_part(disk: DiskView) -> DiskView {
    DiskView { additional_info: Map::empty(), ..disk }
}

/// Whether `after` holds the disks of `before` in their places, each with the
/// primary part it had.
pub open spec fn keeps_disks(before: Seq<DiskView>, after: Seq<DiskView>) -> bool {
    &&& before.len() <= after.len()
    &&& forall|i: int|
        0 <= i < before.len() ==> primary_part(#[trigger] after[i]) == primary_part(before[i])
}

/// No line takes a disk away, moves one or changes its primary part: only a
/// primary line adds a disk, at the end, and only an attribute line changes
/// one, in its additional attributes alone.
pub proof fn lemma_parse_line_keeps_disks(state: ParseState, line: Seq<char>)
    ensures
        keeps_disks(state.disks, parse_line(state, line).disks),
        parse_line(state, line).disks.len() <= state.disks.len() + 1,
        parse_line(state, line).disks.len() > state.disks.len() ==> {
            &&& line.len() > 0
            &&& !is_header(line)
            &&& !is_attribute(line)
            &&& primary_disk(line) == Some(parse_line(state, line).disks.last())
        },
{
}

/// The disks stand in the order of their primary lines: what more lines add
/// comes behind the disks that earlier lines gave.
pub proof fn lemma_parse_lines_keeps_disks(lines: Seq<Seq<char>>, n: int)
    requires
        0 <= n <= lines.len(),
    ensures
        keeps_disks(parse_lines(lines.take(n)).disks, parse_lines(lines).disks),
    decreases lines.len() - n,
{
    if n == lines.len() {
        assert(lines.take(n) == lines);
    } else {
        lemma_parse_lines_keeps_disks(lines, n + 1);
        assert(lines.take(n + 1).drop_last() == lines.take(n));
        lemma_parse_line_keeps_disks(parse_lines(lines.take(n)), lines[n]);
        let a = parse_lines(lines.take(n)).disks;
        let b = parse_lines(lines.take(n + 1)).disks;
        let c = parse_lines(lines).disks;
        assert forall|i: int| 0 <= i < a.len() implies primary_part(#[trigger] c[i])
            == primary_part(a[i]) by {
            assert(primary_part(b[i]) == primary_part(a[i]));
        }
    }
}

/// The effect of `lines`, one after another, on the empty state.
pub open spec fn parse_lines(lines: Seq<Seq<char>>) -> ParseState
    decreases lines.len(),
{
    if lines.len() == 0 {
        ParseState { disks: Seq::empty(), current: None }
    } else {
        parse_line(parse_lines(lines.drop_last()), lines.last())
    }
}

/// The disks that the probe text `text` describes, in the order of their
/// primary lines.
pub open spec fn parsed_disks(text: Seq<char>) -> Seq<DiskView> {
    parse_lines(lines_of(text)).disks
}

/// The index of the first of `disks` that is named `name`.
fn find_named(disks: &Vec<Disk>, name: &str) -> (r: Option<usize>)
    ensures
        match r {
            Some(i) => i < disks.len() && i == first_named(disk_views(disks@), name@),
            None => first_named(disk_views(disks@), name@) == disks.len(),
        },
{
    let mut i: usize = 0;
    while i < disks.len()
        invariant
            i <= disks.len(),
            forall|k: int| 0 <= k < i ==> (#[trigger] disk_views(disks@)[k]).name != name@,
        decreases disks.len() - i,
    {
        if same_text(disks[i].name.as_str(), name) {
            proof {
                lemma_first_named(disk_views(disks@), name@, i as int);
            }
            return Some(i);
        }
        assert(disk_views(disks@)[i as int].name != name@);
        i += 1;
    }
    proof {
        lemma_first_named(disk_views(disks@), name@, i as int);
    }
    None
}

/// The key and the value of the attribute line `line`.
fn split_attribute(line: &Vec<char>, link: &Vec<char>, property: &Vec<char>) -> (r: Option<
    (String, String),
>)
    requires
        link@ == link_marker(),
        property@ == property_marker(),
    ensures
        match r {
            Some((key, value)) => attribute_pair(line@) == Some((key@, value@)),
            None => attribute_pair(line@) is None,
        },
{
    let body = strip_all(&strip_all(line, link), property);
    let mut at: usize = 0;
    while at < body.len() && body[at] != '='
        invariant
            at <= body.len(),
            forall|i: int| 0 <= i < at ==> #[trigger] body@[i] != '=',
        decreases body.len() - at,
    {
        at += 1;
    }
    proof {
        lemma_index_of(body@, '=', at as int);
    }
    if at < body.len() {
        let key = trim(&slice(&body, 0, at));
        let value = trim(&slice(&body, at + 1, body.len()));
        Some((to_string(&key), to_string(&value)))
    } else {
        None
    }
}

/// The string of the word at `i`, where there is one.
fn word_string(parts: &Vec<Vec<char>>, i: usize) -> (r: Option<String>)
    ensures
        option_text(r) == word_at(rows(parts@), i as int),
{
    if i < parts.len() {
        Some(to_string(&parts[i]))
    } else {
        None
    }
}

/// The disk that the primary line `line` describes.
fn read_primary(line: &Vec<char>) -> (r: Option<Disk>)
    ensures
        match r {
            Some(disk) => primary_disk(line@) == Some(disk@),
            None => primary_disk(line@) is None,
        },
{
    let parts = split_whitespace(line);
    if parts.len() < 3 {
        return None;
    }
    let disk = Disk {
        name: to_string(&parts[0]),
        size: to_string(&parts[1]),
        device_type: to_string(&parts[2]),
        wwn: word_string(&parts, 3),
        serial: word_string(&parts, 4),
        model: word_string(&parts, 5),
        vendor: word_string(&parts, 6),
        additional_info: Attributes::new(),
    };
    Some(disk)
}

/// Parses probe text into disks, without judging them. The text mixes a table
/// of disks, one primary line each, with per-disk dumps of attributes: a
/// header line that names the disk, then its attribute lines.
pub fn parse_disks(output: &str) -> (disks: Vec<Disk>)
    ensures
        disk_views(disks@) == parsed_disks(output@),
{
    let chars = to_chars(output);
    let all = lines(&chars);
    let header = to_chars("Disk: ");
    let link = to_chars("S: ");
    let property = to_chars("E: ");
    let mut disks: Vec<Disk> = Vec::new();
    let mut current: Option<String> = None;
    let mut i: usize = 0;
    assert(rows(all@).take(0) == Seq::<Seq<char>>::empty());
    assert(disk_views(disks@) == Seq::<DiskView>::empty());
    while i < all.len()
        invariant
            i <= all.len(),
            header@ == header_marker(),
            link@ == link_marker(),
            property@ == property_marker(),
            parse_lines(rows(all@).take(i as int)) == (ParseState {
                disks: disk_views(disks@),
                current: option_text(current),
            }),
        decreases all.len() - i,
    {
        let line = &all[i];
        proof {
            let next = rows(all@).take(i + 1);
            assert(next.drop_last() == rows(all@).take(i as int));
            assert(next.last() == line@);
        }
        if line.len() == 0 {
            // An empty line says nothing.
        } else if starts_with(line, &header) {
            current = Some(to_string(&strip_all(line, &header)));
        } else if starts_with(line, &link) || starts_with(line, &property) {
            if let Some(name) = &current {
                if let Some((key, value)) = split_attribute(line, &link, &property) {
                    if let Some(at) = find_named(&disks, name.as_str()) {
                        let ghost old_disks = disks@;
                        disks[at].additional_info.insert(key, value);
                        proof {
                            assert(disks@[at as int]@ == with_attribute(
                                old_disks[at as int]@,
                                key@,
                                value@,
                            ));
                            assert(disk_views(disks@) == disk_views(old_disks).update(
                                at as int,
                                with_attribute(old_disks[at as int]@, key@, value@),
                            ));
                        }
                    }
                }
            }
        } else {
            if let Some(disk) = read_primary(line) {
                proof {
                    assert(disk_views(disks@.push(disk)) == disk_views(disks@).push(disk@));
                }
                disks.push(disk);
            }
        }
        i += 1;
    }
    assert(rows(all@).take(all.len() as int) == rows(all@));
    disks
}

/// Why a disk cannot be trusted.
#[derive(Debug, PartialEq)]
pub enum DiskError {
    /// The disk has no `DEVLINKS` attribute.
    MissingDevlinks { disk: String },
    /// The disk has no `ID_SERIAL` attribute.
    MissingSerial { disk: String },
    /// The disk's `DEVLINKS` attribute does not hold its identity.
    IdentityMismatch { disk: String, identity: String, devlinks: String },
}

/// What a `DiskError` holds, as mathematical values.
pub enum DiskFault {
    MissingDevlinks { disk: Seq<char> },
    MissingSerial { disk: Seq<char> },
    IdentityMismatch { disk: Seq<char>, identity: Seq<char>, devlinks: Seq<char> },
}

impl View for DiskError {
    type V = DiskFault;

    open spec fn view(&self) -> DiskFault {
        match self {
            DiskError::MissingDevlinks { disk } => DiskFault::MissingDevlinks { disk: disk@ },
            DiskError::MissingSerial { disk } => DiskFault::MissingSerial { disk: disk@ },
            DiskError::IdentityMismatch { disk, identity, devlinks } => DiskFault::IdentityMismatch {
                disk: disk@,
                identity: identity@,
                devlinks: devlinks@,
            },
        }
    }
}

/// The first part of a disk's identity: `ata-` for a disk on the ATA bus, as
/// its `ID_BUS` attribute tells, and `nvme-` for any other.
pub open spec fn bus_prefix(info: Map<Seq<char>, Seq<char>>) -> Seq<char> {
    if info.contains_key("ID_BUS"@) && info["ID_BUS"@] == "ata"@ {
        "ata-"@
    } else {
        "nvme-"@
    }
}

/// The identity of a disk: the bus prefix followed by the `ID_SERIAL`
/// attribute. A disk without that attribute has none.
pub open spec fn disk_identity(disk: DiskView) -> Option<Seq<char>> {
    if disk.additional_info.contains_key("ID_SERIAL"@) {
        Some(bus_prefix(disk.additional_info) + disk.additional_info["ID_SERIAL"@])
    } else {
        None
    }
}

/// What is wrong with a disk, if anything: its identity must stand in its
/// `DEVLINKS` attribute.
pub open spec fn disk_fault(disk: DiskView) -> Option<DiskFault> {
    if !disk.additional_info.contains_key("DEVLINKS"@) {
        Some(DiskFault::MissingDevlinks { disk: disk.name })
    } else {
        match disk_identity(disk) {
            None => Some(DiskFault::MissingSerial { disk: disk.name }),
            Some(identity) => if contains(disk.additional_info["DEVLINKS"@], identity) {
                None
            } else {
                Some(
                    DiskFault::IdentityMismatch {
                        disk: disk.name,
                        identity,
                        devlinks: disk.additional_info["DEVLINKS"@],
                    },
                )
            },
        }
    }
}

/// The fault of the first of `disks` that has one.
pub open spec fn first_fault(disks: Seq<DiskView>) -> Option<DiskFault>
    decreases disks.len(),
{
    if disks.len() == 0 {
        None
    } else {
        match first_fault(disks.drop_last()) {
            Some(fault) => Some(fault),
            None => disk_fault(disks.last()),
        }
    }
}

/// What probe text stands for: the disks it describes if each of them can be
/// trusted, else the fault of the first that cannot.
pub open spec fn parse_output_spec(text: Seq<char>) -> Result<Seq<DiskView>, DiskFault> {
    match first_fault(parsed_disks(text)) {
        Some(fault) => Err(fault),
        None => Ok(parsed_disks(text)),
    }
}

/// Whether `result` is what parsing `text` gives.
pub open spec fn is_parse_result(text: Seq<char>, result: Result<Vec<Disk>, DiskError>) -> bool {
    match result {
        Ok(disks) => parse_output_spec(text) == Ok::<Seq<DiskView>, DiskFault>(disk_views(disks@)),
        Err(e) => parse_output_spec(text) == Err::<Seq<DiskView>, DiskFault>(e@),
    }
}

/// The identity of `disk`, by which its volume is named.
pub fn create_disk_id(disk: &Disk) -> (r: Result<String, DiskError>)
    ensures
        match r {
            Ok(identity) => disk_identity(disk@) == Some(identity@),
            Err(e) => disk_identity(disk@) is None && e@ == (DiskFault::MissingSerial {
                disk: disk.name@,
            }),
        },
{
    match disk.additional_info.get("ID_SERIAL") {
        Some(serial) => {
            let on_ata = match disk.additional_info.get("ID_BUS") {
                Some(bus) => same_text(bus.as_str(), "ata"),
                None => false,
            };
            let prefix = if on_ata {
                "ata-"
            } else {
                "nvme-"
            };
            Ok(concat(prefix, serial.as_str()))
        },
        None => Err(DiskError::MissingSerial { disk: disk.name.clone() }),
    }
}

/// The identity of `disk`, once its device links have confirmed it.
pub fn confirmed_identity(disk: &Disk) -> (r: Result<String, DiskError>)
    ensures
        match r {
            Ok(identity) => disk_fault(disk@) is None && disk_identity(disk@) == Some(identity@),
            Err(e) => disk_fault(disk@) == Some(e@),
        },
{
    match disk.additional_info.get("DEVLINKS") {
        None => Err(DiskError::MissingDevlinks { disk: disk.name.clone() }),
        Some(devlinks) => {
            let identity = create_disk_id(disk)?;
            if is_contained(&to_chars(devlinks.as_str()), &to_chars(identity.as_str())) {
                Ok(identity)
            } else {
                Err(
                    DiskError::IdentityMismatch {
                        disk: disk.name.clone(),
                        identity,
                        devlinks: devlinks.clone(),
                    },
                )
            }
        },
    }
}

/// Judges `disk`: its identity must be confirmed by its device links.
pub fn validate(disk: &Disk) -> (r: Result<(), DiskError>)
    ensures
        match r {
            Ok(_) => disk_fault(disk@) is None,
            Err(e) => disk_fault(disk@) == Some(e@),
        },
{
    match confirmed_identity(disk) {
        Ok(_) => Ok(()),
        Err(e) => Err(e),
    }
}

/// Parses probe text into disks and judges each of them, in order. The result
/// is the disks if all of them can be trusted, and the fault of the first that
/// cannot otherwise.
pub fn parse_output(output: &str) -> (r: Result<Vec<Disk>, DiskError>)
    ensures
        is_parse_result(output@, r),
{
    let disks = parse_disks(output);
    let mut i: usize = 0;
    assert(disk_views(disks@).take(0) == Seq::<DiskView>::empty());
    while i < disks.len()
        invariant
            i <= disks.len(),
            disk_views(disks@) == parsed_disks(output@),
            first_fault(disk_views(disks@).take(i as int)) is None,
        decreases disks.len() - i,
    {
        proof {
            let next = disk_views(disks@).take(i + 1);
            assert(next.drop_last() == disk_views(disks@).take(i as int));
            assert(next.last() == disks@[i as int]@);
        }
        match validate(&disks[i]) {
            Ok(_) => {},
            Err(e) => {
                proof {
                    lemma_first_fault_prefix(disk_views(disks@), i + 1);
                }
                return Err(e);
            },
        }
        i += 1;
    }
    assert(disk_views(disks@).take(disks.len() as int) == disk_views(disks@));
    Ok(disks)
}

/// A fault among the first `n` disks is the first fault of them all.
pub proof fn lemma_first_fault_prefix(disks: Seq<DiskView>, n: int)
    requires
        0 <= n <= disks.len(),
        first_fault(disks.take(n)) is Some,
    ensures
        first_fault(disks) == first_fault(disks.take(n)),
    decreases disks.len() - n,
{
    if n == disks.len() {
        assert(disks.take(n) == disks);
    } else {
        assert(disks.take(n + 1).drop_last() == disks.take(n));
        lemma_first_fault_prefix(disks, n + 1);
    }
}

/// Why the volumes of a machine cannot be planned.
#[derive(Debug, PartialEq)]
pub enum ProvisionError {
    /// No storage pool has been set.
    PoolUnset,
    /// One of the machine's disks cannot be trusted.
    Disk(DiskError),
}

/// What a `ProvisionError` holds, as mathematical values.
pub enum ProvisionFault {
    PoolUnset,
    Disk(DiskFault),
}

impl View for ProvisionError {
    type V = ProvisionFault;

    open spec fn view(&self) -> ProvisionFault {
        match self {
            ProvisionError::PoolUnset => ProvisionFault::PoolUnset,
            ProvisionError::Disk(e) => ProvisionFault::Disk(e@),
        }
    }
}

/// The dataset under which the volumes of the machine `machine` stand on the
/// pool `pool`.
pub open spec fn machine_path(pool: Seq<char>, machine: Seq<char>) -> Seq<char> {
    pool + "/reflectron/"@ + machine
}

/// The volume that stands for the disk of identity `identity` of a machine.
pub open spec fn volume_path(pool: Seq<char>, machine: Seq<char>, identity: Seq<char>) -> Seq<
    char,
> {
    machine_path(pool, machine) + "/"@ + identity
}

/// `part`, or the word `unknown` in its place.
pub open spec fn or_unknown(part: Option<Seq<char>>) -> Seq<char> {
    match part {
        Some(text) => text,
        None => "unknown"@,
    }
}

/// The label under which a disk is shown: vendor, model and serial number
/// with hyphens between them and in place of spaces, in lower case. It tells
/// people which disk is meant and is no identity.
pub open spec fn disk_label(disk: DiskView) -> Seq<char> {
    lowercase(
        replaced(
            or_unknown(disk.vendor) + "-"@ + or_unknown(disk.model) + "-"@ + or_unknown(
                disk.serial,
            ),
            ' ',
            '-',
        ),
    )
}

/// The operation that creates the volume at `path` unless it exists: a sparse
/// volume of `size` bytes with blocks of 4 KiB, for the disk that is shown as
/// `label`.
pub open spec fn labelled_volume_operation(
    pkexec_path: Seq<char>,
    zfs_path: Seq<char>,
    path: Seq<char>,
    size: Seq<char>,
    label: Seq<char>,
) -> OperationView {
    OperationView {
        description: "Create ZVOL for disk "@ + label,
        check: Some(CommandView { program: pkexec_path, args: seq![zfs_path, "list"@, path] }),
        operation: CommandView {
            program: pkexec_path,
            args: seq![zfs_path, "create"@, "-s"@, "-b"@, "4K"@, "-V"@, size, path],
        },
        stream_output: true,
    }
}

/// The operation that creates the volume at `path` for `disk` unless it
/// exists: a sparse volume of the disk's size in bytes with blocks of 4 KiB.
pub open spec fn volume_operation(
    pkexec_path: Seq<char>,
    zfs_path: Seq<char>,
    path: Seq<char>,
    disk: DiskView,
) -> OperationView {
    labelled_volume_operation(pkexec_path, zfs_path, path, disk.size, disk_label(disk))
}

/// The text of `part`, or the word `unknown` in its place.
fn text_or_unknown(part: &Option<String>) -> (r: &str)
    ensures
        r@ == or_unknown(option_text(*part)),
{
    match part {
        Some(text) => text.as_str(),
        None => "unknown",
    }
}

/// The label under which `disk` is shown.
pub fn label(disk: &Disk) -> (r: String)
    ensures
        r@ == disk_label(disk@),
{
    let mut raw = concat(text_or_unknown(&disk.vendor), "-");
    raw.append(text_or_unknown(&disk.model));
    raw.append("-");
    raw.append(text_or_unknown(&disk.serial));
    to_lowercase(replace_char(raw.as_str(), ' ', '-').as_str())
}

/// The path of the volume that stands for the disk of identity `identity` of
/// the machine `machine` on the pool `pool`.
pub fn zvol_path(pool: &str, machine: &str, identity: &str) -> (path: String)
    ensures
        path@ == volume_path(pool@, machine@, identity@),
{
    let mut path = concat(pool, "/reflectron/");
    path.append(machine);
    path.append("/");
    path.append(identity);
    path
}

/// The operation that creates the volume at `path` unless it exists: a sparse
/// volume of `size` bytes with blocks of 4 KiB, for the disk that is shown as
/// `label`. The query for the volume is the check, so that an existing volume
/// is left as it is.
pub fn zvol_operation(pkexec_path: &str, zfs_path: &str, path: &str, size: &str, label: &str) -> (op:
    Operation)
    ensures
        op@ == labelled_volume_operation(pkexec_path@, zfs_path@, path@, size@, label@),
{
    let check = zfs(pkexec_path, zfs_path, &["list", path]);
    let operation = zfs(pkexec_path, zfs_path, &["create", "-s", "-b", "4K", "-V", size, path]);
    assert(check@.args =~= seq![zfs_path@, "list"@, path@]);
    assert(operation@.args =~= seq![
        zfs_path@,
        "create"@,
        "-s"@,
        "-b"@,
        "4K"@,
        "-V"@,
        size@,
        path@,
    ]);
    Operation {
        description: concat("Create ZVOL for disk ", label),
        check: Some(check),
        operation,
        stream_output: true,
    }
}

/// Plans the volumes of `machine`: one operation for each disk, in the order
/// of the disks. Each creates the disk's volume on the pool, under the disk's
/// identity, unless that volume exists already. A machine without disks needs
/// nothing. Otherwise a pool must be set, and every disk must be confirmed by
/// its device links: the first that is not makes the whole plan fail, so that
/// no volume is made for a machine with a disk that cannot be trusted. The
/// plan is performed as `base::first_step` and `base::next_step` say: in its
/// order, and no further than the first operation that fails.
pub fn create_zvols(machine: &Machine, pool: Option<&str>, pkexec_path: &str, zfs_path: &str) -> (r:
    Result<Vec<Operation>, ProvisionError>)
    ensures
        match r {
            Ok(ops) => {
                &&& machine.disks.len() > 0 ==> pool is Some
                &&& first_fault(machine@.disks) is None
                &&& ops.len() == machine.disks.len()
                &&& forall|i: int|
                    0 <= i < ops.len() ==> (#[trigger] ops[i])@ == volume_operation(
                        pkexec_path@,
                        zfs_path@,
                        volume_path(
                            pool->0@,
                            machine.name@,
                            disk_identity(machine@.disks[i])->0,
                        ),
                        machine@.disks[i],
                    )
            },
            Err(e) => if machine.disks.len() > 0 && pool is None {
                e@ == ProvisionFault::PoolUnset
            } else {
                first_fault(machine@.disks) matches Some(fault) && e@ == ProvisionFault::Disk(
                    fault,
                )
            },
        },
{
    let mut ops: Vec<Operation> = Vec::new();
    if machine.disks.len() == 0 {
        assert(machine@.disks.len() == 0);
        return Ok(ops);
    }
    let on = match pool {
        Some(on) => on,
        None => {
            return Err(ProvisionError::PoolUnset);
        },
    };
    let mut i: usize = 0;
    assert(machine@.disks.take(0) == Seq::<DiskView>::empty());
    while i < machine.disks.len()
        invariant
            i <= machine.disks.len(),
            pool == Some(on),
            first_fault(machine@.disks.take(i as int)) is None,
            ops.len() == i,
            forall|k: int|
                0 <= k < i ==> (#[trigger] ops[k])@ == volume_operation(
                    pkexec_path@,
                    zfs_path@,
                    volume_path(on@, machine.name@, disk_identity(machine@.disks[k])->0),
                    machine@.disks[k],
                ),
        decreases machine.disks.len() - i,
    {
        let disk = &machine.disks[i];
        proof {
            let next = machine@.disks.take(i + 1);
            assert(next.drop_last() == machine@.disks.take(i as int));
            assert(next.last() == disk@);
        }
        let identity = match confirmed_identity(disk) {
            Ok(identity) => identity,
            Err(e) => {
                proof {
                    lemma_first_fault_prefix(machine@.disks, i + 1);
                }
                return Err(ProvisionError::Disk(e));
            },
        };
        let path = zvol_path(on, machine.name.as_str(), identity.as_str());
        let op = zvol_operation(
            pkexec_path,
            zfs_path,
            path.as_str(),
            disk.size.as_str(),
            label(disk).as_str(),
        );
        ops.push(op);
        i += 1;
    }
    assert(machine@.disks.take(machine.disks.len() as int) == machine@.disks);
    Ok(ops)
}

/// Parsing is a function of the text: two results of parsing the same text
/// hold the same disks in the same order, or the same fault.
pub proof fn lemma_parse_is_deterministic(
    text: Seq<char>,
    again: Seq<char>,
    first: Result<Vec<Disk>, DiskError>,
    second: Result<Vec<Disk>, DiskError>,
)
    requires
        text == again,
        is_parse_result(text, first),
        is_parse_result(again, second),
    ensures
        match (first, second) {
            (Ok(a), Ok(b)) => disk_views(a@) == disk_views(b@),
            (Err(a), Err(b)) => a@ == b@,
            _ => false,
        },
{
}

/// A disk is found trustworthy exactly if it has device links and an identity
/// and the identity is a part of the device links.
pub proof fn lemma_trusted_iff_identity_in_devlinks(disk: DiskView)
    ensures
        disk_fault(disk) is None <==> {
            &&& disk.additional_info.contains_key("DEVLINKS"@)
            &&& disk_identity(disk) matches Some(identity)
            &&& contains(disk.additional_info["DEVLINKS"@], identity)
        },
{
}

/// Disks that parsing hands out can all be trusted.
pub proof fn lemma_parsed_disks_are_trusted(text: Seq<char>, i: int)
    requires
        parse_output_spec(text) is Ok,
        0 <= i < parsed_disks(text).len(),
    ensures
        disk_fault(parsed_disks(text)[i]) is None,
{
    lemma_no_fault_means_none(parsed_disks(text), i);
}

/// Where no disk of a list is the first with a fault, none has a fault.
pub proof fn lemma_no_fault_means_none(disks: Seq<DiskView>, i: int)
    requires
        first_fault(disks) is None,
        0 <= i < disks.len(),
    ensures
        disk_fault(disks[i]) is None,
    decreases disks.len(),
{
    if i < disks.len() - 1 {
        lemma_no_fault_means_none(disks.drop_last(), i);
    }
}

/// The line that shows `value` under `label`.
pub open spec fn field_line(label: Seq<char>, value: Seq<char>) -> Seq<char> {
    label + value + "\n"@
}

/// The line that shows `value` under `label`, if there is a value.
pub open spec fn optional_line(label: Seq<char>, value: Option<Seq<char>>) -> Seq<char> {
    match value {
        Some(text) => field_line(label, text),
        None => Seq::empty(),
    }
}

/// The lines that show `entries`, one for each in their order.
pub open spec fn attribute_lines(entries: Seq<(String, String)>) -> Seq<char>
    decreases entries.len(),
{
    if entries.len() == 0 {
        Seq::empty()
    } else {
        attribute_lines(entries.drop_last()) + "  "@ + entries.last().0@ + ": "@
            + entries.last().1@ + "\n"@
    }
}

/// The text that shows `disk` to people, with `entries` as the listing of its
/// additional attributes.
pub open spec fn description(disk: DiskView, entries: Seq<(String, String)>) -> Seq<char> {
    field_line("Name: "@, disk.name) + field_line("Size: "@, disk.size) + field_line(
        "Device Type: "@,
        disk.device_type,
    ) + optional_line("WWN: "@, disk.wwn) + optional_line("Serial: "@, disk.serial)
        + optional_line("Model: "@, disk.model) + optional_line("Vendor: "@, disk.vendor) + (
    if entries.len() > 0 {
        "Additional Information:\n"@ + attribute_lines(entries)
    } else {
        Seq::empty()
    })
}

/// Appends the line that shows `value` under `label`, if there is a value.
fn append_optional(text: &mut String, label: &str, value: &Option<String>)
    ensures
        final(text)@ == old(text)@ + optional_line(label@, option_text(*value)),
{
    match value {
        Some(v) => {
            text.append(label);
            text.append(v.as_str());
            text.append("\n");
        },
        None => {
            assert(text@ + Seq::<char>::empty() == text@);
        },
    }
}

impl Disk {
    /// The text that shows this disk to people: name, size and type, then
    /// the optional fields that it has, then its additional attributes in the
    /// order of their keys.
    pub fn describe(&self) -> (text: String)
        ensures
            exists|entries: Seq<(String, String)>|
                ascending(entries) && map_of(entries) == self@.additional_info && text@
                    == #[trigger] description(self@, entries),
    {
        let mut text = concat("Name: ", self.name.as_str());
        text.append("\n");
        text.append("Size: ");
        text.append(self.size.as_str());
        text.append("\n");
        text.append("Device Type: ");
        text.append(self.device_type.as_str());
        text.append("\n");
        append_optional(&mut text, "WWN: ", &self.wwn);
        append_optional(&mut text, "Serial: ", &self.serial);
        append_optional(&mut text, "Model: ", &self.model);
        append_optional(&mut text, "Vendor: ", &self.vendor);
        let entries = self.additional_info.entries();
        let ghost head = text@;
        if entries.len() > 0 {
            text.append("Additional Information:\n");
            let mut i: usize = 0;
            let ghost start = text@;
            assert(entries@.take(0) == Seq::<(String, String)>::empty());
            assert(start + Seq::<char>::empty() == start);
            while i < entries.len()
                invariant
                    i <= entries.len(),
                    text@ == start + attribute_lines(entries@.take(i as int)),
                decreases entries.len() - i,
            {
                proof {
                    let next = entries@.take(i + 1);
                    assert(next.drop_last() == entries@.take(i as int));
                    assert(next.last() == entries@[i as int]);
                }
                text.append("  ");
                text.append(entries[i].0.as_str());
                text.append(": ");
                text.append(entries[i].1.as_str());
                text.append("\n");
                i += 1;
            }
            assert(entries@.take(entries.len() as int) == entries@);
            assert(text@ == head + ("Additional Information:\n"@ + attribute_lines(entries@)));
        } else {
            assert(text@ + Seq::<char>::empty() == text@);
        }
        assert(text@ == description(self@, entries@));
        text
    }
}

/// The message that tells of `fault`.
pub open spec fn fault_text(fault: DiskFault) -> Seq<char> {
    match fault {
        DiskFault::MissingDevlinks { disk } => "Could not find DEVLINKS in additional info for disk "@
            + disk,
        DiskFault::MissingSerial {
            disk,
        } => "Could not find ID_SERIAL in disk additional_info for disk "@ + disk,
        DiskFault::IdentityMismatch { disk, identity, devlinks } => "Calculated disk ID '"@
            + identity + "' not found in DEVLINKS '"@ + devlinks + "' for disk "@ + disk,
    }
}

/// The message to set a pool.
pub open spec fn pool_unset_text() -> Seq<char> {
    "Reflectron property disk-pool has not been set. Use 'ref set disk-pool <poolname>' to set it, and retry this command."@
}

impl DiskError {
    /// The message that tells of this error.
    pub fn message(&self) -> (text: String)
        ensures
            text@ == fault_text(self@),
    {
        match self {
            DiskError::MissingDevlinks { disk } => concat(
                "Could not find DEVLINKS in additional info for disk ",
                disk.as_str(),
            ),
            DiskError::MissingSerial { disk } => concat(
                "Could not find ID_SERIAL in disk additional_info for disk ",
                disk.as_str(),
            ),
            DiskError::IdentityMismatch { disk, identity, devlinks } => {
                let mut text = concat("Calculated disk ID '", identity.as_str());
                text.append("' not found in DEVLINKS '");
                text.append(devlinks.as_str());
                text.append("' for disk ");
                text.append(disk.as_str());
                text
            },
        }
    }
}

impl ProvisionError {
    /// The message that tells of this error.
    pub fn message(&self) -> (text: String)
        ensures
            text@ == match self@ {
                ProvisionFault::PoolUnset => pool_unset_text(),
                ProvisionFault::Disk(fault) => fault_text(fault),
            },
    {
        match self {
            ProvisionError::PoolUnset => String::from_str(
                "Reflectron property disk-pool has not been set. Use 'ref set disk-pool <poolname>' to set it, and retry this command.",
            ),
            ProvisionError::Disk(e) => e.message(),
        }
    }
}

} // verus!
