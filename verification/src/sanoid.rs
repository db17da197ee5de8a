//! The snapshot configuration: keeping the volumes of machines out of the
//! snapshots that Sanoid takes.

use vstd::prelude::*;
use vstd::string::StringExecFns;
use crate::text::{
    concat, contains, decimal, decimal_text, find, from_chars, is_contained, occurs_at, to_chars,
};

verus! {

/// The heading of the section that the configuration has for `machine`.
pub open spec fn section(machine: Seq<char>) -> Seq<char> {
    "[rpool/lxd/virtual-machines/"@ + machine + "]"@
}

/// The line after which the entries of machines are put.
pub open spec fn insertion_marker() -> Seq<char> {
    "# Exclude VM ZVOLs Snapshotted by build scripts"@
}

/// The entries that keep `machine` out of the snapshots.
pub open spec fn machine_entries(machine: Seq<char>) -> Seq<char> {
    "\n[rpool/lxd/virtual-machines/"@ + machine
        + "]\nuse_template = ignore\n[rpool/lxd/virtual-machines/"@ + machine
        + ".block]\nuse_template = ignore\n"@
}

/// Whether `at` is the first place at which `needle` stands in `hay`.
pub open spec fn is_first_at(hay: Seq<char>, needle: Seq<char>, at: int) -> bool {
    occurs_at(hay, needle, at) && forall|k: int| 0 <= k < at ==> !occurs_at(hay, needle, k)
}

/// The first place at which `needle` stands in `hay`.
pub open spec fn first_at(hay: Seq<char>, needle: Seq<char>) -> int {
    choose|at: int| is_first_at(hay, needle, at)
}

/// `contents` with the entries of `machine` put directly behind the first
/// insertion marker, or none where `contents` holds no marker.
pub open spec fn with_entries(contents: Seq<char>, machine: Seq<char>) -> Option<Seq<char>> {
    if contains(contents, insertion_marker()) {
        let cut = first_at(contents, insertion_marker()) + insertion_marker().len();
        Some(contents.take(cut) + machine_entries(machine) + contents.skip(cut))
    } else {
        None
    }
}

/// Whether the configuration `contents` has a section for `machine`.
pub fn machine_entries_exist(contents: &str, machine: &str) -> (r: bool)
    ensures
        r == contains(contents@, section(machine@)),
{
    let mut heading = concat("[rpool/lxd/virtual-machines/", machine);
    heading.append("]");
    is_contained(&to_chars(contents), &to_chars(heading.as_str()))
}

/// The configuration `contents` with the entries of `machine` added behind
/// the insertion marker, or none where there is no marker.
pub fn add_machine_entries(contents: &str, machine: &str) -> (r: Option<String>)
    ensures
        match r {
            Some(text) => with_entries(contents@, machine@) == Some(text@),
            None => with_entries(contents@, machine@) is None,
        },
{
    let all = to_chars(contents);
    let marker = to_chars("# Exclude VM ZVOLs Snapshotted by build scripts");
    match find(&all, &marker) {
        None => None,
        Some(at) => {
            proof {
                let first = first_at(all@, marker@);
                assert(is_first_at(all@, marker@, at as int));
                assert(is_first_at(all@, marker@, first));
                assert(first == at);
            }
            assert(at + marker.len() <= all.len());
            let cut: usize = at + marker.len();
            let mut text = from_chars(&all, 0, cut);
            text.append("\n[rpool/lxd/virtual-machines/");
            text.append(machine);
            text.append("]\nuse_template = ignore\n[rpool/lxd/virtual-machines/");
            text.append(machine);
            text.append(".block]\nuse_template = ignore\n");
            text.append(from_chars(&all, cut, all.len()).as_str());
            proof {
                assert(all@.subrange(0, cut as int) == all@.take(cut as int));
                assert(all@.subrange(cut as int, all.len() as int) == all@.skip(cut as int));
                assert(text@ =~= all@.take(cut as int) + machine_entries(machine@) + all@.skip(
                    cut as int,
                ));
            }
            Some(text)
        },
    }
}

/// What became of a configuration: its new contents, how many machines got
/// entries and how many had them already, and for each machine in turn
/// whether it had them already.
#[derive(Debug, PartialEq, Eq)]
pub struct Exclusion {
    pub contents: String,
    pub added: usize,
    pub skipped: usize,
    pub had_entries: Vec<bool>,
}

/// What an `Exclusion` holds, as mathematical values.
pub struct ExclusionView {
    pub contents: Seq<char>,
    pub added: nat,
    pub skipped: nat,
    pub had_entries: Seq<bool>,
}

impl View for Exclusion {
    type V = ExclusionView;

    open spec fn view(&self) -> ExclusionView {
        ExclusionView {
            contents: self.contents@,
            added: self.added as nat,
            skipped: self.skipped as nat,
            had_entries: self.had_entries@,
        }
    }
}

/// Why a configuration cannot take the entries of a machine.
#[derive(Debug, PartialEq, Eq)]
pub enum SanoidError {
    /// The configuration holds no insertion marker.
    NoInsertionPoint { machine: String },
}

/// The configuration `contents` after each of `machines`, in their order,
/// was given its entries unless it had a section already; or the first
/// machine for which there was no place to put them.
pub open spec fn excluded(contents: Seq<char>, machines: Seq<Seq<char>>) -> Result<
    ExclusionView,
    Seq<char>,
>
    decreases machines.len(),
{
    if machines.len() == 0 {
        Ok(ExclusionView { contents, added: 0, skipped: 0, had_entries: Seq::empty() })
    } else {
        match excluded(contents, machines.drop_last()) {
            Err(machine) => Err(machine),
            Ok(before) => if contains(before.contents, section(machines.last())) {
                Ok(
                    ExclusionView {
                        skipped: before.skipped + 1,
                        had_entries: before.had_entries.push(true),
                        ..before
                    },
                )
            } else {
                match with_entries(before.contents, machines.last()) {
                    Some(text) => Ok(
                        ExclusionView {
                            contents: text,
                            added: before.added + 1,
                            had_entries: before.had_entries.push(false),
                            ..before
                        },
                    ),
                    None => Err(machines.last()),
                }
            },
        }
    }
}

/// The texts of a list of strings.
pub open spec fn names(machines: Seq<String>) -> Seq<Seq<char>> {
    machines.map_values(|m: String| m@)
}

/// Keeps `machines` out of the snapshots: each machine that has no section
/// in the configuration `contents` gets its entries behind the insertion
/// marker.
pub fn exclude_sanoid(contents: &str, machines: &[String]) -> (r: Result<Exclusion, SanoidError>)
    ensures
        match r {
            Ok(done) => excluded(contents@, names(machines@)) == Ok::<ExclusionView, Seq<char>>(
                done@,
            ),
            Err(SanoidError::NoInsertionPoint { machine }) => excluded(contents@, names(machines@))
                == Err::<ExclusionView, Seq<char>>(machine@),
        },
{
    let mut done = Exclusion {
        contents: String::from_str(contents),
        added: 0,
        skipped: 0,
        had_entries: Vec::new(),
    };
    let mut i: usize = 0;
    assert(names(machines@).take(0) == Seq::<Seq<char>>::empty());
    while i < machines.len()
        invariant
            i <= machines.len(),
            done.added + done.skipped == i,
            excluded(contents@, names(machines@).take(i as int)) == Ok::<ExclusionView, Seq<char>>(
                done@,
            ),
        decreases machines.len() - i,
    {
        let machine = machines[i].as_str();
        proof {
            let next = names(machines@).take(i + 1);
            assert(next.drop_last() == names(machines@).take(i as int));
            assert(next.last() == machine@);
        }
        if machine_entries_exist(done.contents.as_str(), machine) {
            done.skipped = done.skipped + 1;
            done.had_entries.push(true);
        } else {
            match add_machine_entries(done.contents.as_str(), machine) {
                Some(text) => {
                    done.contents = text;
                    done.added = done.added + 1;
                    done.had_entries.push(false);
                },
                None => {
                    proof {
                        lemma_excluded_fails_on(contents@, names(machines@), i + 1);
                    }
                    return Err(SanoidError::NoInsertionPoint { machine: machines[i].clone() });
                },
            }
        }
        i += 1;
    }
    assert(names(machines@).take(machines.len() as int) == names(machines@));
    Ok(done)
}

/// A machine that the first `n` machines fail on fails them all.
pub proof fn lemma_excluded_fails_on(contents: Seq<char>, machines: Seq<Seq<char>>, n: int)
    requires
        0 <= n <= machines.len(),
        excluded(contents, machines.take(n)) is Err,
    ensures
        excluded(contents, machines) == excluded(contents, machines.take(n)),
    decreases machines.len() - n,
{
    if n == machines.len() {
        assert(machines.take(n) == machines);
    } else {
        assert(machines.take(n + 1).drop_last() == machines.take(n));
        lemma_excluded_fails_on(contents, machines, n + 1);
    }
}

/// The line that sums up what was done.
pub open spec fn summary_text(added: nat, skipped: nat) -> Seq<char> {
    if added > 0 {
        "Added entries for "@ + decimal_text(added) + " machine(s). Skipped "@ + decimal_text(
            skipped,
        ) + " existing entries. Original file backed up as /etc/sanoid/sanoid.conf.bak"@
    } else {
        "No new entries added. All "@ + decimal_text(skipped)
            + " machine(s) already had existing entries."@
    }
}

/// The line that sums up what was done.
pub fn summary(done: &Exclusion) -> (line: String)
    ensures
        line@ == summary_text(done@.added, done@.skipped),
{
    if done.added > 0 {
        let mut line = concat("Added entries for ", decimal(done.added as u64).as_str());
        line.append(" machine(s). Skipped ");
        line.append(decimal(done.skipped as u64).as_str());
        line.append(" existing entries. Original file backed up as /etc/sanoid/sanoid.conf.bak");
        line
    } else {
        let mut line = concat("No new entries added. All ", decimal(done.skipped as u64).as_str());
        line.append(" machine(s) already had existing entries.");
        line
    }
}

} // verus!
