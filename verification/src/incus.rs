//! Virtual machines under Incus: the operations that make a profile, a
//! bridge and an instance, attach the one to the other and start the instance.

use vstd::prelude::*;
use vstd::string::StringExecFns;
use crate::base::{owned, slice_texts, Command, CommandView, Operation, OperationView};
use crate::text::{concat, decimal, decimal_text, parse_u64, parsed_u64, to_chars, to_string, trim_end,
    trimmed_end,
};

verus! {

/// The command that runs `incus` with `args`.
pub open spec fn incus_command(args: Seq<Seq<char>>) -> CommandView {
    CommandView { program: "incus"@, args }
}

/// The command that runs `incus` with `args`.
pub fn incus(args: &[&str]) -> (command: Command)
    ensures
        command@ == incus_command(slice_texts(args@)),
{
    Command { program: String::from_str("incus"), args: owned(args) }
}

/// A network bridge, known by its name.
#[derive(Debug)]
pub struct Bridge {
    name: String,
}

/// An instance, known by its name.
#[derive(Debug)]
pub struct Instance {
    name: String,
}

/// A network interface, known by its hardware address.
#[derive(Debug)]
pub struct Nic {
    mac: String,
}

/// A profile, known by its name.
#[derive(Debug)]
pub struct Profile {
    name: String,
}

impl View for Bridge {
    type V = Seq<char>;

    closed spec fn view(&self) -> Seq<char> {
        self.name@
    }
}

impl View for Instance {
    type V = Seq<char>;

    closed spec fn view(&self) -> Seq<char> {
        self.name@
    }
}

impl View for Nic {
    type V = Seq<char>;

    closed spec fn view(&self) -> Seq<char> {
        self.mac@
    }
}

impl View for Profile {
    type V = Seq<char>;

    closed spec fn view(&self) -> Seq<char> {
        self.name@
    }
}

impl Bridge {
    /// The name of the bridge.
    pub fn name(&self) -> (name: &str)
        ensures
            name@ == self@,
    {
        self.name.as_str()
    }
}

impl Instance {
    /// The name of the instance.
    pub fn name(&self) -> (name: &str)
        ensures
            name@ == self@,
    {
        self.name.as_str()
    }
}

impl Nic {
    /// The hardware address of the interface.
    pub fn mac(&self) -> (mac: &str)
        ensures
            mac@ == self@,
    {
        self.mac.as_str()
    }
}

impl Profile {
    /// The name of the profile.
    pub fn name(&self) -> (name: &str)
        ensures
            name@ == self@,
    {
        self.name.as_str()
    }
}

/// The operation that makes the profile `name` unless it exists, and the
/// profile.
pub fn create_profile(name: &str) -> (r: (Operation, Profile))
    ensures
        r.0@ == (OperationView {
            description: "Create Incus profile "@ + name@,
            check: Some(incus_command(seq!["profile"@, "show"@, name@])),
            operation: incus_command(seq!["profile"@, "create"@, name@]),
            stream_output: false,
        }),
        r.1@ == name@,
{
    let check = incus(&["profile", "show", name]);
    let operation = incus(&["profile", "create", name]);
    assert(check@.args =~= seq!["profile"@, "show"@, name@]);
    assert(operation@.args =~= seq!["profile"@, "create"@, name@]);
    (
        Operation {
            description: concat("Create Incus profile ", name),
            check: Some(check),
            operation,
            stream_output: false,
        },
        Profile { name: String::from_str(name) },
    )
}

/// The path of the file that declares the bridge `name` to the network
/// service.
pub open spec fn bridge_file(name: Seq<char>) -> Seq<char> {
    "/etc/systemd/network/"@ + name + ".netdev"@
}

/// What the file that declares the bridge `name` holds.
pub open spec fn bridge_declaration(name: Seq<char>) -> Seq<char> {
    "[NetDev]\nName="@ + name + "\nKind=bridge\n"@
}

/// What it takes to make a bridge: a file to write, the operation to perform
/// once it is written, and the bridge that is there then.
#[derive(Debug)]
pub struct BridgePlan {
    pub file: String,
    pub content: String,
    pub restart: Operation,
    pub bridge: Bridge,
}

/// Plans the bridge `name`: the file that declares it is written anew, and
/// the network service is restarted.
pub fn create_bridge(name: &str) -> (plan: BridgePlan)
    ensures
        plan.file@ == bridge_file(name@),
        plan.content@ == bridge_declaration(name@),
        plan.restart@ == (OperationView {
            description: "Restart networking"@,
            check: None,
            operation: CommandView {
                program: "systemctl"@,
                args: seq!["restart"@, "systemd-networkd"@],
            },
            stream_output: false,
        }),
        plan.bridge@ == name@,
{
    let mut file = concat("/etc/systemd/network/", name);
    file.append(".netdev");
    let mut content = concat("[NetDev]\nName=", name);
    content.append("\nKind=bridge\n");
    let restart = Command {
        program: String::from_str("systemctl"),
        args: owned(&["restart", "systemd-networkd"]),
    };
    assert(restart@.args =~= seq!["restart"@, "systemd-networkd"@]);
    BridgePlan {
        file,
        content,
        restart: Operation {
            description: String::from_str("Restart networking"),
            check: None,
            operation: restart,
            stream_output: false,
        },
        bridge: Bridge { name: String::from_str(name) },
    }
}

/// The operation that makes the Debian instance `name` under `profile` unless
/// it exists, and the instance.
pub fn create_debian_vm(name: &str, profile: &Profile) -> (r: (Operation, Instance))
    ensures
        r.0@ == (OperationView {
            description: "Create Debian VM "@ + name@,
            check: Some(incus_command(seq!["config"@, "show"@, name@])),
            operation: incus_command(
                seq!["create"@, "images:debian/12"@, name@, "--vm"@, "--profile"@, profile@],
            ),
            stream_output: false,
        }),
        r.1@ == name@,
{
    let check = incus(&["config", "show", name]);
    let operation = incus(
        &["create", "images:debian/12", name, "--vm", "--profile", profile.name.as_str()],
    );
    assert(check@.args =~= seq!["config"@, "show"@, name@]);
    assert(operation@.args =~= seq![
        "create"@,
        "images:debian/12"@,
        name@,
        "--vm"@,
        "--profile"@,
        profile@,
    ]);
    (
        Operation {
            description: concat("Create Debian VM ", name),
            check: Some(check),
            operation,
            stream_output: false,
        },
        Instance { name: String::from_str(name) },
    )
}

/// The operation that attaches `bridge` to `vm` as an interface of the
/// hardware address `mac` unless it is attached, and the interface.
pub fn attach_bridge(bridge: &Bridge, vm: &Instance, mac: &str) -> (r: (Operation, Nic))
    ensures
        r.0@ == (OperationView {
            description: "Attach bridge "@ + bridge@ + " to "@ + vm@,
            check: Some(
                incus_command(seq!["config"@, "device"@, "get"@, vm@, bridge@, "name"@]),
            ),
            operation: incus_command(
                seq![
                    "config"@,
                    "device"@,
                    "add"@,
                    vm@,
                    bridge@,
                    "nic"@,
                    "nictype=bridged"@,
                    "parent="@ + bridge@,
                    "hwaddr="@ + mac@,
                ],
            ),
            stream_output: false,
        }),
        r.1@ == mac@,
{
    let mut description = concat("Attach bridge ", bridge.name.as_str());
    description.append(" to ");
    description.append(vm.name.as_str());
    let parent = concat("parent=", bridge.name.as_str());
    let hwaddr = concat("hwaddr=", mac);
    let check = incus(
        &["config", "device", "get", vm.name.as_str(), bridge.name.as_str(), "name"],
    );
    let operation = incus(
        &[
            "config",
            "device",
            "add",
            vm.name.as_str(),
            bridge.name.as_str(),
            "nic",
            "nictype=bridged",
            parent.as_str(),
            hwaddr.as_str(),
        ],
    );
    assert(check@.args =~= seq!["config"@, "device"@, "get"@, vm@, bridge@, "name"@]);
    assert(operation@.args =~= seq![
        "config"@,
        "device"@,
        "add"@,
        vm@,
        bridge@,
        "nic"@,
        "nictype=bridged"@,
        "parent="@ + bridge@,
        "hwaddr="@ + mac@,
    ]);
    (
        Operation { description, check: Some(check), operation, stream_output: false },
        Nic { mac: String::from_str(mac) },
    )
}

/// What it takes to start an instance: the operation that starts it, then a
/// command to run every `interval` seconds until it succeeds, which it does
/// once the instance answers.
#[derive(Debug)]
pub struct StartPlan {
    pub start: Operation,
    pub ready: Command,
    pub interval: u64,
}

/// Plans the start of `instance`: it is started unless it answers already,
/// and then waited for with a pause of one second between attempts.
pub fn start_vm(instance: &Instance) -> (plan: StartPlan)
    ensures
        plan.start@ == (OperationView {
            description: "Start VM "@ + instance@,
            check: Some(incus_command(seq!["exec"@, instance@, "ls"@])),
            operation: incus_command(seq!["start"@, instance@]),
            stream_output: false,
        }),
        plan.ready@ == incus_command(seq!["exec"@, instance@, "ls"@]),
        plan.interval == 1,
{
    let check = incus(&["exec", instance.name.as_str(), "ls"]);
    let operation = incus(&["start", instance.name.as_str()]);
    let ready = incus(&["exec", instance.name.as_str(), "ls"]);
    assert(check@.args =~= seq!["exec"@, instance@, "ls"@]);
    assert(ready@.args =~= seq!["exec"@, instance@, "ls"@]);
    assert(operation@.args =~= seq!["start"@, instance@]);
    StartPlan {
        start: Operation {
            description: concat("Start VM ", instance.name.as_str()),
            check: Some(check),
            operation,
            stream_output: false,
        },
        ready,
        interval: 1,
    }
}

/// Why a file cannot be pushed into an instance.
#[derive(Debug)]
pub enum PushError {
    /// The file to push does not exist.
    SourceMissing { source: String },
}

/// Where the file that is pushed to `path` of an instance is taken from.
pub open spec fn push_source(path: Seq<char>) -> Seq<char> {
    "/opt/builder/files"@ + path
}

/// The path of the file that is pushed to `path` of an instance. The caller
/// looks whether it exists before it asks for the operation.
pub fn push_source_path(path: &str) -> (source: String)
    ensures
        source@ == push_source(path@),
{
    concat("/opt/builder/files", path)
}

/// The operation that pushes a file to `path` of `instance` unless the
/// instance has a file there. `source_exists` tells whether the file to push
/// exists; without it there is nothing to do but to fail.
pub fn push_file(instance: &Instance, path: &str, source_exists: bool) -> (r: Result<
    Operation,
    PushError,
>)
    ensures
        match r {
            Ok(op) => source_exists && op@ == (OperationView {
                description: "Push file "@ + path@ + " to "@ + instance@,
                check: Some(incus_command(seq!["file"@, "get"@, instance@, path@])),
                operation: incus_command(
                    seq!["file"@, "push"@, push_source(path@), instance@ + ":"@ + path@],
                ),
                stream_output: false,
            }),
            Err(e) => {
                &&& !source_exists
                &&& e matches PushError::SourceMissing { source }
                &&& source@ == push_source(path@)
            },
        },
{
    let source = push_source_path(path);
    if !source_exists {
        return Err(PushError::SourceMissing { source });
    }
    let mut description = concat("Push file ", path);
    description.append(" to ");
    description.append(instance.name.as_str());
    let mut target = concat(instance.name.as_str(), ":");
    target.append(path);
    let check = incus(&["file", "get", instance.name.as_str(), path]);
    let operation = incus(&["file", "push", source.as_str(), target.as_str()]);
    assert(check@.args =~= seq!["file"@, "get"@, instance@, path@]);
    assert(operation@.args =~= seq![
        "file"@,
        "push"@,
        push_source(path@),
        instance@ + ":"@ + path@,
    ]);
    Ok(Operation { description, check: Some(check), operation, stream_output: false })
}

/// The number of processors that an instance may use on a host with
/// `cpu_count` processors: half of them, rounded up.
pub open spec fn cpu_limit_spec(cpu_count: u64) -> u64 {
    ((cpu_count + 1) / 2) as u64
}

/// The number of processors that an instance may use on a host with
/// `cpu_count` processors.
pub fn cpu_limit(cpu_count: u64) -> (limit: u64)
    ensures
        limit == cpu_limit_spec(cpu_count),
        limit as int * 2 >= cpu_count,
        limit as int * 2 <= cpu_count + 1,
{
    cpu_count / 2 + cpu_count % 2
}

/// Why the limits of a profile cannot be set.
#[derive(Debug, PartialEq, Eq)]
pub enum LimitError {
    /// What the host said of its processors is no number.
    BadCpuCount { output: String },
}

/// The number of processors that `output` tells of: the number that stands
/// in it before any white space at its end.
pub open spec fn cpu_count_of(output: Seq<char>) -> Option<u64> {
    parsed_u64(trimmed_end(output))
}

/// The operation that limits the instances of `profile` to half of the
/// host's processors, rounded up, and to four gigabytes of memory. `output` is
/// what the host printed when asked for the number of its processors.
pub fn set_limits(profile: &Profile, output: &str) -> (r: Result<Operation, LimitError>)
    ensures
        match r {
            Ok(op) => cpu_count_of(output@) matches Some(count) && op@ == (OperationView {
                description: "Set memory and CPU limits for Incus profile "@ + profile@,
                check: None,
                operation: incus_command(
                    seq![
                        "profile"@,
                        "set"@,
                        profile@,
                        "limits.cpu="@ + decimal_text(cpu_limit_spec(count) as nat),
                        "limits.memory=4GB"@,
                    ],
                ),
                stream_output: false,
            }),
            Err(e) => {
                &&& cpu_count_of(output@) is None
                &&& e matches LimitError::BadCpuCount { output: o }
                &&& o@ == output@
            },
        },
{
    let number = to_string(&trim_end(&to_chars(output)));
    match parse_u64(number.as_str()) {
        None => Err(LimitError::BadCpuCount { output: String::from_str(output) }),
        Some(count) => {
            let cpu = concat("limits.cpu=", decimal(cpu_limit(count)).as_str());
            let operation = incus(
                &["profile", "set", profile.name.as_str(), cpu.as_str(), "limits.memory=4GB"],
            );
            assert(operation@.args =~= seq![
                "profile"@,
                "set"@,
                profile@,
                "limits.cpu="@ + decimal_text(cpu_limit_spec(count) as nat),
                "limits.memory=4GB"@,
            ]);
            Ok(
                Operation {
                    description: concat(
                        "Set memory and CPU limits for Incus profile ",
                        profile.name.as_str(),
                    ),
                    check: None,
                    operation,
                    stream_output: false,
                },
            )
        },
    }
}

} // verus!
