//! Images: the directory of an image, the programs inside it, and the
//! commands that work on it.

use vstd::prelude::*;
use vstd::string::StringExecFns;
use crate::base::{
    chroot, is_first_present, pkexec, search_dirs, slice_texts, which, Command, CommandView,
    Operation, OperationView,
};
use crate::text::{concat, lowercase, same_text, to_lowercase};

verus! {

/// The directory of the image `image_name`.
pub open spec fn image_dir(image_name: Seq<char>) -> Seq<char> {
    "/opt/reflectron/images/"@ + image_name
}

/// Why an image directory cannot be made.
#[derive(Debug)]
pub enum ImageError {
    /// The directory exists already; it is not overwritten.
    DirectoryExists { path: String },
}

/// The path of the directory of the image `image_name`.
pub fn image_path(image_name: &str) -> (path: String)
    ensures
        path@ == image_dir(image_name@),
{
    concat("/opt/reflectron/images/", image_name)
}

/// The directory to create for the image `image_name`. `exists` tells whether
/// `image_path(image_name)` exists; an existing directory is refused, out of
/// caution.
pub fn check_and_create_image_dir(image_name: &str, exists: bool) -> (r: Result<String, ImageError>)
    ensures
        match r {
            Ok(path) => !exists && path@ == image_dir(image_name@),
            Err(e) => {
                &&& exists
                &&& e matches ImageError::DirectoryExists { path }
                &&& path@ == image_dir(image_name@)
            },
        },
{
    let path = image_path(image_name);
    if exists {
        Err(ImageError::DirectoryExists { path })
    } else {
        Ok(path)
    }
}

/// The paths at which `program` is looked for inside the image at `image`, in
/// the order of the search directories.
pub fn image_candidates(image: &str, program: &str) -> (paths: Vec<String>)
    ensures
        paths.len() == 4,
        forall|i: int|
            0 <= i < 4 ==> (#[trigger] paths[i])@ == image@ + search_dirs()[i] + program@,
{
    let mut paths: Vec<String> = Vec::new();
    let mut a = concat(image, "/usr/sbin/");
    a.append(program);
    paths.push(a);
    let mut b = concat(image, "/usr/bin/");
    b.append(program);
    paths.push(b);
    let mut c = concat(image, "/sbin/");
    c.append(program);
    paths.push(c);
    let mut d = concat(image, "/bin/");
    d.append(program);
    paths.push(d);
    paths
}

/// The path of `program` as seen from inside an image: its path in the first
/// search directory of the image that holds it. `present[i]` tells whether the
/// `i`-th of `image_candidates` exists.
pub fn image_which(program: &str, present: &[bool]) -> (path: Option<String>)
    ensures
        match path {
            Some(p) => exists|i: int|
                is_first_present(present@, i) && p@ == search_dirs()[i] + program@,
            None => forall|i: int| 0 <= i < 4 && i < present.len() ==> !present@[i],
        },
{
    which(program, present)
}

/// The operation that copies the configuration files of this project, found
/// under `current_dir`, into the image at `image_path`. `pkexec_path` and
/// `cp_path` are the paths of the two programs.
pub fn copy_config(image_path: &str, current_dir: &str, pkexec_path: &str, cp_path: &str) -> (op:
    Operation)
    ensures
        op@ == (OperationView {
            description: "Copying config"@,
            check: None,
            operation: CommandView {
                program: pkexec_path@,
                args: seq![
                    cp_path@,
                    "-R"@,
                    current_dir@ + "/files/debian12/etc"@,
                    image_path@ + "/"@,
                ],
            },
            stream_output: true,
        }),
{
    let source = concat(current_dir, "/files/debian12/etc");
    let target = concat(image_path, "/");
    let operation = pkexec(pkexec_path, &[cp_path, "-R", source.as_str(), target.as_str()]);
    assert(operation@.args =~= seq![
        cp_path@,
        "-R"@,
        current_dir@ + "/files/debian12/etc"@,
        image_path@ + "/"@,
    ]);
    Operation {
        description: String::from_str("Copying config"),
        check: None,
        operation,
        stream_output: true,
    }
}

/// The paths of the programs of the host that run a command inside an image.
pub struct Host<'a> {
    pub pkexec: &'a str,
    pub env: &'a str,
    pub chroot: &'a str,
}

/// The words with which packages are installed without questions: from the
/// backports of the release if `backports` says so.
pub open spec fn install_words(
    env_path: Seq<char>,
    apt_get_path: Seq<char>,
    backports: bool,
) -> Seq<Seq<char>> {
    let plain = seq![env_path, "DEBIAN_FRONTEND=noninteractive"@, apt_get_path, "install"@, "-y"@];
    if backports {
        plain + seq!["-t"@, "bookworm-backports"@]
    } else {
        plain
    }
}

/// The command that installs the packages `args` inside the image at
/// `new_root`. `env_path` and `apt_get_path` are the paths of the two programs
/// as seen from inside the image.
pub fn apt_install(
    host: &Host,
    new_root: &str,
    env_path: &str,
    apt_get_path: &str,
    backports: bool,
    args: &[&str],
) -> (command: Command)
    ensures
        command@ == (CommandView {
            program: host.pkexec@,
            args: seq![host.env@, "-i"@, host.chroot@, new_root@] + install_words(
                env_path@,
                apt_get_path@,
                backports,
            ) + slice_texts(args@),
        }),
{
    let mut words: Vec<&str> = Vec::new();
    words.push(env_path);
    words.push("DEBIAN_FRONTEND=noninteractive");
    words.push(apt_get_path);
    words.push("install");
    words.push("-y");
    if backports {
        words.push("-t");
        words.push("bookworm-backports");
    }
    assert(slice_texts(words@) =~= install_words(env_path@, apt_get_path@, backports));
    let mut i: usize = 0;
    assert(args@.take(0) == Seq::<&str>::empty());
    assert(slice_texts(words@) == install_words(env_path@, apt_get_path@, backports) + slice_texts(
        args@.take(0),
    ));
    while i < args.len()
        invariant
            i <= args.len(),
            slice_texts(words@) == install_words(env_path@, apt_get_path@, backports) + slice_texts(
                args@.take(i as int),
            ),
        decreases args.len() - i,
    {
        proof {
            assert(slice_texts(words@.push(args@[i as int])) == slice_texts(words@).push(
                args@[i as int]@,
            ));
            assert(slice_texts(args@.take(i + 1)) == slice_texts(args@.take(i as int)).push(
                args@[i as int]@,
            ));
        }
        words.push(args[i]);
        i += 1;
    }
    assert(args@.take(args.len() as int) == args@);
    let command = chroot(host.pkexec, host.env, host.chroot, new_root, words.as_slice());
    assert(command@.args =~= seq![host.env@, "-i"@, host.chroot@, new_root@] + install_words(
        env_path@,
        apt_get_path@,
        backports,
    ) + slice_texts(args@));
    command
}

/// The distributions of which an image can be built.
#[derive(Clone, Copy, Debug, PartialEq, Eq, Structural)]
pub enum Distro {
    Debian,
}

/// The distribution that `name` names in lower case.
pub fn distro_named(name: &str) -> (r: Option<Distro>)
    ensures
        r == if name@ == "debian"@ {
            Some(Distro::Debian)
        } else {
            None
        },
{
    if same_text(name, "debian") {
        Some(Distro::Debian)
    } else {
        None
    }
}

/// The distribution that `name` names, in whatever case it is written.
pub fn distro(name: &str) -> (r: Option<Distro>)
    ensures
        r == if lowercase(name@) == "debian"@ {
            Some(Distro::Debian)
        } else {
            None
        },
{
    distro_named(to_lowercase(name).as_str())
}

} // verus!
