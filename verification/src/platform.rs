//! What depends on the machine: which shell is in use, which files can be
//! executed, and how a missing library is installed.

use vstd::prelude::*;
use crate::text::{chars_of, concat3, contains, holds, is_str, slice, text_of};
use crate::tools::lowercased;

verus! {

/// The index behind the last `separator` before `end`, or nothing where
/// there is none.
pub open spec fn after_last(s: Seq<char>, separator: char, end: int) -> int
    decreases end,
{
    if end <= 0 {
        0
    } else if s[end - 1] == separator {
        end
    } else {
        after_last(s, separator, end - 1)
    }
}

/// What stands in `s` behind its last `separator`; all of `s` where it has
/// none.
pub open spec fn last_segment(s: Seq<char>, separator: char) -> Seq<char> {
    s.skip(after_last(s, separator, s.len() as int))
}

/// The shell in use. `shell_var` is the value of `SHELL`, where it is set;
/// `powershell` tells whether `PSModulePath` is set; `windows` whether the
/// machine runs Windows. The name behind the last slash of `SHELL` comes
/// first, then PowerShell, then the machine's usual shell.
pub open spec fn detected_shell(shell_var: Option<Seq<char>>, powershell: bool, windows: bool) -> Seq<
    char,
> {
    match shell_var {
        Some(path) => last_segment(path, '/'),
        None => if powershell {
            "powershell"@
        } else if windows {
            "cmd"@
        } else {
            "bash"@
        },
    }
}

/// The shell in use.
pub fn detect_shell(shell_var: Option<&str>, powershell: bool, windows: bool) -> (r: String)
    ensures
        r@ == detected_shell(
            match shell_var {
                Some(path) => Some(path@),
                None => None,
            },
            powershell,
            windows,
        ),
{
    match shell_var {
        Some(path) => {
            let s = chars_of(path);
            let mut end: usize = s.len();
            while end > 0 && s[end - 1] != '/'
                invariant
                    end <= s.len(),
                    after_last(s@, '/', s.len() as int) == after_last(s@, '/', end as int),
                decreases end,
            {
                end -= 1;
            }
            let name = slice(&s, end, s.len());
            assert(s@.subrange(end as int, s.len() as int) =~= s@.skip(end as int));
            text_of(&name)
        },
        None => {
            if powershell {
                "powershell".to_owned()
            } else if windows {
                "cmd".to_owned()
            } else {
                "bash".to_owned()
            }
        },
    }
}

/// Whether a file with these permission bits can be executed by someone.
pub fn mode_is_executable(mode: u32) -> (b: bool)
    ensures
        b == (mode & 0o111 != 0),
{
    mode & 0o111 != 0
}

/// Whether a lowercase ending marks a file that Windows executes.
pub open spec fn is_executable_ending(ending: Seq<char>) -> bool {
    ending == "exe"@ || ending == "cmd"@ || ending == "bat"@ || ending == "com"@ || ending
        == "ps1"@
}

/// Whether a file of this ending is one that Windows executes, whatever the
/// ending's case.
pub fn extension_is_executable(extension: &str) -> (b: bool)
    ensures
        b == is_executable_ending(lowercased(extension@)),
{
    let e = chars_of(extension.to_lowercase().as_str());
    is_str(&e, "exe") || is_str(&e, "cmd") || is_str(&e, "bat") || is_str(&e, "com") || is_str(
        &e,
        "ps1",
    )
}

/// Which package managers are installed.
#[derive(Debug, Clone, Copy, PartialEq, Eq, Structural)]
pub struct PackageManagers {
    pub apt: bool,
    pub apt_get: bool,
    pub dnf: bool,
    pub yum: bool,
    pub pacman: bool,
    pub zypper: bool,
    pub apk: bool,
}

/// The command that installs the OpenMP library on a distribution of the
/// family named in the lowercase text of its release file.
pub open spec fn command_by_release(release: Seq<char>) -> Option<Seq<char>> {
    if holds(release, "ubuntu"@) || holds(release, "debian"@) || holds(release, "mint"@) || holds(
        release,
        "pop"@,
    ) {
        Some("sudo apt install libgomp1"@)
    } else if holds(release, "fedora"@) || holds(release, "rhel"@) || holds(release, "centos"@)
        || holds(release, "rocky"@) || holds(release, "alma"@) || holds(release, "amazon"@) {
        Some("sudo dnf install libgomp"@)
    } else if holds(release, "arch"@) || holds(release, "manjaro"@) || holds(
        release,
        "endeavour"@,
    ) {
        Some("sudo pacman -S gcc-libs"@)
    } else if holds(release, "suse"@) || holds(release, "opensuse"@) {
        Some("sudo zypper install libgomp1"@)
    } else if holds(release, "alpine"@) {
        Some("sudo apk add libgomp"@)
    } else {
        None
    }
}

/// The command that installs the OpenMP library with the first package
/// manager that is installed, or the advice to look for one.
pub open spec fn command_by_manager(found: PackageManagers) -> Seq<char> {
    if found.apt || found.apt_get {
        "sudo apt install libgomp1"@
    } else if found.dnf {
        "sudo dnf install libgomp"@
    } else if found.yum {
        "sudo yum install libgomp"@
    } else if found.pacman {
        "sudo pacman -S gcc-libs"@
    } else if found.zypper {
        "sudo zypper install libgomp1"@
    } else if found.apk {
        "sudo apk add libgomp"@
    } else {
        "Install libgomp using your package manager (e.g., apt install libgomp1)"@
    }
}

/// The command that installs the OpenMP library: by the distribution's
/// family, where the release file tells it; else by the package manager.
pub open spec fn install_command(release: Option<Seq<char>>, found: PackageManagers) -> Seq<char> {
    match release {
        Some(text) => match command_by_release(lowercased(text)) {
            Some(command) => command,
            None => command_by_manager(found),
        },
        None => command_by_manager(found),
    }
}

/// The command for the family named in the lowercase text of a release file.
fn by_release(release: &Vec<char>) -> (r: Option<&'static str>)
    ensures
        match r {
            Some(command) => command_by_release(release@) == Some(command@),
            None => command_by_release(release@) is None,
        },
{
    if contains(release, "ubuntu") || contains(release, "debian") || contains(release, "mint") || contains(
        release,
        "pop",
    ) {
        Some("sudo apt install libgomp1")
    } else if contains(release, "fedora") || contains(release, "rhel") || contains(release, "centos") || contains(
        release,
        "rocky",
    ) || contains(release, "alma") || contains(release, "amazon") {
        Some("sudo dnf install libgomp")
    } else if contains(release, "arch") || contains(release, "manjaro") || contains(release, "endeavour") {
        Some("sudo pacman -S gcc-libs")
    } else if contains(release, "suse") || contains(release, "opensuse") {
        Some("sudo zypper install libgomp1")
    } else if contains(release, "alpine") {
        Some("sudo apk add libgomp")
    } else {
        None
    }
}

/// The command for the first package manager that is installed.
fn by_manager(found: &PackageManagers) -> (r: &'static str)
    ensures
        r@ == command_by_manager(*found),
{
    if found.apt || found.apt_get {
        "sudo apt install libgomp1"
    } else if found.dnf {
        "sudo dnf install libgomp"
    } else if found.yum {
        "sudo yum install libgomp"
    } else if found.pacman {
        "sudo pacman -S gcc-libs"
    } else if found.zypper {
        "sudo zypper install libgomp1"
    } else if found.apk {
        "sudo apk add libgomp"
    } else {
        "Install libgomp using your package manager (e.g., apt install libgomp1)"
    }
}

/// The command that installs the OpenMP library. `os_release` is the content
/// of the machine's release file, where it has one.
pub fn detect_package_manager_command(os_release: Option<&str>, found: &PackageManagers) -> (r:
    &'static str)
    ensures
        r@ == install_command(
            match os_release {
                Some(text) => Some(text@),
                None => None,
            },
            *found,
        ),
{
    if let Some(text) = os_release {
        let lower = chars_of(text.to_lowercase().as_str());
        if let Some(command) = by_release(&lower) {
            return command;
        }
    }
    by_manager(found)
}

/// Whether the list of the libraries that the linker knows names a library.
pub fn library_is_listed(linker_output: &str, lib_name: &str) -> (b: bool)
    ensures
        b == holds(linker_output@, lib_name@),
{
    let s = chars_of(linker_output);
    contains(&s, lib_name)
}

/// The directories where libraries lie, in the order they are looked at.
pub open spec fn library_dirs() -> Seq<Seq<char>> {
    seq![
        "/lib/x86_64-linux-gnu"@,
        "/usr/lib/x86_64-linux-gnu"@,
        "/lib64"@,
        "/usr/lib64"@,
        "/lib"@,
        "/usr/lib"@,
    ]
}

/// The places where a library may lie.
pub fn library_candidates(lib_name: &str) -> (r: Vec<String>)
    ensures
        r.len() == library_dirs().len(),
        forall|i: int|
            0 <= i < r.len() ==> (#[trigger] r@[i])@ == library_dirs()[i] + "/"@ + lib_name@,
{
    let mut r: Vec<String> = Vec::new();
    r.push(concat3("/lib/x86_64-linux-gnu", "/", lib_name));
    r.push(concat3("/usr/lib/x86_64-linux-gnu", "/", lib_name));
    r.push(concat3("/lib64", "/", lib_name));
    r.push(concat3("/usr/lib64", "/", lib_name));
    r.push(concat3("/lib", "/", lib_name));
    r.push(concat3("/usr/lib", "/", lib_name));
    r
}

} // verus!
