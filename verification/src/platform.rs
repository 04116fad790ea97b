//! Platform detection and runtime installation commands.
//!
//! The platform is recognized from the contents of the OS release file, and
//! each recognized platform maps to a fixed sequence of package-manager
//! commands that install the container runtime. An unrecognized platform is
//! a terminal variant on which installation fails.

use vstd::prelude::*;
use vstd::string::*;
use crate::commands::argv_view;
use crate::errors::DeployError;
use crate::text::{chars_contain, chars_of, lower_seq, lowered_chars, seq_contains};

verus! {

/// True exactly when the runtime's version probe reported success.
///
/// The probe is `None` when the runtime binary could not be launched at
/// all, which counts as "not installed".
pub fn is_podman_installed(probe: &Option<bool>) -> (r: bool)
    ensures
        r == (*probe == Some(true)),
{
    match probe {
        Some(b) => *b,
        None => false,
    }
}

/// The closed set of platforms the installer recognizes.
#[derive(Debug, Clone, Copy, PartialEq, Eq, Structural)]
pub enum OsType {
    Ubuntu,
    Debian,
    Fedora,
    RedHat,
    ArchLinux,
    Unknown,
}

/// Which platform a release file describes: the first matching keyword in
/// the ASCII-lower-cased contents decides; an unreadable file or no match
/// yields `Unknown`.
pub open spec fn detect_os_spec(content: Option<Seq<char>>) -> OsType {
    match content {
        None => OsType::Unknown,
        Some(c) => {
            let low = lower_seq(c);
            if seq_contains(low, "ubuntu"@) {
                OsType::Ubuntu
            } else if seq_contains(low, "debian"@) {
                OsType::Debian
            } else if seq_contains(low, "fedora"@) {
                OsType::Fedora
            } else if seq_contains(low, "red hat"@) || seq_contains(low, "rhel"@) || seq_contains(
                low,
                "centos"@,
            ) {
                OsType::RedHat
            } else if seq_contains(low, "arch"@) {
                OsType::ArchLinux
            } else {
                OsType::Unknown
            }
        },
    }
}

/// Recognizes the platform from the OS release file's contents; `None`
/// stands for a file that could not be read.
pub fn detect_os(os_release: &Option<String>) -> (r: OsType)
    ensures
        r == detect_os_spec(match *os_release {
            Some(s) => Some(s@),
            None => None,
        }),
{
    match os_release {
        None => OsType::Unknown,
        Some(content) => {
            let low = lowered_chars(content.as_str());
            if chars_contain(&low, &chars_of("ubuntu")) {
                OsType::Ubuntu
            } else if chars_contain(&low, &chars_of("debian")) {
                OsType::Debian
            } else if chars_contain(&low, &chars_of("fedora")) {
                OsType::Fedora
            } else if chars_contain(&low, &chars_of("red hat")) || chars_contain(
                &low,
                &chars_of("rhel"),
            ) || chars_contain(&low, &chars_of("centos")) {
                OsType::RedHat
            } else if chars_contain(&low, &chars_of("arch")) {
                OsType::ArchLinux
            } else {
                OsType::Unknown
            }
        },
    }
}

/// One command run through the system shell wrapper: a program and its
/// arguments.
#[derive(Debug, Clone)]
pub struct SystemCommand {
    pub program: String,
    pub args: Vec<String>,
}

/// The abstract form of a system command.
pub open spec fn system_cmd_view(c: SystemCommand) -> (Seq<char>, Seq<Seq<char>>) {
    (c.program@, argv_view(c.args@))
}

/// The install commands of each recognized platform, in execution order.
/// Debian-family platforms refresh the package list first; a failing
/// refresh aborts the installation.
pub open spec fn install_commands_spec(os: OsType) -> Seq<(Seq<char>, Seq<Seq<char>>)> {
    match os {
        OsType::Ubuntu | OsType::Debian => seq![
            ("sudo"@, seq!["apt"@, "update"@]),
            ("sudo"@, seq!["apt"@, "install"@, "-y"@, "podman"@]),
        ],
        OsType::Fedora => seq![("sudo"@, seq!["dnf"@, "install"@, "-y"@, "podman"@])],
        OsType::RedHat => seq![("sudo"@, seq!["yum"@, "install"@, "-y"@, "podman"@])],
        OsType::ArchLinux => seq![
            ("sudo"@, seq!["pacman"@, "-S"@, "--noconfirm"@, "podman"@]),
        ],
        OsType::Unknown => Seq::empty(),
    }
}

fn sudo_cmd(parts: Vec<String>) -> (r: SystemCommand)
    ensures
        system_cmd_view(r) == ("sudo"@, argv_view(parts@)),
{
    SystemCommand { program: String::from_str("sudo"), args: parts }
}

/// Selects the install commands for a platform; an unrecognized platform is
/// unsupported and installs nothing.
pub fn install_commands(os: &OsType) -> (r: Result<Vec<SystemCommand>, DeployError>)
    ensures
        match r {
            Ok(cmds) => *os != OsType::Unknown && cmds@.map_values(
                |c: SystemCommand| system_cmd_view(c),
            ) == install_commands_spec(*os),
            Err(e) => *os == OsType::Unknown && e == DeployError::UnsupportedPlatform,
        },
{
    let mut cmds: Vec<SystemCommand> = Vec::new();
    match os {
        OsType::Ubuntu | OsType::Debian => {
            let mut a: Vec<String> = Vec::new();
            a.push(String::from_str("apt"));
            a.push(String::from_str("update"));
            assert(argv_view(a@) =~= seq!["apt"@, "update"@]);
            cmds.push(sudo_cmd(a));
            let mut b: Vec<String> = Vec::new();
            b.push(String::from_str("apt"));
            b.push(String::from_str("install"));
            b.push(String::from_str("-y"));
            b.push(String::from_str("podman"));
            assert(argv_view(b@) =~= seq!["apt"@, "install"@, "-y"@, "podman"@]);
            cmds.push(sudo_cmd(b));
            assert(cmds@.map_values(|c: SystemCommand| system_cmd_view(c))
                =~= install_commands_spec(*os));
            Ok(cmds)
        },
        OsType::Fedora => {
            let mut a: Vec<String> = Vec::new();
            a.push(String::from_str("dnf"));
            a.push(String::from_str("install"));
            a.push(String::from_str("-y"));
            a.push(String::from_str("podman"));
            assert(argv_view(a@) =~= seq!["dnf"@, "install"@, "-y"@, "podman"@]);
            cmds.push(sudo_cmd(a));
            assert(cmds@.map_values(|c: SystemCommand| system_cmd_view(c))
                =~= install_commands_spec(*os));
            Ok(cmds)
        },
        OsType::RedHat => {
            let mut a: Vec<String> = Vec::new();
            a.push(String::from_str("yum"));
            a.push(String::from_str("install"));
            a.push(String::from_str("-y"));
            a.push(String::from_str("podman"));
            assert(argv_view(a@) =~= seq!["yum"@, "install"@, "-y"@, "podman"@]);
            cmds.push(sudo_cmd(a));
            assert(cmds@.map_values(|c: SystemCommand| system_cmd_view(c))
                =~= install_commands_spec(*os));
            Ok(cmds)
        },
        OsType::ArchLinux => {
            let mut a: Vec<String> = Vec::new();
            a.push(String::from_str("pacman"));
            a.push(String::from_str("-S"));
            a.push(String::from_str("--noconfirm"));
            a.push(String::from_str("podman"));
            assert(argv_view(a@) =~= seq!["pacman"@, "-S"@, "--noconfirm"@, "podman"@]);
            cmds.push(sudo_cmd(a));
            assert(cmds@.map_values(|c: SystemCommand| system_cmd_view(c))
                =~= install_commands_spec(*os));
            Ok(cmds)
        },
        OsType::Unknown => Err(DeployError::UnsupportedPlatform),
    }
}

/// What the installation check decides for the current state.
#[derive(Debug, Clone, Copy, PartialEq, Eq, Structural)]
pub enum InstallCheck {
    /// The document already records the runtime as installed: skip the check.
    AlreadyMarked,
    /// The runtime answered the live probe: record it in the document.
    DetectedLive,
    /// No runtime found: detect the platform and install.
    InstallRequired,
}

/// Decides the installation step. The live probe is consulted only when the
/// document does not already record an installation.
pub fn install_decision(flag_installed: bool, live: &Option<bool>) -> (r: InstallCheck)
    requires
        !flag_installed ==> live.is_some(),
    ensures
        flag_installed ==> r == InstallCheck::AlreadyMarked,
        !flag_installed && *live == Some(true) ==> r == InstallCheck::DetectedLive,
        !flag_installed && *live == Some(false) ==> r == InstallCheck::InstallRequired,
{
    if flag_installed {
        InstallCheck::AlreadyMarked
    } else {
        match live {
            Some(true) => InstallCheck::DetectedLive,
            _ => InstallCheck::InstallRequired,
        }
    }
}

} // verus!
