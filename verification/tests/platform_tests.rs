use podman_deploy::errors::DeployError;
use podman_deploy::platform::{
    detect_os, install_commands, install_decision, is_podman_installed, InstallCheck, OsType,
};

#[test]
fn version_probe_interprets_all_outcomes() {
    assert!(is_podman_installed(&Some(true)));
    assert!(!is_podman_installed(&Some(false)));
    assert!(!is_podman_installed(&None));
}

#[test]
fn release_contents_pick_the_platform() {
    assert_eq!(detect_os(&Some("NAME=\"Ubuntu\"\nVERSION=22.04".to_string())), OsType::Ubuntu);
    assert_eq!(detect_os(&Some("ID=debian".to_string())), OsType::Debian);
    assert_eq!(detect_os(&Some("NAME=\"Fedora Linux\"".to_string())), OsType::Fedora);
    assert_eq!(detect_os(&Some("NAME=\"Red Hat Enterprise\"".to_string())), OsType::RedHat);
    assert_eq!(detect_os(&Some("ID=rhel".to_string())), OsType::RedHat);
    assert_eq!(detect_os(&Some("ID=centos".to_string())), OsType::RedHat);
    assert_eq!(detect_os(&Some("ID=arch".to_string())), OsType::ArchLinux);
    assert_eq!(detect_os(&Some("ID=gentoo".to_string())), OsType::Unknown);
}

#[test]
fn detection_is_case_insensitive_and_reads_failures_as_unknown() {
    assert_eq!(detect_os(&Some("NAME=UBUNTU".to_string())), OsType::Ubuntu);
    assert_eq!(detect_os(&None), OsType::Unknown);
}

#[test]
fn debian_family_updates_before_installing() {
    let cmds = install_commands(&OsType::Ubuntu).unwrap();
    assert_eq!(cmds.len(), 2);
    assert_eq!(cmds[0].program, "sudo");
    assert_eq!(cmds[0].args, vec!["apt".to_string(), "update".to_string()]);
    assert_eq!(
        cmds[1].args,
        vec!["apt".to_string(), "install".to_string(), "-y".to_string(), "podman".to_string()]
    );
}

#[test]
fn each_platform_uses_its_package_manager() {
    assert_eq!(install_commands(&OsType::Fedora).unwrap()[0].args[0], "dnf");
    assert_eq!(install_commands(&OsType::RedHat).unwrap()[0].args[0], "yum");
    assert_eq!(install_commands(&OsType::ArchLinux).unwrap()[0].args[0], "pacman");
}

#[test]
fn unknown_platform_cannot_install() {
    assert_eq!(
        install_commands(&OsType::Unknown).unwrap_err(),
        DeployError::UnsupportedPlatform
    );
}

#[test]
fn install_check_prefers_the_recorded_flag() {
    assert_eq!(install_decision(true, &None), InstallCheck::AlreadyMarked);
    assert_eq!(install_decision(false, &Some(true)), InstallCheck::DetectedLive);
    assert_eq!(install_decision(false, &Some(false)), InstallCheck::InstallRequired);
}
