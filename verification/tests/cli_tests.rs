use podman_deploy::cli::{
    config_search_paths, parse_args, select_config_path, Mode, UsageError,
};
use podman_deploy::errors::DeployError;

fn argv(parts: &[&str]) -> Vec<String> {
    parts.iter().map(|p| p.to_string()).collect()
}

#[test]
fn plain_setup_parses() {
    let inv = parse_args(&argv(&["podman_deploy", "setup"])).unwrap();
    assert_eq!(inv.mode, Mode::Setup);
    assert!(inv.config_override.is_none());
    assert!(inv.target.is_none());
}

#[test]
fn override_path_and_target_parse() {
    let inv = parse_args(&argv(&["podman_deploy", "--config", "/tmp/c.yaml", "upgrade", "web"]))
        .unwrap();
    assert_eq!(inv.mode, Mode::Upgrade);
    assert_eq!(inv.config_override, Some("/tmp/c.yaml".to_string()));
    assert_eq!(inv.target, Some("web".to_string()));
}

#[test]
fn start_and_stop_parse_with_optional_target() {
    let inv = parse_args(&argv(&["podman_deploy", "start", "alpha"])).unwrap();
    assert_eq!(inv.mode, Mode::Start);
    assert_eq!(inv.target, Some("alpha".to_string()));
    let inv = parse_args(&argv(&["podman_deploy", "stop"])).unwrap();
    assert_eq!(inv.mode, Mode::Stop);
    assert!(inv.target.is_none());
}

#[test]
fn missing_mode_is_a_count_error() {
    assert_eq!(
        parse_args(&argv(&["podman_deploy"])).unwrap_err(),
        UsageError::WrongArgumentCount
    );
}

#[test]
fn too_many_arguments_is_a_count_error() {
    assert_eq!(
        parse_args(&argv(&["podman_deploy", "start", "alpha", "extra"])).unwrap_err(),
        UsageError::WrongArgumentCount
    );
    assert_eq!(
        parse_args(&argv(&["podman_deploy", "--config", "/tmp/c.yaml"])).unwrap_err(),
        UsageError::WrongArgumentCount
    );
}

#[test]
fn setup_rejects_a_trailing_name() {
    assert_eq!(
        parse_args(&argv(&["podman_deploy", "setup", "alpha"])).unwrap_err(),
        UsageError::SetupTakesNoTarget
    );
}

#[test]
fn unknown_mode_is_rejected() {
    assert_eq!(
        parse_args(&argv(&["podman_deploy", "restart"])).unwrap_err(),
        UsageError::UnknownMode
    );
}

#[test]
fn search_paths_follow_the_documented_order() {
    let paths = config_search_paths("/home/op");
    assert_eq!(
        paths,
        vec![
            "/home/op/.config/podman_deploy/config.yaml".to_string(),
            "/etc/podman_deploy/config.yaml".to_string(),
            "./config.yaml".to_string(),
        ]
    );
}

#[test]
fn explicit_path_wins_when_it_exists() {
    let r = select_config_path(
        &Some("/tmp/c.yaml".to_string()),
        true,
        &Vec::new(),
        &Vec::new(),
    );
    assert_eq!(r.unwrap(), "/tmp/c.yaml");
}

#[test]
fn missing_explicit_path_is_config_not_found() {
    let r = select_config_path(
        &Some("/tmp/c.yaml".to_string()),
        false,
        &Vec::new(),
        &Vec::new(),
    );
    assert_eq!(r.unwrap_err(), DeployError::ConfigNotFound);
}

#[test]
fn first_existing_candidate_is_chosen() {
    let candidates = config_search_paths("/home/op");
    let present = vec![false, true, true];
    let r = select_config_path(&None, false, &candidates, &present);
    assert_eq!(r.unwrap(), "/etc/podman_deploy/config.yaml");
}

#[test]
fn no_candidate_anywhere_is_config_not_found() {
    let candidates = config_search_paths("/home/op");
    let present = vec![false, false, false];
    let r = select_config_path(&None, false, &candidates, &present);
    assert_eq!(r.unwrap_err(), DeployError::ConfigNotFound);
}
