use podman_deploy::config::{Config, Container, Pod};
use podman_deploy::mounts::{is_file_path, mount_arg, mount_local, resolve_mount_host};
use podman_deploy::paths::{materialize_plan, PathAction};

fn config_with_mounts(mounts: &[&str]) -> Config {
    Config {
        application_name: "app".to_string(),
        is_podman_installed: true,
        data_path: "/srv/app".to_string(),
        pods: vec![Pod {
            name: "alpha".to_string(),
            containers: vec![Container {
                name: "web".to_string(),
                image: "nginx:1.21".to_string(),
                mounts: mounts.iter().map(|m| m.to_string()).collect(),
                env_vars: Vec::new(),
                ports: Vec::new(),
            }],
        }],
        private_registry: None,
        registry_username: None,
        registry_password: None,
    }
}

#[test]
fn dotted_known_extensions_are_files() {
    assert!(is_file_path("/etc/app.conf"));
    assert!(is_file_path("/logs/server.log"));
    assert!(is_file_path("/notes/readme.txt"));
    assert!(is_file_path("/conf/settings.json"));
    assert!(is_file_path("/conf/stack.yaml"));
    assert!(is_file_path("/conf/stack.yml"));
}

#[test]
fn other_paths_are_directories() {
    assert!(!is_file_path("/data/cache"));
    assert!(!is_file_path("/data/app.d"));
    assert!(!is_file_path("conf"));
}

#[test]
fn mount_host_path_is_data_root_plus_local_segment() {
    let host = resolve_mount_host("/srv/app", "/cfg/app.conf:/etc/app.conf").unwrap();
    assert_eq!(host, "/srv/app/cfg/app.conf");
}

#[test]
fn mount_argument_keeps_the_container_side() {
    let arg = mount_arg("/srv/app", "/cfg/app.conf:/etc/app.conf");
    assert_eq!(arg, "/srv/app/cfg/app.conf:/etc/app.conf");
}

#[test]
fn mount_without_separator_resolves_to_nothing() {
    assert!(resolve_mount_host("/srv/app", "plainvolume").is_none());
    assert!(mount_local("plainvolume").is_none());
    assert_eq!(mount_arg("/srv/app", "plainvolume"), "plainvolume");
}

#[test]
fn local_segment_stops_at_the_first_separator() {
    assert_eq!(mount_local("/cfg/app.conf:/etc:deep").unwrap(), "/cfg/app.conf");
}

#[test]
fn plan_creates_data_root_then_each_mount_path() {
    let config = config_with_mounts(&[
        "/cfg/app.conf:/etc/app.conf",
        "/data/cache:/var/cache",
        "plainvolume",
    ]);
    let plan = materialize_plan(&config);
    assert_eq!(
        plan,
        vec![
            PathAction::EnsureDir("/srv/app".to_string()),
            PathAction::EnsureFile("/srv/app/cfg/app.conf".to_string()),
            PathAction::EnsureDir("/srv/app/data/cache".to_string()),
        ]
    );
}

#[test]
fn plan_is_the_same_on_a_second_run() {
    let config = config_with_mounts(&["/cfg/app.conf:/etc/app.conf", "/data/cache:/var/cache"]);
    let first = materialize_plan(&config);
    let second = materialize_plan(&config);
    assert_eq!(first, second);
}
