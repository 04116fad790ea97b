use podman_deploy::config::{find_container, find_pod, is_well_formed, Config, Container, EnvVar, Pod};
use podman_deploy::reconcile::{registry_check_request, registry_login_action};

fn container(name: &str) -> Container {
    Container {
        name: name.to_string(),
        image: "img:1".to_string(),
        mounts: Vec::new(),
        env_vars: Vec::new(),
        ports: Vec::new(),
    }
}

fn base_config(pods: Vec<Pod>) -> Config {
    Config {
        application_name: "app".to_string(),
        is_podman_installed: false,
        data_path: "/srv/app".to_string(),
        pods,
        private_registry: None,
        registry_username: None,
        registry_password: None,
    }
}

#[test]
fn pods_are_found_by_name() {
    let config = base_config(vec![
        Pod { name: "alpha".to_string(), containers: vec![container("web")] },
        Pod { name: "beta".to_string(), containers: vec![container("db")] },
    ]);
    assert_eq!(find_pod(&config, "beta"), Some(1));
    assert_eq!(find_pod(&config, "gamma"), None);
}

#[test]
fn container_search_scans_pods_in_order_and_takes_the_first_match() {
    let config = base_config(vec![
        Pod { name: "alpha".to_string(), containers: vec![container("web")] },
        Pod { name: "beta".to_string(), containers: vec![container("agent"), container("web")] },
    ]);
    assert_eq!(find_container(&config, "web"), Some((0, 0)));
    assert_eq!(find_container(&config, "agent"), Some((1, 0)));
    assert_eq!(find_container(&config, "ghost"), None);
}

#[test]
fn unique_names_make_a_well_formed_document() {
    let mut c = container("web");
    c.env_vars.push(EnvVar { name: "A".to_string(), value: "1".to_string() });
    c.env_vars.push(EnvVar { name: "B".to_string(), value: "2".to_string() });
    let config = base_config(vec![
        Pod { name: "alpha".to_string(), containers: vec![c, container("db")] },
        Pod { name: "beta".to_string(), containers: vec![container("cache")] },
    ]);
    assert!(is_well_formed(&config));
}

#[test]
fn duplicate_pod_names_are_rejected() {
    let config = base_config(vec![
        Pod { name: "alpha".to_string(), containers: Vec::new() },
        Pod { name: "alpha".to_string(), containers: Vec::new() },
    ]);
    assert!(!is_well_formed(&config));
}

#[test]
fn duplicate_container_names_in_one_pod_are_rejected() {
    let config = base_config(vec![Pod {
        name: "alpha".to_string(),
        containers: vec![container("web"), container("web")],
    }]);
    assert!(!is_well_formed(&config));
}

#[test]
fn duplicate_env_names_are_rejected() {
    let mut c = container("web");
    c.env_vars.push(EnvVar { name: "A".to_string(), value: "1".to_string() });
    c.env_vars.push(EnvVar { name: "A".to_string(), value: "2".to_string() });
    let config = base_config(vec![Pod { name: "alpha".to_string(), containers: vec![c] }]);
    assert!(!is_well_formed(&config));
}

#[test]
fn marking_installed_touches_only_the_flag() {
    let mut config = base_config(vec![Pod {
        name: "alpha".to_string(),
        containers: vec![container("web")],
    }]);
    config.mark_installed();
    assert!(config.is_podman_installed);
    assert_eq!(config.application_name, "app");
    assert_eq!(config.data_path, "/srv/app");
    assert_eq!(config.pods.len(), 1);
    assert_eq!(config.pods[0].name, "alpha");
}

#[test]
fn login_is_requested_only_with_full_credentials_and_no_session() {
    let mut config = base_config(Vec::new());
    assert!(registry_check_request(&config).is_none());
    config.private_registry = Some("reg.example.com".to_string());
    assert!(registry_check_request(&config).is_none());
    config.registry_username = Some("user".to_string());
    config.registry_password = Some("secret".to_string());
    assert_eq!(registry_check_request(&config).unwrap(), "reg.example.com");

    let req = registry_login_action(&config, false).unwrap();
    assert_eq!(req.registry, "reg.example.com");
    assert_eq!(req.user, "user");
    assert_eq!(req.pass, "secret");
    assert!(registry_login_action(&config, true).is_none());
}
