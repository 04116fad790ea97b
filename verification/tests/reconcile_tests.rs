use podman_deploy::config::{Config, Container, EnvVar, Pod};
use podman_deploy::errors::{DeployError, TargetKind};
use podman_deploy::reconcile::{
    images_to_pull, needs_upgrade, pod_creation_plan, start_mode_plan, stop_all_plan,
    stop_mode_plan, upgrade_plan, upgrade_targets, PlanRun,
};

fn container(name: &str, image: &str) -> Container {
    Container {
        name: name.to_string(),
        image: image.to_string(),
        mounts: Vec::new(),
        env_vars: Vec::new(),
        ports: Vec::new(),
    }
}

fn two_pod_config() -> Config {
    Config {
        application_name: "app".to_string(),
        is_podman_installed: true,
        data_path: "/srv/app".to_string(),
        pods: vec![
            Pod {
                name: "alpha".to_string(),
                containers: vec![container("web", "nginx:1.21"), container("db", "postgres:14")],
            },
            Pod { name: "beta".to_string(), containers: vec![container("cache", "redis:7")] },
        ],
        private_registry: None,
        registry_username: None,
        registry_password: None,
    }
}

#[test]
fn absent_container_never_needs_upgrade() {
    assert!(!needs_upgrade(false, &Some("nginx:1.20".to_string()), "nginx:1.21"));
    assert!(!needs_upgrade(false, &None, "nginx:1.21"));
}

#[test]
fn matching_image_needs_no_upgrade() {
    assert!(!needs_upgrade(true, &Some("nginx:1.21".to_string()), "nginx:1.21"));
}

#[test]
fn drifted_image_needs_upgrade() {
    assert!(needs_upgrade(true, &Some("nginx:1.20".to_string()), "nginx:1.21"));
}

#[test]
fn unknown_image_needs_upgrade() {
    assert!(needs_upgrade(true, &None, "nginx:1.21"));
}

#[test]
fn upgrade_plan_is_pull_stop_remove_recreate() {
    let c = container("web", "nginx:1.21");
    let plan = upgrade_plan("alpha", &c, "/srv/app");
    assert_eq!(plan.len(), 4);
    assert_eq!(plan[0], vec!["pull".to_string(), "nginx:1.21".to_string()]);
    assert_eq!(plan[1], vec!["stop".to_string(), "web".to_string()]);
    assert_eq!(plan[2], vec!["rm".to_string(), "web".to_string()]);
    assert_eq!(
        plan[3],
        vec![
            "run".to_string(),
            "-d".to_string(),
            "--pod".to_string(),
            "alpha".to_string(),
            "--name".to_string(),
            "web".to_string(),
            "nginx:1.21".to_string(),
        ]
    );
}

#[test]
fn failed_pull_halts_the_rest_of_the_upgrade() {
    let c = container("web", "nginx:1.21");
    let plan = upgrade_plan("alpha", &c, "/srv/app");
    let mut run = PlanRun::new(plan);
    assert_eq!(run.next_step(), Some(0));
    run.record(false);
    assert_eq!(run.next_step(), None);
}

#[test]
fn successful_steps_run_in_order_to_completion() {
    let c = container("web", "nginx:1.21");
    let plan = upgrade_plan("alpha", &c, "/srv/app");
    let mut run = PlanRun::new(plan);
    for expected in 0..4 {
        assert_eq!(run.next_step(), Some(expected));
        run.record(true);
    }
    assert_eq!(run.next_step(), None);
}

#[test]
fn upgrade_target_by_name_finds_first_match() {
    let config = two_pod_config();
    let targets = upgrade_targets(&config, &Some("cache".to_string())).unwrap();
    assert_eq!(targets, vec![(1, 0)]);
}

#[test]
fn upgrade_without_target_visits_every_container() {
    let config = two_pod_config();
    let targets = upgrade_targets(&config, &None).unwrap();
    assert_eq!(targets, vec![(0, 0), (0, 1), (1, 0)]);
}

#[test]
fn upgrade_of_unknown_name_is_not_found() {
    let config = two_pod_config();
    let err = upgrade_targets(&config, &Some("ghost".to_string())).unwrap_err();
    assert_eq!(
        err,
        DeployError::NotFound { kind: TargetKind::Container, name: "ghost".to_string() }
    );
}

#[test]
fn existing_pod_is_left_untouched() {
    let config = two_pod_config();
    let plan = pod_creation_plan(&config.pods[0], true, "/srv/app");
    assert!(plan.is_empty());
}

#[test]
fn absent_pod_is_created_before_its_containers() {
    let config = two_pod_config();
    let plan = pod_creation_plan(&config.pods[0], false, "/srv/app");
    assert_eq!(plan.len(), 3);
    assert_eq!(
        &plan[0][..4],
        &["pod".to_string(), "create".to_string(), "--name".to_string(), "alpha".to_string()]
    );
    assert_eq!(plan[1][5], "web".to_string());
    assert_eq!(plan[2][5], "db".to_string());
}

#[test]
fn images_are_pulled_once_each() {
    let mut config = two_pod_config();
    config.pods[1].containers.push(container("web2", "nginx:1.21"));
    let images = images_to_pull(&config);
    assert_eq!(
        images,
        vec!["nginx:1.21".to_string(), "postgres:14".to_string(), "redis:7".to_string()]
    );
}

#[test]
fn stop_all_stops_containers_then_pods() {
    let config = two_pod_config();
    let plan = stop_all_plan(&config);
    assert_eq!(
        plan,
        vec![
            vec!["stop".to_string(), "web".to_string()],
            vec!["stop".to_string(), "db".to_string()],
            vec!["stop".to_string(), "cache".to_string()],
            vec!["pod".to_string(), "stop".to_string(), "alpha".to_string()],
            vec!["pod".to_string(), "stop".to_string(), "beta".to_string()],
        ]
    );
}

#[test]
fn start_of_unknown_pod_is_not_found() {
    let config = two_pod_config();
    let err = start_mode_plan(&config, &Some("ghost".to_string())).unwrap_err();
    assert_eq!(err, DeployError::NotFound { kind: TargetKind::Pod, name: "ghost".to_string() });
}

#[test]
fn start_without_target_always_plans_and_tolerates_failures() {
    let config = two_pod_config();
    let plan = start_mode_plan(&config, &None).unwrap();
    assert!(plan.tolerant);
    assert_eq!(
        plan.commands,
        vec![
            vec!["pod".to_string(), "start".to_string(), "alpha".to_string()],
            vec!["pod".to_string(), "start".to_string(), "beta".to_string()],
        ]
    );
}

#[test]
fn start_of_known_pod_propagates_failures() {
    let config = two_pod_config();
    let plan = start_mode_plan(&config, &Some("beta".to_string())).unwrap();
    assert!(!plan.tolerant);
    assert_eq!(
        plan.commands,
        vec![vec!["pod".to_string(), "start".to_string(), "beta".to_string()]]
    );
}

#[test]
fn stop_of_unknown_pod_is_not_found() {
    let config = two_pod_config();
    let err = stop_mode_plan(&config, &Some("ghost".to_string())).unwrap_err();
    assert_eq!(err, DeployError::NotFound { kind: TargetKind::Pod, name: "ghost".to_string() });
}

#[test]
fn stop_without_target_stops_everything_best_effort() {
    let config = two_pod_config();
    let plan = stop_mode_plan(&config, &None).unwrap();
    assert!(plan.tolerant);
    assert_eq!(plan.commands.len(), 5);
}

#[test]
fn env_vars_are_rendered_into_run_arguments() {
    let mut c = container("web", "nginx:1.21");
    c.env_vars.push(EnvVar { name: "MODE".to_string(), value: "prod".to_string() });
    let plan = upgrade_plan("alpha", &c, "/srv/app");
    assert_eq!(
        plan[3],
        vec![
            "run".to_string(),
            "-d".to_string(),
            "--pod".to_string(),
            "alpha".to_string(),
            "--name".to_string(),
            "web".to_string(),
            "-e".to_string(),
            "MODE=prod".to_string(),
            "nginx:1.21".to_string(),
        ]
    );
}
