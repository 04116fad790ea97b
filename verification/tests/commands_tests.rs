use podman_deploy::config::{Container, EnvVar, Pod};
use podman_deploy::commands::{
    container_run_args, generate_container_command, generate_pod_command, inspect_image_args,
    login_args, login_check_args, pod_create_args, pod_exists_args, pod_ports, pull_image_args,
};

fn container_with_ports(name: &str, ports: &[&str]) -> Container {
    Container {
        name: name.to_string(),
        image: "img:1".to_string(),
        mounts: Vec::new(),
        env_vars: Vec::new(),
        ports: ports.iter().map(|p| p.to_string()).collect(),
    }
}

#[test]
fn pod_ports_is_the_deduplicated_union() {
    let pod = Pod {
        name: "alpha".to_string(),
        containers: vec![
            container_with_ports("a", &["8080:80", "9090:90"]),
            container_with_ports("b", &["8080:80", "7070:70"]),
        ],
    };
    let ports = pod_ports(&pod);
    assert_eq!(
        ports,
        vec!["8080:80".to_string(), "9090:90".to_string(), "7070:70".to_string()]
    );
}

#[test]
fn pod_ports_ignores_declaration_order() {
    let forward = Pod {
        name: "alpha".to_string(),
        containers: vec![
            container_with_ports("a", &["8080:80", "9090:90"]),
            container_with_ports("b", &["7070:70"]),
        ],
    };
    let backward = Pod {
        name: "alpha".to_string(),
        containers: vec![
            container_with_ports("b", &["7070:70"]),
            container_with_ports("a", &["9090:90", "8080:80"]),
        ],
    };
    let mut p1 = pod_ports(&forward);
    let mut p2 = pod_ports(&backward);
    p1.sort();
    p2.sort();
    assert_eq!(p1, p2);
}

#[test]
fn pod_create_arguments_carry_every_distinct_port_once() {
    let pod = Pod {
        name: "alpha".to_string(),
        containers: vec![
            container_with_ports("a", &["8080:80"]),
            container_with_ports("b", &["8080:80", "7070:70"]),
        ],
    };
    let args = pod_create_args(&pod);
    assert_eq!(
        args,
        vec![
            "pod".to_string(),
            "create".to_string(),
            "--name".to_string(),
            "alpha".to_string(),
            "-p".to_string(),
            "8080:80".to_string(),
            "-p".to_string(),
            "7070:70".to_string(),
        ]
    );
}

#[test]
fn pod_command_line_reads_as_one_invocation() {
    let pod = Pod {
        name: "alpha".to_string(),
        containers: vec![container_with_ports("a", &["8080:80"])],
    };
    let line = generate_pod_command(&pod);
    assert_eq!(line, "podman pod create --name alpha -p 8080:80");
}

#[test]
fn container_command_line_prefixes_mount_host_paths() {
    let c = Container {
        name: "web".to_string(),
        image: "nginx:1.21".to_string(),
        mounts: vec!["/cfg/app.conf:/etc/app.conf".to_string()],
        env_vars: vec![EnvVar { name: "MODE".to_string(), value: "prod".to_string() }],
        ports: Vec::new(),
    };
    let line = generate_container_command("alpha", &c, "/srv/app");
    assert_eq!(
        line,
        "podman run -d --pod alpha --name web -e MODE=prod \
         -v /srv/app/cfg/app.conf:/etc/app.conf nginx:1.21"
    );
}

#[test]
fn mount_without_separator_is_passed_verbatim() {
    let c = Container {
        name: "web".to_string(),
        image: "img:1".to_string(),
        mounts: vec!["plainvolume".to_string()],
        env_vars: Vec::new(),
        ports: Vec::new(),
    };
    let args = container_run_args("alpha", &c, "/srv/app");
    assert_eq!(args[6], "-v".to_string());
    assert_eq!(args[7], "plainvolume".to_string());
}

#[test]
fn query_and_auth_arguments_match_the_runtime_cli() {
    assert_eq!(pull_image_args("img:1"), vec!["pull".to_string(), "img:1".to_string()]);
    assert_eq!(
        pod_exists_args("alpha"),
        vec!["pod".to_string(), "exists".to_string(), "alpha".to_string()]
    );
    assert_eq!(
        inspect_image_args("web"),
        vec![
            "inspect".to_string(),
            "web".to_string(),
            "--format".to_string(),
            "{{.Image}}".to_string(),
        ]
    );
    assert_eq!(
        login_check_args("reg.example.com"),
        vec!["login".to_string(), "--get-login".to_string(), "reg.example.com".to_string()]
    );
    assert_eq!(
        login_args("reg.example.com", "user", "secret"),
        vec![
            "login".to_string(),
            "reg.example.com".to_string(),
            "-u".to_string(),
            "user".to_string(),
            "-p".to_string(),
            "secret".to_string(),
        ]
    );
}
