//! The desired-state document: pods, containers, and registry settings.

use vstd::prelude::*;
use crate::text::str_eq;

verus! {

/// One environment variable of a container.
#[derive(Debug, Clone)]
pub struct EnvVar {
    pub name: String,
    pub value: String,
}

/// A container: image reference, mounts (`hostRelative:containerPath`),
/// environment variables, and port specs (`hostPort:containerPort`).
#[derive(Debug, Clone)]
pub struct Container {
    pub name: String,
    pub image: String,
    pub mounts: Vec<String>,
    pub env_vars: Vec<EnvVar>,
    pub ports: Vec<String>,
}

/// A named group of containers created and started together.
#[derive(Debug, Clone)]
pub struct Pod {
    pub name: String,
    pub containers: Vec<Container>,
}

/// The whole configuration document: the sole source of desired state.
#[derive(Debug, Clone)]
pub struct Config {
    pub application_name: String,
    pub is_podman_installed: bool,
    pub data_path: String,
    pub pods: Vec<Pod>,
    pub private_registry: Option<String>,
    pub registry_username: Option<String>,
    pub registry_password: Option<String>,
}

/// The names of a sequence of environment variables.
pub open spec fn env_names(env: Seq<EnvVar>) -> Seq<Seq<char>> {
    env.map_values(|e: EnvVar| e.name@)
}

/// The names of a sequence of containers.
pub open spec fn container_names(cs: Seq<Container>) -> Seq<Seq<char>> {
    cs.map_values(|c: Container| c.name@)
}

/// The names of a sequence of pods.
pub open spec fn pod_names(ps: Seq<Pod>) -> Seq<Seq<char>> {
    ps.map_values(|p: Pod| p.name@)
}

impl Container {
    /// Environment variable names are unique within one container.
    pub open spec fn wf(self) -> bool {
        env_names(self.env_vars@).no_duplicates()
    }
}

impl Pod {
    /// Container names are unique within one pod, and each container is
    /// well formed.
    pub open spec fn wf(self) -> bool {
        &&& container_names(self.containers@).no_duplicates()
        &&& forall|i: int|
            0 <= i < self.containers@.len() ==> (#[trigger] self.containers@[i]).wf()
    }
}

impl Config {
    /// Pod names are unique within the document, and each pod is well formed.
    pub open spec fn wf(self) -> bool {
        &&& pod_names(self.pods@).no_duplicates()
        &&& forall|i: int| 0 <= i < self.pods@.len() ==> (#[trigger] self.pods@[i]).wf()
    }

    /// Records that the runtime is installed; every other field is kept.
    ///
    /// The flag is only ever raised after a verified successful install or a
    /// live-detected installation, so no operation lowers it.
    pub fn mark_installed(&mut self)
        ensures
            final(self).is_podman_installed == true,
            final(self).application_name == old(self).application_name,
            final(self).data_path == old(self).data_path,
            final(self).pods == old(self).pods,
            final(self).private_registry == old(self).private_registry,
            final(self).registry_username == old(self).registry_username,
            final(self).registry_password == old(self).registry_password,
    {
        self.is_podman_installed = true;
    }
}

/// The given strings are pairwise distinct.
fn strings_unique(v: &Vec<String>) -> (r: bool)
    ensures
        r == v@.map_values(|s: String| s@).no_duplicates(),
{
    let n = v.len();
    let mut i: usize = 0;
    while i < n
        invariant
            n == v@.len(),
            0 <= i <= n,
            forall|a: int, b: int| 0 <= a < i && a < b < n ==> v@[a]@ != v@[b]@,
        decreases n - i,
    {
        let mut j: usize = i + 1;
        while j < n
            invariant
                n == v@.len(),
                0 <= i < n,
                i < j <= n,
                forall|b: int| i < b < j ==> v@[i as int]@ != v@[b]@,
            decreases n - j,
        {
            if str_eq(v[i].as_str(), v[j].as_str()) {
                proof {
                    let m = v@.map_values(|s: String| s@);
                    assert(m[i as int] == v@[i as int]@ && m[j as int] == v@[j as int]@);
                    assert(!m.no_duplicates());
                }
                return false;
            }
            j = j + 1;
        }
        i = i + 1;
    }
    proof {
        let m = v@.map_values(|s: String| s@);
        assert forall|a: int, b: int|
            #![trigger m[a], m[b]]
            0 <= a < n && 0 <= b < n && a != b implies m[a] != m[b] by {
            if a < b {
                assert(v@[a]@ != v@[b]@);
            } else {
                assert(v@[b]@ != v@[a]@);
            }
        }
    }
    true
}

/// Decides `Config::wf`: name uniqueness at every level of the document.
pub fn is_well_formed(config: &Config) -> (r: bool)
    ensures
        r == config.wf(),
{
    let mut names: Vec<String> = Vec::new();
    let np = config.pods.len();
    let mut i: usize = 0;
    while i < np
        invariant
            np == config.pods@.len(),
            0 <= i <= np,
            names@.map_values(|s: String| s@) == pod_names(config.pods@.take(i as int)),
        decreases np - i,
    {
        names.push(config.pods[i].name.clone());
        assert(pod_names(config.pods@.take(i + 1)) =~= pod_names(
            config.pods@.take(i as int),
        ).push(config.pods@[i as int].name@));
        assert(names@.map_values(|s: String| s@) =~= pod_names(config.pods@.take(i + 1)));
        i = i + 1;
    }
    assert(config.pods@.take(np as int) =~= config.pods@);
    if !strings_unique(&names) {
        return false;
    }
    let mut i: usize = 0;
    while i < np
        invariant
            np == config.pods@.len(),
            0 <= i <= np,
            pod_names(config.pods@).no_duplicates(),
            forall|k: int| 0 <= k < i ==> (#[trigger] config.pods@[k]).wf(),
        decreases np - i,
    {
        if !pod_well_formed(&config.pods[i]) {
            return false;
        }
        i = i + 1;
    }
    true
}

/// Decides `Pod::wf`.
fn pod_well_formed(pod: &Pod) -> (r: bool)
    ensures
        r == pod.wf(),
{
    let mut names: Vec<String> = Vec::new();
    let nc = pod.containers.len();
    let mut i: usize = 0;
    while i < nc
        invariant
            nc == pod.containers@.len(),
            0 <= i <= nc,
            names@.map_values(|s: String| s@) == container_names(pod.containers@.take(i as int)),
        decreases nc - i,
    {
        names.push(pod.containers[i].name.clone());
        assert(container_names(pod.containers@.take(i + 1)) =~= container_names(
            pod.containers@.take(i as int),
        ).push(pod.containers@[i as int].name@));
        assert(names@.map_values(|s: String| s@) =~= container_names(pod.containers@.take(i + 1)));
        i = i + 1;
    }
    assert(pod.containers@.take(nc as int) =~= pod.containers@);
    if !strings_unique(&names) {
        return false;
    }
    let mut i: usize = 0;
    while i < nc
        invariant
            nc == pod.containers@.len(),
            0 <= i <= nc,
            container_names(pod.containers@).no_duplicates(),
            forall|k: int| 0 <= k < i ==> (#[trigger] pod.containers@[k]).wf(),
        decreases nc - i,
    {
        if !container_well_formed(&pod.containers[i]) {
            return false;
        }
        i = i + 1;
    }
    true
}

/// Decides `Container::wf`.
fn container_well_formed(container: &Container) -> (r: bool)
    ensures
        r == container.wf(),
{
    let mut names: Vec<String> = Vec::new();
    let ne = container.env_vars.len();
    let mut i: usize = 0;
    while i < ne
        invariant
            ne == container.env_vars@.len(),
            0 <= i <= ne,
            names@.map_values(|s: String| s@) == env_names(container.env_vars@.take(i as int)),
        decreases ne - i,
    {
        names.push(container.env_vars[i].name.clone());
        assert(env_names(container.env_vars@.take(i + 1)) =~= env_names(
            container.env_vars@.take(i as int),
        ).push(container.env_vars@[i as int].name@));
        assert(names@.map_values(|s: String| s@) =~= env_names(container.env_vars@.take(i + 1)));
        i = i + 1;
    }
    assert(container.env_vars@.take(ne as int) =~= container.env_vars@);
    strings_unique(&names)
}

/// `i` is the index of the first pod named `name`.
pub open spec fn pod_named_at(pods: Seq<Pod>, name: Seq<char>, i: int) -> bool {
    &&& 0 <= i < pods.len()
    &&& pods[i].name@ == name
    &&& forall|k: int| 0 <= k < i ==> pods[k].name@ != name
}

/// Finds the first pod with the given name in the document.
pub fn find_pod(config: &Config, name: &str) -> (r: Option<usize>)
    ensures
        match r {
            Some(i) => pod_named_at(config.pods@, name@, i as int),
            None => forall|k: int|
                0 <= k < config.pods@.len() ==> config.pods@[k].name@ != name@,
        },
{
    let n = config.pods.len();
    let mut i: usize = 0;
    while i < n
        invariant
            n == config.pods@.len(),
            0 <= i <= n,
            forall|k: int| 0 <= k < i ==> config.pods@[k].name@ != name@,
        decreases n - i,
    {
        if str_eq(config.pods[i].name.as_str(), name) {
            return Some(i);
        }
        i = i + 1;
    }
    None
}

/// No container named `name` occurs before position `(i, j)` in the
/// pods-then-containers scan order.
pub open spec fn no_container_named_before(
    pods: Seq<Pod>,
    name: Seq<char>,
    i: int,
    j: int,
) -> bool {
    forall|a: int, b: int|
        #![trigger pods[a].containers@[b]]
        (0 <= a < i && 0 <= b < pods[a].containers@.len()) || (a == i && 0 <= b < j)
            ==> pods[a].containers@[b].name@ != name
}

/// `(i, j)` locates the first container named `name`, scanning pods in
/// order and each pod's containers in order.
pub open spec fn container_named_at(pods: Seq<Pod>, name: Seq<char>, i: int, j: int) -> bool {
    &&& 0 <= i < pods.len()
    &&& 0 <= j < pods[i].containers@.len()
    &&& pods[i].containers@[j].name@ == name
    &&& no_container_named_before(pods, name, i, j)
}

/// Finds the first container with the given name, scanning pods linearly.
pub fn find_container(config: &Config, name: &str) -> (r: Option<(usize, usize)>)
    ensures
        match r {
            Some(ij) => container_named_at(config.pods@, name@, ij.0 as int, ij.1 as int),
            None => no_container_named_before(
                config.pods@,
                name@,
                config.pods@.len() as int,
                0,
            ),
        },
{
    let n = config.pods.len();
    let mut i: usize = 0;
    while i < n
        invariant
            n == config.pods@.len(),
            0 <= i <= n,
            no_container_named_before(config.pods@, name@, i as int, 0),
        decreases n - i,
    {
        let m = config.pods[i].containers.len();
        let mut j: usize = 0;
        while j < m
            invariant
                n == config.pods@.len(),
                0 <= i < n,
                m == config.pods@[i as int].containers@.len(),
                0 <= j <= m,
                no_container_named_before(config.pods@, name@, i as int, j as int),
            decreases m - j,
        {
            if str_eq(config.pods[i].containers[j].name.as_str(), name) {
                return Some((i, j));
            }
            j = j + 1;
        }
        i = i + 1;
    }
    None
}

} // verus!
