//! Construction of the argument vectors handed to the container runtime,
//! and of the printable command lines.
//!
//! Every mutating runtime invocation the tool performs is described by an
//! argument vector built here, so the exact flags and their order are
//! verified once and shared by the planner and the display path.

use vstd::prelude::*;
use vstd::string::*;
use crate::config::{Container, EnvVar, Pod};
use crate::mounts::{mount_arg, mount_arg_spec};
use crate::text::str_eq;

verus! {

/// The character sequences of an argument vector.
pub open spec fn argv_view(v: Seq<String>) -> Seq<Seq<char>> {
    v.map_values(|s: String| s@)
}

/// All port specs declared by the containers of a pod, as a set: the union
/// of the containers' port lists, with duplicates collapsed.
pub open spec fn pod_port_set(pod: Pod) -> Set<Seq<char>> {
    Set::new(
        |p: Seq<char>|
            exists|a: int, b: int|
                #![trigger pod.containers@[a].ports@[b]]
                {
                    &&& 0 <= a < pod.containers@.len()
                    &&& 0 <= b < pod.containers@[a].ports@.len()
                    &&& pod.containers@[a].ports@[b]@ == p
                },
    )
}

/// The port specs declared by one container, as a set.
pub open spec fn container_port_set(c: Container) -> Set<Seq<char>> {
    Set::new(
        |p: Seq<char>|
            exists|b: int| 0 <= b < c.ports@.len() && (#[trigger] c.ports@[b])@ == p,
    )
}

/// A pod's port set is the union of its containers' port sets: a port spec
/// belongs to the pod exactly when some container declares it.
pub proof fn lemma_pod_port_set_is_union(pod: Pod)
    ensures
        forall|p: Seq<char>|
            #[trigger] pod_port_set(pod).contains(p) <==> exists|i: int|
                0 <= i < pod.containers@.len() && container_port_set(
                    #[trigger] pod.containers@[i],
                ).contains(p),
{
    assert forall|p: Seq<char>| #[trigger] pod_port_set(pod).contains(p) implies exists|i: int|
        0 <= i < pod.containers@.len() && container_port_set(
            #[trigger] pod.containers@[i],
        ).contains(p) by {
        let (a, b) = choose|a: int, b: int|
            #![trigger pod.containers@[a].ports@[b]]
            {
                &&& 0 <= a < pod.containers@.len()
                &&& 0 <= b < pod.containers@[a].ports@.len()
                &&& pod.containers@[a].ports@[b]@ == p
            };
        assert(container_port_set(pod.containers@[a]).contains(p));
    }
    assert forall|p: Seq<char>|
        (exists|i: int|
            0 <= i < pod.containers@.len() && container_port_set(
                #[trigger] pod.containers@[i],
            ).contains(p)) implies #[trigger] pod_port_set(pod).contains(p) by {
        let i = choose|i: int|
            0 <= i < pod.containers@.len() && container_port_set(
                #[trigger] pod.containers@[i],
            ).contains(p);
        let b = choose|b: int|
            0 <= b < pod.containers@[i].ports@.len() && (#[trigger] pod.containers@[i].ports@[b])@
                == p;
        assert(pod.containers@[i].ports@[b]@ == p);
    }
}

/// The ports contributed by containers before `i`, and by container `i`'s
/// ports before `j`: the part of the union a left-to-right scan has seen.
pub open spec fn port_prefix_set(pod: Pod, i: int, j: int) -> Set<Seq<char>> {
    Set::new(
        |p: Seq<char>|
            exists|a: int, b: int|
                #![trigger pod.containers@[a].ports@[b]]
                {
                    &&& 0 <= a < pod.containers@.len()
                    &&& 0 <= b < pod.containers@[a].ports@.len()
                    &&& (a < i || (a == i && b < j))
                    &&& pod.containers@[a].ports@[b]@ == p
                },
    )
}

/// Whether `s` occurs in `v`.
pub(crate) fn contains_string(v: &Vec<String>, s: &str) -> (r: bool)
    ensures
        r == argv_view(v@).contains(s@),
{
    let n = v.len();
    let mut k: usize = 0;
    while k < n
        invariant
            n == v@.len(),
            0 <= k <= n,
            forall|t: int| 0 <= t < k ==> v@[t]@ != s@,
        decreases n - k,
    {
        if str_eq(v[k].as_str(), s) {
            proof {
                assert(argv_view(v@)[k as int] == s@);
            }
            return true;
        }
        k = k + 1;
    }
    proof {
        assert forall|t: int| 0 <= t < argv_view(v@).len() implies #[trigger] argv_view(v@)[t]
            != s@ by {
            assert(argv_view(v@)[t] == v@[t]@);
        }
    }
    false
}

/// Collects every distinct port spec of a pod's containers, each exactly
/// once. The result is the union of all the containers' port lists; its
/// order is the order of first declaration, but only the set matters.
pub fn pod_ports(pod: &Pod) -> (r: Vec<String>)
    ensures
        argv_view(r@).no_duplicates(),
        argv_view(r@).to_set() == pod_port_set(*pod),
{
    let mut out: Vec<String> = Vec::new();
    let nc = pod.containers.len();
    let mut i: usize = 0;
    assert(argv_view(out@).to_set() =~= port_prefix_set(*pod, 0, 0));
    while i < nc
        invariant
            nc == pod.containers@.len(),
            0 <= i <= nc,
            argv_view(out@).no_duplicates(),
            argv_view(out@).to_set() == port_prefix_set(*pod, i as int, 0),
        decreases nc - i,
    {
        let np = pod.containers[i].ports.len();
        let mut j: usize = 0;
        while j < np
            invariant
                nc == pod.containers@.len(),
                0 <= i < nc,
                np == pod.containers@[i as int].ports@.len(),
                0 <= j <= np,
                argv_view(out@).no_duplicates(),
                argv_view(out@).to_set() == port_prefix_set(*pod, i as int, j as int),
            decreases np - j,
        {
            let p = &pod.containers[i].ports[j];
            let ghost pv = pod.containers@[i as int].ports@[j as int]@;
            if !contains_string(&out, p.as_str()) {
                let ghost before = argv_view(out@);
                out.push(p.clone());
                proof {
                    assert(argv_view(out@) =~= before.push(pv));
                    assert forall|x: int, y: int|
                        0 <= x < argv_view(out@).len() && 0 <= y < argv_view(out@).len() && x
                            != y implies argv_view(out@)[x] != argv_view(out@)[y] by {
                        if x < before.len() && y < before.len() {
                        } else if x < before.len() {
                            assert(!before.contains(pv));
                            assert(before[x] != pv);
                        } else if y < before.len() {
                            assert(!before.contains(pv));
                            assert(before[y] != pv);
                        }
                    }
                    before.lemma_push_to_set_commute(pv);
                    assert(argv_view(out@).to_set() =~= before.to_set().insert(pv));
                    assert(port_prefix_set(*pod, i as int, j + 1) =~= port_prefix_set(
                        *pod,
                        i as int,
                        j as int,
                    ).insert(pv));
                }
            } else {
                proof {
                    assert(argv_view(out@).to_set().contains(pv));
                    assert(port_prefix_set(*pod, i as int, j as int).contains(pv));
                    assert(port_prefix_set(*pod, i as int, j + 1) =~= port_prefix_set(
                        *pod,
                        i as int,
                        j as int,
                    ).insert(pv));
                    assert(port_prefix_set(*pod, i as int, j as int).insert(pv)
                        =~= port_prefix_set(*pod, i as int, j as int));
                }
            }
            j = j + 1;
        }
        proof {
            assert(port_prefix_set(*pod, i as int, np as int) =~= port_prefix_set(
                *pod,
                i + 1,
                0,
            ));
        }
        i = i + 1;
    }
    proof {
        assert(port_prefix_set(*pod, nc as int, 0) =~= pod_port_set(*pod));
    }
    out
}

/// The `-p` flag pairs for a list of ports, in order.
pub open spec fn port_flags(ports: Seq<Seq<char>>) -> Seq<Seq<char>>
    decreases ports.len(),
{
    if ports.len() == 0 {
        Seq::empty()
    } else {
        port_flags(ports.drop_last()) + seq!["-p"@, ports.last()]
    }
}

/// `a` is a pod-creation argument vector for `pod`: the fixed prefix, then
/// `-p` flags for some enumeration of the pod's distinct ports.
pub open spec fn is_pod_create_argv(a: Seq<Seq<char>>, pod: Pod) -> bool {
    exists|ports: Seq<Seq<char>>|
        {
            &&& ports.no_duplicates()
            &&& ports.to_set() == pod_port_set(pod)
            &&& a == seq!["pod"@, "create"@, "--name"@, pod.name@] + #[trigger] port_flags(ports)
        }
}

/// Builds the runtime arguments that create a pod: `pod create --name
/// <name>` followed by one `-p` flag for every distinct port of its
/// containers.
pub fn pod_create_args(pod: &Pod) -> (r: Vec<String>)
    ensures
        is_pod_create_argv(argv_view(r@), *pod),
{
    let ports = pod_ports(pod);
    let mut out: Vec<String> = Vec::new();
    out.push(String::from_str("pod"));
    out.push(String::from_str("create"));
    out.push(String::from_str("--name"));
    out.push(pod.name.clone());
    let ghost base = seq!["pod"@, "create"@, "--name"@, pod.name@];
    assert(argv_view(out@) =~= base + port_flags(argv_view(ports@).take(0)));
    let n = ports.len();
    let mut k: usize = 0;
    while k < n
        invariant
            n == ports@.len(),
            0 <= k <= n,
            argv_view(out@) == base + port_flags(argv_view(ports@).take(k as int)),
        decreases n - k,
    {
        let ghost before = argv_view(out@);
        out.push(String::from_str("-p"));
        out.push(ports[k].clone());
        proof {
            let pv = argv_view(ports@);
            assert(pv.take(k + 1).drop_last() =~= pv.take(k as int));
            assert(pv.take(k + 1).last() == ports@[k as int]@);
            assert(argv_view(out@) =~= before + seq!["-p"@, ports@[k as int]@]);
            assert(base + port_flags(pv.take(k as int)) + seq!["-p"@, ports@[k as int]@] =~= base
                + port_flags(pv.take(k + 1)));
        }
        k = k + 1;
    }
    proof {
        let pv = argv_view(ports@);
        assert(pv.take(n as int) =~= pv);
    }
    out
}

/// The `-e` flag pairs for a list of environment variables, in order; each
/// value is rendered as `name=value`.
pub open spec fn env_flags(env: Seq<EnvVar>) -> Seq<Seq<char>>
    decreases env.len(),
{
    if env.len() == 0 {
        Seq::empty()
    } else {
        env_flags(env.drop_last()) + seq!["-e"@, env.last().name@ + "="@ + env.last().value@]
    }
}

/// The `-v` flag pairs for a list of mount specs, in order; each host side
/// is prefixed with the data root.
pub open spec fn mount_flags(data: Seq<char>, mounts: Seq<String>) -> Seq<Seq<char>>
    decreases mounts.len(),
{
    if mounts.len() == 0 {
        Seq::empty()
    } else {
        mount_flags(data, mounts.drop_last()) + seq![
            "-v"@,
            mount_arg_spec(data, mounts.last()@),
        ]
    }
}

/// The runtime arguments that create one container inside a pod.
pub open spec fn container_run_argv(pod_name: Seq<char>, c: Container, data: Seq<char>) -> Seq<
    Seq<char>,
> {
    seq!["run"@, "-d"@, "--pod"@, pod_name, "--name"@, c.name@] + env_flags(c.env_vars@)
        + mount_flags(data, c.mounts@) + seq![c.image@]
}

/// Builds the runtime arguments that run a container detached in a pod:
/// environment flags, mount flags with the data root prefixed onto each
/// host path, and the configured image last.
pub fn container_run_args(pod_name: &str, c: &Container, data_path: &str) -> (r: Vec<String>)
    ensures
        argv_view(r@) == container_run_argv(pod_name@, *c, data_path@),
{
    let mut out: Vec<String> = Vec::new();
    out.push(String::from_str("run"));
    out.push(String::from_str("-d"));
    out.push(String::from_str("--pod"));
    out.push(String::from_str(pod_name));
    out.push(String::from_str("--name"));
    out.push(c.name.clone());
    let ghost base = seq!["run"@, "-d"@, "--pod"@, pod_name@, "--name"@, c.name@];
    assert(argv_view(out@) =~= base + env_flags(c.env_vars@.take(0)));
    let ne = c.env_vars.len();
    let mut k: usize = 0;
    while k < ne
        invariant
            ne == c.env_vars@.len(),
            0 <= k <= ne,
            argv_view(out@) == base + env_flags(c.env_vars@.take(k as int)),
        decreases ne - k,
    {
        let ghost before = argv_view(out@);
        let pair = c.env_vars[k].name.clone().concat("=").concat(c.env_vars[k].value.as_str());
        out.push(String::from_str("-e"));
        out.push(pair);
        proof {
            let ev = c.env_vars@;
            assert(ev.take(k + 1).drop_last() =~= ev.take(k as int));
            assert(ev.take(k + 1).last() == ev[k as int]);
            assert(argv_view(out@) =~= before + seq![
                "-e"@,
                ev[k as int].name@ + "="@ + ev[k as int].value@,
            ]);
            assert(base + env_flags(ev.take(k as int)) + seq![
                "-e"@,
                ev[k as int].name@ + "="@ + ev[k as int].value@,
            ] =~= base + env_flags(ev.take(k + 1)));
        }
        k = k + 1;
    }
    assert(c.env_vars@.take(ne as int) =~= c.env_vars@);
    let ghost base2 = base + env_flags(c.env_vars@);
    assert(argv_view(out@) =~= base2 + mount_flags(data_path@, c.mounts@.take(0)));
    let nm = c.mounts.len();
    let mut k: usize = 0;
    while k < nm
        invariant
            nm == c.mounts@.len(),
            0 <= k <= nm,
            argv_view(out@) == base2 + mount_flags(data_path@, c.mounts@.take(k as int)),
        decreases nm - k,
    {
        let ghost before = argv_view(out@);
        let arg = mount_arg(data_path, c.mounts[k].as_str());
        out.push(String::from_str("-v"));
        out.push(arg);
        proof {
            let mv = c.mounts@;
            assert(mv.take(k + 1).drop_last() =~= mv.take(k as int));
            assert(mv.take(k + 1).last() == mv[k as int]);
            assert(argv_view(out@) =~= before + seq![
                "-v"@,
                mount_arg_spec(data_path@, mv[k as int]@),
            ]);
            assert(base2 + mount_flags(data_path@, mv.take(k as int)) + seq![
                "-v"@,
                mount_arg_spec(data_path@, mv[k as int]@),
            ] =~= base2 + mount_flags(data_path@, mv.take(k + 1)));
        }
        k = k + 1;
    }
    assert(c.mounts@.take(nm as int) =~= c.mounts@);
    out.push(c.image.clone());
    proof {
        assert(argv_view(out@) =~= (base2 + mount_flags(data_path@, c.mounts@)).push(c.image@));
        assert((base2 + mount_flags(data_path@, c.mounts@)).push(c.image@) =~= container_run_argv(
            pod_name@,
            *c,
            data_path@,
        ));
    }
    out
}

/// The space-joined rendering of an argument vector.
pub open spec fn joined(parts: Seq<Seq<char>>) -> Seq<char>
    decreases parts.len(),
{
    if parts.len() == 0 {
        Seq::empty()
    } else if parts.len() == 1 {
        parts[0]
    } else {
        joined(parts.drop_last()) + " "@ + parts.last()
    }
}

/// Joins an argument vector with single spaces.
pub fn join_args(parts: &Vec<String>) -> (r: String)
    ensures
        r@ == joined(argv_view(parts@)),
{
    let mut out = String::new();
    let n = parts.len();
    let mut i: usize = 0;
    assert(out@ =~= joined(argv_view(parts@).take(0)));
    while i < n
        invariant
            n == parts@.len(),
            0 <= i <= n,
            out@ == joined(argv_view(parts@).take(i as int)),
        decreases n - i,
    {
        if i > 0 {
            out.append(" ");
        }
        out.append(parts[i].as_str());
        proof {
            let pv = argv_view(parts@);
            assert(pv.take(i + 1).drop_last() =~= pv.take(i as int));
            assert(pv.take(i + 1).last() == parts@[i as int]@);
            if i == 0 {
                assert(out@ =~= joined(pv.take(1)));
            } else {
                assert(out@ =~= joined(pv.take(i as int)) + " "@ + parts@[i as int]@);
            }
        }
        i = i + 1;
    }
    assert(argv_view(parts@).take(n as int) =~= argv_view(parts@));
    out
}

/// Renders the pod-creation command line, with the runtime binary first.
pub fn generate_pod_command(pod: &Pod) -> (r: String)
    ensures
        exists|a: Seq<Seq<char>>|
            #![trigger joined(seq!["podman"@] + a)]
            is_pod_create_argv(a, *pod) && r@ == joined(seq!["podman"@] + a),
{
    let args = pod_create_args(pod);
    let mut full: Vec<String> = Vec::new();
    full.push(String::from_str("podman"));
    let n = args.len();
    let mut k: usize = 0;
    while k < n
        invariant
            n == args@.len(),
            0 <= k <= n,
            argv_view(full@) == seq!["podman"@] + argv_view(args@).take(k as int),
        decreases n - k,
    {
        let ghost before = argv_view(full@);
        full.push(args[k].clone());
        proof {
            assert(argv_view(full@) =~= before.push(args@[k as int]@));
            assert(argv_view(args@).take(k + 1) =~= argv_view(args@).take(k as int).push(
                args@[k as int]@,
            ));
            assert(before.push(args@[k as int]@) =~= seq!["podman"@] + argv_view(args@).take(
                k + 1,
            ));
        }
        k = k + 1;
    }
    assert(argv_view(args@).take(n as int) =~= argv_view(args@));
    let r = join_args(&full);
    proof {
        let a = argv_view(args@);
        assert(is_pod_create_argv(a, *pod));
        assert(r@ == joined(seq!["podman"@] + a));
    }
    r
}

/// Renders the container-creation command line, with the runtime binary
/// first.
pub fn generate_container_command(pod_name: &str, container: &Container, data_path: &str) -> (r:
    String)
    ensures
        r@ == joined(seq!["podman"@] + container_run_argv(pod_name@, *container, data_path@)),
{
    let args = container_run_args(pod_name, container, data_path);
    let mut full: Vec<String> = Vec::new();
    full.push(String::from_str("podman"));
    let n = args.len();
    let mut k: usize = 0;
    while k < n
        invariant
            n == args@.len(),
            0 <= k <= n,
            argv_view(full@) == seq!["podman"@] + argv_view(args@).take(k as int),
        decreases n - k,
    {
        let ghost before = argv_view(full@);
        full.push(args[k].clone());
        proof {
            assert(argv_view(full@) =~= before.push(args@[k as int]@));
            assert(argv_view(args@).take(k + 1) =~= argv_view(args@).take(k as int).push(
                args@[k as int]@,
            ));
            assert(before.push(args@[k as int]@) =~= seq!["podman"@] + argv_view(args@).take(
                k + 1,
            ));
        }
        k = k + 1;
    }
    assert(argv_view(args@).take(n as int) =~= argv_view(args@));
    join_args(&full)
}

/// The arguments that pull an image.
pub open spec fn pull_argv(image: Seq<char>) -> Seq<Seq<char>> {
    seq!["pull"@, image]
}

/// Builds the runtime arguments that pull an image.
pub fn pull_image_args(image: &str) -> (r: Vec<String>)
    ensures
        argv_view(r@) == pull_argv(image@),
{
    let mut out: Vec<String> = Vec::new();
    out.push(String::from_str("pull"));
    out.push(String::from_str(image));
    assert(argv_view(out@) =~= pull_argv(image@));
    out
}

/// The arguments that stop a container.
pub open spec fn stop_container_argv(name: Seq<char>) -> Seq<Seq<char>> {
    seq!["stop"@, name]
}

/// Builds the runtime arguments that stop a container.
pub fn stop_container_args(name: &str) -> (r: Vec<String>)
    ensures
        argv_view(r@) == stop_container_argv(name@),
{
    let mut out: Vec<String> = Vec::new();
    out.push(String::from_str("stop"));
    out.push(String::from_str(name));
    assert(argv_view(out@) =~= stop_container_argv(name@));
    out
}

/// The arguments that remove a container.
pub open spec fn remove_container_argv(name: Seq<char>) -> Seq<Seq<char>> {
    seq!["rm"@, name]
}

/// Builds the runtime arguments that remove a container.
pub fn remove_container_args(name: &str) -> (r: Vec<String>)
    ensures
        argv_view(r@) == remove_container_argv(name@),
{
    let mut out: Vec<String> = Vec::new();
    out.push(String::from_str("rm"));
    out.push(String::from_str(name));
    assert(argv_view(out@) =~= remove_container_argv(name@));
    out
}

/// The arguments that start a pod.
pub open spec fn pod_start_argv(name: Seq<char>) -> Seq<Seq<char>> {
    seq!["pod"@, "start"@, name]
}

/// Builds the runtime arguments that start a pod.
pub fn pod_start_args(name: &str) -> (r: Vec<String>)
    ensures
        argv_view(r@) == pod_start_argv(name@),
{
    let mut out: Vec<String> = Vec::new();
    out.push(String::from_str("pod"));
    out.push(String::from_str("start"));
    out.push(String::from_str(name));
    assert(argv_view(out@) =~= pod_start_argv(name@));
    out
}

/// The arguments that stop a pod.
pub open spec fn pod_stop_argv(name: Seq<char>) -> Seq<Seq<char>> {
    seq!["pod"@, "stop"@, name]
}

/// Builds the runtime arguments that stop a pod.
pub fn pod_stop_args(name: &str) -> (r: Vec<String>)
    ensures
        argv_view(r@) == pod_stop_argv(name@),
{
    let mut out: Vec<String> = Vec::new();
    out.push(String::from_str("pod"));
    out.push(String::from_str("stop"));
    out.push(String::from_str(name));
    assert(argv_view(out@) =~= pod_stop_argv(name@));
    out
}

/// The arguments that ask whether a pod exists.
pub open spec fn pod_exists_argv(name: Seq<char>) -> Seq<Seq<char>> {
    seq!["pod"@, "exists"@, name]
}

/// Builds the runtime arguments that test a pod's existence.
pub fn pod_exists_args(name: &str) -> (r: Vec<String>)
    ensures
        argv_view(r@) == pod_exists_argv(name@),
{
    let mut out: Vec<String> = Vec::new();
    out.push(String::from_str("pod"));
    out.push(String::from_str("exists"));
    out.push(String::from_str(name));
    assert(argv_view(out@) =~= pod_exists_argv(name@));
    out
}

/// The arguments that ask whether a container exists.
pub open spec fn container_exists_argv(name: Seq<char>) -> Seq<Seq<char>> {
    seq!["container"@, "exists"@, name]
}

/// Builds the runtime arguments that test a container's existence.
pub fn container_exists_args(name: &str) -> (r: Vec<String>)
    ensures
        argv_view(r@) == container_exists_argv(name@),
{
    let mut out: Vec<String> = Vec::new();
    out.push(String::from_str("container"));
    out.push(String::from_str("exists"));
    out.push(String::from_str(name));
    assert(argv_view(out@) =~= container_exists_argv(name@));
    out
}

/// The arguments that inspect a container's current image.
pub open spec fn inspect_image_argv(name: Seq<char>) -> Seq<Seq<char>> {
    seq!["inspect"@, name, "--format"@, "{{.Image}}"@]
}

/// Builds the runtime arguments that report a container's current image.
pub fn inspect_image_args(name: &str) -> (r: Vec<String>)
    ensures
        argv_view(r@) == inspect_image_argv(name@),
{
    let mut out: Vec<String> = Vec::new();
    out.push(String::from_str("inspect"));
    out.push(String::from_str(name));
    out.push(String::from_str("--format"));
    out.push(String::from_str("{{.Image}}"));
    assert(argv_view(out@) =~= inspect_image_argv(name@));
    out
}

/// The arguments that query the current registry login.
pub open spec fn login_check_argv(registry: Seq<char>) -> Seq<Seq<char>> {
    seq!["login"@, "--get-login"@, registry]
}

/// Builds the runtime arguments that query login status for a registry.
pub fn login_check_args(registry: &str) -> (r: Vec<String>)
    ensures
        argv_view(r@) == login_check_argv(registry@),
{
    let mut out: Vec<String> = Vec::new();
    out.push(String::from_str("login"));
    out.push(String::from_str("--get-login"));
    out.push(String::from_str(registry));
    assert(argv_view(out@) =~= login_check_argv(registry@));
    out
}

/// The arguments that log into a registry.
pub open spec fn login_argv(registry: Seq<char>, user: Seq<char>, pass: Seq<char>) -> Seq<
    Seq<char>,
> {
    seq!["login"@, registry, "-u"@, user, "-p"@, pass]
}

/// Builds the runtime arguments that log into a registry.
pub fn login_args(registry: &str, user: &str, pass: &str) -> (r: Vec<String>)
    ensures
        argv_view(r@) == login_argv(registry@, user@, pass@),
{
    let mut out: Vec<String> = Vec::new();
    out.push(String::from_str("login"));
    out.push(String::from_str(registry));
    out.push(String::from_str("-u"));
    out.push(String::from_str(user));
    out.push(String::from_str("-p"));
    out.push(String::from_str(pass));
    assert(argv_view(out@) =~= login_argv(registry@, user@, pass@));
    out
}

} // verus!
