//! The reconciler: compares desired state to observed state and plans the
//! runtime calls that converge the two.
//!
//! Observed state — whether a pod or container exists, which image a
//! container runs — is queried live by the driver and handed in as plain
//! values, so every decision here is a total function of desired state and
//! observation.

use vstd::prelude::*;
use vstd::string::*;
use crate::commands::{
    argv_view, contains_string, container_run_args, container_run_argv, is_pod_create_argv, pod_create_args,
    pod_start_argv, pod_start_args, pod_stop_argv, pod_stop_args, pull_argv, pull_image_args,
    remove_container_argv, remove_container_args, stop_container_argv, stop_container_args,
};
use crate::config::{Config, Container, Pod, container_named_at, no_container_named_before, pod_named_at, find_container, find_pod};
use crate::errors::{DeployError, TargetKind};
use crate::text::str_eq;

verus! {

/// The abstract form of a sequence of runtime argument vectors.
pub open spec fn plans_view(cmds: Seq<Vec<String>>) -> Seq<Seq<Seq<char>>> {
    cmds.map_values(|c: Vec<String>| argv_view(c@))
}

/// The upgrade decision. A container absent from the runtime needs no
/// upgrade; an existing container needs one exactly when its observed image
/// differs from the configured one, and when the observed image cannot be
/// determined at all the decision fails safe toward convergence.
pub open spec fn upgrade_needed(
    exists: bool,
    current: Option<Seq<char>>,
    configured: Seq<char>,
) -> bool {
    exists && match current {
        Some(img) => img != configured,
        None => true,
    }
}

/// Decides whether a container needs an upgrade, from its observed
/// existence, its observed image, and its configured image.
pub fn needs_upgrade(exists: bool, current_image: &Option<String>, configured_image: &str) -> (r:
    bool)
    ensures
        r == upgrade_needed(
            exists,
            match *current_image {
                Some(img) => Some(img@),
                None => None,
            },
            configured_image@,
        ),
{
    if !exists {
        return false;
    }
    match current_image {
        Some(img) => !str_eq(img.as_str(), configured_image),
        None => true,
    }
}

/// A container not present at the runtime never needs an upgrade: absence
/// is not drift.
pub proof fn lemma_absent_never_upgrades(current: Option<Seq<char>>, configured: Seq<char>)
    ensures
        !upgrade_needed(false, current, configured),
{
}

/// An existing container needs an upgrade exactly when its observed image
/// differs from the configured one.
pub proof fn lemma_upgrade_iff_drift(observed: Seq<char>, configured: Seq<char>)
    ensures
        upgrade_needed(true, Some(observed), configured) == (observed != configured),
{
}

/// When a container exists but its image cannot be determined, the decision
/// fails safe: an upgrade is performed.
pub proof fn lemma_unknown_image_upgrades(configured: Seq<char>)
    ensures
        upgrade_needed(true, None, configured),
{
}

/// The strictly ordered steps that upgrade one drifted container: pull the
/// new image, stop the old container, remove it, recreate it from the new
/// definition.
pub open spec fn upgrade_plan_spec(pod_name: Seq<char>, c: Container, data: Seq<char>) -> Seq<
    Seq<Seq<char>>,
> {
    seq![
        pull_argv(c.image@),
        stop_container_argv(c.name@),
        remove_container_argv(c.name@),
        container_run_argv(pod_name, c, data),
    ]
}

/// Builds the upgrade steps for one container, in their required order.
pub fn upgrade_plan(pod_name: &str, c: &Container, data_path: &str) -> (r: Vec<Vec<String>>)
    ensures
        plans_view(r@) == upgrade_plan_spec(pod_name@, *c, data_path@),
{
    let mut out: Vec<Vec<String>> = Vec::new();
    out.push(pull_image_args(c.image.as_str()));
    out.push(stop_container_args(c.name.as_str()));
    out.push(remove_container_args(c.name.as_str()));
    out.push(container_run_args(pod_name, c, data_path));
    assert(plans_view(out@) =~= upgrade_plan_spec(pod_name@, *c, data_path@));
    out
}

/// A plan being carried out step by step. Steps are issued strictly in
/// order, and after any failed step no further step is issued.
pub struct PlanRun {
    pub steps: Vec<Vec<String>>,
    pub completed: usize,
    pub failed: bool,
}

impl PlanRun {
    /// The cursor never runs past the plan.
    pub open spec fn wf(self) -> bool {
        self.completed <= self.steps@.len()
    }

    /// Which step is issued next: the first unexecuted one, or none once
    /// the plan is exhausted or a step has failed.
    pub open spec fn next_spec(self) -> Option<int> {
        if !self.failed && self.completed < self.steps@.len() {
            Some(self.completed as int)
        } else {
            None
        }
    }

    /// Starts a run at the first step.
    pub fn new(steps: Vec<Vec<String>>) -> (r: Self)
        ensures
            r.wf(),
            r.steps == steps,
            r.completed == 0,
            !r.failed,
    {
        PlanRun { steps, completed: 0, failed: false }
    }

    /// The index of the step to issue next, if any.
    pub fn next_step(&self) -> (r: Option<usize>)
        ensures
            match r {
                Some(i) => self.next_spec() == Some(i as int) && i < self.steps@.len(),
                None => self.next_spec() is None,
            },
    {
        if !self.failed && self.completed < self.steps.len() {
            Some(self.completed)
        } else {
            None
        }
    }

    /// Records the outcome of the step just issued. A failure halts the
    /// run: every later `next_step` yields nothing.
    pub fn record(&mut self, ok: bool)
        requires
            old(self).wf(),
            !old(self).failed,
            old(self).completed < old(self).steps@.len(),
        ensures
            final(self).wf(),
            final(self).steps == old(self).steps,
            final(self).completed == old(self).completed + 1,
            final(self).failed == !ok,
    {
        let n = self.steps.len();
        assert(self.completed < n);
        self.completed = self.completed + 1;
        self.failed = !ok;
    }
}

/// Once a step of a plan has failed, no further step is ever issued: in an
/// upgrade, a failed pull means stop, remove and recreate never run.
pub proof fn lemma_failed_step_halts_plan(run: PlanRun)
    requires
        run.failed,
    ensures
        run.next_spec() is None,
{
}

/// Convergent creation for one pod: an existing pod is left untouched,
/// containers included; an absent pod is created first, then each of its
/// containers, in order.
pub fn pod_creation_plan(pod: &Pod, exists_already: bool, data_path: &str) -> (r: Vec<
    Vec<String>,
>)
    ensures
        exists_already ==> r@.len() == 0,
        !exists_already ==> {
            &&& r@.len() == 1 + pod.containers@.len()
            &&& is_pod_create_argv(argv_view(r@[0]@), *pod)
            &&& forall|t: int|
                0 <= t < pod.containers@.len() ==> argv_view(#[trigger] r@[1 + t]@)
                    == container_run_argv(pod.name@, pod.containers@[t], data_path@)
        },
{
    let mut out: Vec<Vec<String>> = Vec::new();
    if exists_already {
        return out;
    }
    out.push(pod_create_args(pod));
    let n = pod.containers.len();
    let mut t: usize = 0;
    while t < n
        invariant
            n == pod.containers@.len(),
            0 <= t <= n,
            out@.len() == 1 + t,
            is_pod_create_argv(argv_view(out@[0]@), *pod),
            forall|u: int|
                0 <= u < t ==> argv_view(#[trigger] out@[1 + u]@) == container_run_argv(
                    pod.name@,
                    pod.containers@[u],
                    data_path@,
                ),
        decreases n - t,
    {
        out.push(container_run_args(pod.name.as_str(), &pod.containers[t], data_path));
        t = t + 1;
    }
    out
}

/// Every image referenced by any container of the document.
pub open spec fn image_set(config: Config) -> Set<Seq<char>> {
    Set::new(
        |img: Seq<char>|
            exists|a: int, b: int|
                #![trigger config.pods@[a].containers@[b]]
                {
                    &&& 0 <= a < config.pods@.len()
                    &&& 0 <= b < config.pods@[a].containers@.len()
                    &&& config.pods@[a].containers@[b].image@ == img
                },
    )
}

/// The images contributed by pods before `i` and by pod `i`'s containers
/// before `j`.
pub open spec fn image_prefix_set(config: Config, i: int, j: int) -> Set<Seq<char>> {
    Set::new(
        |img: Seq<char>|
            exists|a: int, b: int|
                #![trigger config.pods@[a].containers@[b]]
                {
                    &&& 0 <= a < config.pods@.len()
                    &&& 0 <= b < config.pods@[a].containers@.len()
                    &&& (a < i || (a == i && b < j))
                    &&& config.pods@[a].containers@[b].image@ == img
                },
    )
}

/// Collects every distinct image referenced by the document, each exactly
/// once, for the pull phase of setup.
pub fn images_to_pull(config: &Config) -> (r: Vec<String>)
    ensures
        argv_view(r@).no_duplicates(),
        argv_view(r@).to_set() == image_set(*config),
{
    let mut out: Vec<String> = Vec::new();
    let np = config.pods.len();
    let mut i: usize = 0;
    assert(argv_view(out@).to_set() =~= image_prefix_set(*config, 0, 0));
    while i < np
        invariant
            np == config.pods@.len(),
            0 <= i <= np,
            argv_view(out@).no_duplicates(),
            argv_view(out@).to_set() == image_prefix_set(*config, i as int, 0),
        decreases np - i,
    {
        let nc = config.pods[i].containers.len();
        let mut j: usize = 0;
        while j < nc
            invariant
                np == config.pods@.len(),
                0 <= i < np,
                nc == config.pods@[i as int].containers@.len(),
                0 <= j <= nc,
                argv_view(out@).no_duplicates(),
                argv_view(out@).to_set() == image_prefix_set(*config, i as int, j as int),
            decreases nc - j,
        {
            let img = &config.pods[i].containers[j].image;
            let ghost iv = config.pods@[i as int].containers@[j as int].image@;
            if !contains_string(&out, img.as_str()) {
                let ghost before = argv_view(out@);
                out.push(img.clone());
                proof {
                    assert(argv_view(out@) =~= before.push(iv));
                    assert forall|x: int, y: int|
                        0 <= x < argv_view(out@).len() && 0 <= y < argv_view(out@).len() && x
                            != y implies argv_view(out@)[x] != argv_view(out@)[y] by {
                        if x < before.len() && y < before.len() {
                        } else if x < before.len() {
                            assert(!before.contains(iv));
                            assert(before[x] != iv);
                        } else if y < before.len() {
                            assert(!before.contains(iv));
                            assert(before[y] != iv);
                        }
                    }
                    before.lemma_push_to_set_commute(iv);
                    assert(argv_view(out@).to_set() =~= before.to_set().insert(iv));
                    assert(image_prefix_set(*config, i as int, j + 1) =~= image_prefix_set(
                        *config,
                        i as int,
                        j as int,
                    ).insert(iv));
                }
            } else {
                proof {
                    assert(argv_view(out@).to_set().contains(iv));
                    assert(image_prefix_set(*config, i as int, j as int).contains(iv));
                    assert(image_prefix_set(*config, i as int, j + 1) =~= image_prefix_set(
                        *config,
                        i as int,
                        j as int,
                    ).insert(iv));
                    assert(image_prefix_set(*config, i as int, j as int).insert(iv)
                        =~= image_prefix_set(*config, i as int, j as int));
                }
            }
            j = j + 1;
        }
        proof {
            assert(image_prefix_set(*config, i as int, nc as int) =~= image_prefix_set(
                *config,
                i + 1,
                0,
            ));
        }
        i = i + 1;
    }
    proof {
        assert(image_prefix_set(*config, np as int, 0) =~= image_set(*config));
    }
    out
}

/// The stop commands for a list of containers, in order.
pub open spec fn container_stop_cmds(cs: Seq<Container>) -> Seq<Seq<Seq<char>>>
    decreases cs.len(),
{
    if cs.len() == 0 {
        Seq::empty()
    } else {
        container_stop_cmds(cs.drop_last()) + seq![stop_container_argv(cs.last().name@)]
    }
}

/// The stop commands for every container of every pod, in document order.
pub open spec fn all_container_stop_cmds(ps: Seq<Pod>) -> Seq<Seq<Seq<char>>>
    decreases ps.len(),
{
    if ps.len() == 0 {
        Seq::empty()
    } else {
        all_container_stop_cmds(ps.drop_last()) + container_stop_cmds(ps.last().containers@)
    }
}

/// The stop commands for every pod, in document order.
pub open spec fn pod_stop_cmds(ps: Seq<Pod>) -> Seq<Seq<Seq<char>>>
    decreases ps.len(),
{
    if ps.len() == 0 {
        Seq::empty()
    } else {
        pod_stop_cmds(ps.drop_last()) + seq![pod_stop_argv(ps.last().name@)]
    }
}

/// The start commands for every pod, in document order.
pub open spec fn pod_start_cmds(ps: Seq<Pod>) -> Seq<Seq<Seq<char>>>
    decreases ps.len(),
{
    if ps.len() == 0 {
        Seq::empty()
    } else {
        pod_start_cmds(ps.drop_last()) + seq![pod_start_argv(ps.last().name@)]
    }
}

/// The plan that stops everything: every container first, then every pod.
pub open spec fn stop_all_spec(config: Config) -> Seq<Seq<Seq<char>>> {
    all_container_stop_cmds(config.pods@) + pod_stop_cmds(config.pods@)
}

/// Builds the plan that stops every container, then every pod.
pub fn stop_all_plan(config: &Config) -> (r: Vec<Vec<String>>)
    ensures
        plans_view(r@) == stop_all_spec(*config),
{
    let mut out: Vec<Vec<String>> = Vec::new();
    let np = config.pods.len();
    let mut i: usize = 0;
    assert(plans_view(out@) =~= all_container_stop_cmds(config.pods@.take(0)));
    while i < np
        invariant
            np == config.pods@.len(),
            0 <= i <= np,
            plans_view(out@) == all_container_stop_cmds(config.pods@.take(i as int)),
        decreases np - i,
    {
        let nc = config.pods[i].containers.len();
        let ghost base = plans_view(out@);
        let ghost cs = config.pods@[i as int].containers@;
        let mut j: usize = 0;
        assert(plans_view(out@) =~= base + container_stop_cmds(cs.take(0)));
        while j < nc
            invariant
                np == config.pods@.len(),
                0 <= i < np,
                nc == config.pods@[i as int].containers@.len(),
                cs == config.pods@[i as int].containers@,
                0 <= j <= nc,
                plans_view(out@) == base + container_stop_cmds(cs.take(j as int)),
            decreases nc - j,
        {
            let ghost before = plans_view(out@);
            out.push(stop_container_args(config.pods[i].containers[j].name.as_str()));
            proof {
                assert(cs.take(j + 1).drop_last() =~= cs.take(j as int));
                assert(cs.take(j + 1).last() == cs[j as int]);
                assert(plans_view(out@) =~= before.push(stop_container_argv(cs[j as int].name@)));
                assert(before.push(stop_container_argv(cs[j as int].name@)) =~= base
                    + container_stop_cmds(cs.take(j + 1)));
            }
            j = j + 1;
        }
        proof {
            assert(cs.take(nc as int) =~= cs);
            assert(config.pods@.take(i + 1).drop_last() =~= config.pods@.take(i as int));
            assert(config.pods@.take(i + 1).last() == config.pods@[i as int]);
            assert(base + container_stop_cmds(cs) =~= all_container_stop_cmds(
                config.pods@.take(i + 1),
            ));
        }
        i = i + 1;
    }
    assert(config.pods@.take(np as int) =~= config.pods@);
    let ghost base = plans_view(out@);
    let mut i: usize = 0;
    assert(plans_view(out@) =~= base + pod_stop_cmds(config.pods@.take(0)));
    while i < np
        invariant
            np == config.pods@.len(),
            0 <= i <= np,
            base == all_container_stop_cmds(config.pods@),
            plans_view(out@) == base + pod_stop_cmds(config.pods@.take(i as int)),
        decreases np - i,
    {
        let ghost before = plans_view(out@);
        out.push(pod_stop_args(config.pods[i].name.as_str()));
        proof {
            assert(config.pods@.take(i + 1).drop_last() =~= config.pods@.take(i as int));
            assert(config.pods@.take(i + 1).last() == config.pods@[i as int]);
            assert(plans_view(out@) =~= before.push(pod_stop_argv(config.pods@[i as int].name@)));
            assert(before.push(pod_stop_argv(config.pods@[i as int].name@)) =~= base
                + pod_stop_cmds(config.pods@.take(i + 1)));
        }
        i = i + 1;
    }
    assert(config.pods@.take(np as int) =~= config.pods@);
    out
}

/// The index pairs of every container of the document, in scan order:
/// for each pod in order, each of its containers in order.
pub open spec fn pod_pairs(i: int, n: int) -> Seq<(int, int)>
    decreases n,
{
    if n <= 0 {
        Seq::empty()
    } else {
        pod_pairs(i, n - 1).push((i, n - 1))
    }
}

/// The `(pod, container)` index pairs of a whole document, in scan order.
pub open spec fn all_pairs(pods: Seq<Pod>) -> Seq<(int, int)>
    decreases pods.len(),
{
    if pods.len() == 0 {
        Seq::empty()
    } else {
        all_pairs(pods.drop_last()) + pod_pairs(
            pods.len() - 1,
            pods.last().containers@.len() as int,
        )
    }
}

/// The index pairs of an upgrade-target vector.
pub open spec fn pairs_view(v: Seq<(usize, usize)>) -> Seq<(int, int)> {
    v.map_values(|p: (usize, usize)| (p.0 as int, p.1 as int))
}

/// The upgrade targets of one invocation, as `(pod, container)` index
/// pairs: every container of the document in scan order, or the single
/// first-matching container when a name is given. Selection is pure, so a
/// missing name fails before any runtime call is made.
pub fn upgrade_targets(config: &Config, target: &Option<String>) -> (r: Result<
    Vec<(usize, usize)>,
    DeployError,
>)
    ensures
        match r {
            Ok(v) => match *target {
                Some(name) => v@.len() == 1 && container_named_at(
                    config.pods@,
                    name@,
                    v@[0].0 as int,
                    v@[0].1 as int,
                ),
                None => pairs_view(v@) == all_pairs(config.pods@),
            },
            Err(e) => *target matches Some(name) && (no_container_named_before(
                config.pods@,
                name@,
                config.pods@.len() as int,
                0,
            ) && (e matches DeployError::NotFound { kind, name: n } && (kind
                == TargetKind::Container && n@ == name@))),
        },
{
    match target {
        Some(name) => {
            match find_container(config, name.as_str()) {
                Some(ij) => {
                    let mut v: Vec<(usize, usize)> = Vec::new();
                    v.push(ij);
                    assert(v@ =~= seq![ij]);
                    Ok(v)
                },
                None => Err(
                    DeployError::NotFound { kind: TargetKind::Container, name: name.clone() },
                ),
            }
        },
        None => {
            let mut v: Vec<(usize, usize)> = Vec::new();
            let np = config.pods.len();
            let mut i: usize = 0;
            assert(pairs_view(v@) =~= all_pairs(config.pods@.take(0)));
            while i < np
                invariant
                    np == config.pods@.len(),
                    0 <= i <= np,
                    pairs_view(v@) == all_pairs(config.pods@.take(i as int)),
                decreases np - i,
            {
                let nc = config.pods[i].containers.len();
                let ghost base = pairs_view(v@);
                let mut j: usize = 0;
                assert(pairs_view(v@) =~= base + pod_pairs(i as int, 0));
                while j < nc
                    invariant
                        np == config.pods@.len(),
                        0 <= i < np,
                        nc == config.pods@[i as int].containers@.len(),
                        0 <= j <= nc,
                        base == all_pairs(config.pods@.take(i as int)),
                        pairs_view(v@) == base + pod_pairs(i as int, j as int),
                    decreases nc - j,
                {
                    let ghost before = pairs_view(v@);
                    v.push((i, j));
                    proof {
                        assert(pairs_view(v@) =~= before.push((i as int, j as int)));
                        assert(before.push((i as int, j as int)) =~= base + pod_pairs(
                            i as int,
                            j + 1,
                        ));
                    }
                    j = j + 1;
                }
                proof {
                    assert(config.pods@.take(i + 1).drop_last() =~= config.pods@.take(i as int));
                    assert(config.pods@.take(i + 1).last() == config.pods@[i as int]);
                    assert(base + pod_pairs(i as int, nc as int) =~= all_pairs(
                        config.pods@.take(i + 1),
                    ));
                }
                i = i + 1;
            }
            assert(config.pods@.take(np as int) =~= config.pods@);
            Ok(v)
        },
    }
}

/// A planned mode invocation: the runtime commands to run in order, and
/// whether individual failures are tolerated (warn and continue) or
/// propagated.
#[derive(Debug)]
pub struct ModePlan {
    pub commands: Vec<Vec<String>>,
    pub tolerant: bool,
}

/// Plans the start mode. Without a target every pod is started
/// best-effort, so planning always succeeds; with a target the pod must be
/// present in the document and its failure propagates.
pub fn start_mode_plan(config: &Config, target: &Option<String>) -> (r: Result<
    ModePlan,
    DeployError,
>)
    ensures
        target is None ==> r is Ok,
        match r {
            Ok(plan) => match *target {
                Some(name) => {
                    &&& exists|i: int| pod_named_at(config.pods@, name@, i)
                    &&& plans_view(plan.commands@) =~= seq![pod_start_argv(name@)]
                    &&& !plan.tolerant
                },
                None => {
                    &&& plans_view(plan.commands@) == pod_start_cmds(config.pods@)
                    &&& plan.tolerant
                },
            },
            Err(e) => *target matches Some(name) && ((forall|k: int|
                0 <= k < config.pods@.len() ==> config.pods@[k].name@ != name@) && (e matches
                DeployError::NotFound { kind, name: n } && (kind == TargetKind::Pod && n@
                == name@))),
        },
{
    match target {
        Some(name) => {
            match find_pod(config, name.as_str()) {
                Some(i) => {
                    let mut cmds: Vec<Vec<String>> = Vec::new();
                    cmds.push(pod_start_args(name.as_str()));
                    assert(plans_view(cmds@) =~= seq![pod_start_argv(name@)]);
                    Ok(ModePlan { commands: cmds, tolerant: false })
                },
                None => Err(DeployError::NotFound { kind: TargetKind::Pod, name: name.clone() }),
            }
        },
        None => {
            let mut cmds: Vec<Vec<String>> = Vec::new();
            let np = config.pods.len();
            let mut i: usize = 0;
            assert(plans_view(cmds@) =~= pod_start_cmds(config.pods@.take(0)));
            while i < np
                invariant
                    np == config.pods@.len(),
                    0 <= i <= np,
                    plans_view(cmds@) == pod_start_cmds(config.pods@.take(i as int)),
                decreases np - i,
            {
                let ghost before = plans_view(cmds@);
                cmds.push(pod_start_args(config.pods[i].name.as_str()));
                proof {
                    assert(config.pods@.take(i + 1).drop_last() =~= config.pods@.take(i as int));
                    assert(config.pods@.take(i + 1).last() == config.pods@[i as int]);
                    assert(plans_view(cmds@) =~= before.push(
                        pod_start_argv(config.pods@[i as int].name@),
                    ));
                    assert(before.push(pod_start_argv(config.pods@[i as int].name@)) =~= pod_start_cmds(
                        config.pods@.take(i + 1),
                    ));
                }
                i = i + 1;
            }
            assert(config.pods@.take(np as int) =~= config.pods@);
            Ok(ModePlan { commands: cmds, tolerant: true })
        },
    }
}

/// Plans the stop mode. Without a target every container and then every
/// pod is stopped best-effort; with a target the pod must be present in
/// the document and its failure propagates.
pub fn stop_mode_plan(config: &Config, target: &Option<String>) -> (r: Result<
    ModePlan,
    DeployError,
>)
    ensures
        target is None ==> r is Ok,
        match r {
            Ok(plan) => match *target {
                Some(name) => {
                    &&& exists|i: int| pod_named_at(config.pods@, name@, i)
                    &&& plans_view(plan.commands@) =~= seq![pod_stop_argv(name@)]
                    &&& !plan.tolerant
                },
                None => {
                    &&& plans_view(plan.commands@) == stop_all_spec(*config)
                    &&& plan.tolerant
                },
            },
            Err(e) => *target matches Some(name) && ((forall|k: int|
                0 <= k < config.pods@.len() ==> config.pods@[k].name@ != name@) && (e matches
                DeployError::NotFound { kind, name: n } && (kind == TargetKind::Pod && n@
                == name@))),
        },
{
    match target {
        Some(name) => {
            match find_pod(config, name.as_str()) {
                Some(i) => {
                    let mut cmds: Vec<Vec<String>> = Vec::new();
                    cmds.push(pod_stop_args(name.as_str()));
                    assert(plans_view(cmds@) =~= seq![pod_stop_argv(name@)]);
                    Ok(ModePlan { commands: cmds, tolerant: false })
                },
                None => Err(DeployError::NotFound { kind: TargetKind::Pod, name: name.clone() }),
            }
        },
        None => {
            let cmds = stop_all_plan(config);
            Ok(ModePlan { commands: cmds, tolerant: true })
        },
    }
}

/// A pending registry login: endpoint and credentials.
pub struct LoginRequest {
    pub registry: String,
    pub user: String,
    pub pass: String,
}

/// The registry whose login status must be queried: present exactly when a
/// private registry and both credentials are configured.
pub fn registry_check_request(config: &Config) -> (r: Option<String>)
    ensures
        match r {
            Some(reg) => {
                &&& config.private_registry matches Some(c) && c@ == reg@
                &&& config.registry_username is Some
                &&& config.registry_password is Some
            },
            None => {
                ||| config.private_registry is None
                ||| config.registry_username is None
                ||| config.registry_password is None
            },
        },
{
    match (&config.private_registry, &config.registry_username, &config.registry_password) {
        (Some(reg), Some(_), Some(_)) => Some(reg.clone()),
        _ => None,
    }
}

/// Whether to log in, and with what: only when a private registry and both
/// credentials are configured and the live status query found no login.
pub fn registry_login_action(config: &Config, already_logged_in: bool) -> (r: Option<
    LoginRequest,
>)
    ensures
        match r {
            Some(req) => {
                &&& !already_logged_in
                &&& config.private_registry matches Some(c) && c@ == req.registry@
                &&& config.registry_username matches Some(u) && u@ == req.user@
                &&& config.registry_password matches Some(p) && p@ == req.pass@
            },
            None => {
                ||| already_logged_in
                ||| config.private_registry is None
                ||| config.registry_username is None
                ||| config.registry_password is None
            },
        },
{
    if already_logged_in {
        return None;
    }
    match (&config.private_registry, &config.registry_username, &config.registry_password) {
        (Some(reg), Some(user), Some(pass)) => Some(
            LoginRequest { registry: reg.clone(), user: user.clone(), pass: pass.clone() },
        ),
        _ => None,
    }
}

} // verus!
