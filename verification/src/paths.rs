//! Planning and modeling of host-path materialization.
//!
//! Before any container is created, every mount's resolved host path must
//! exist: a file mount gets its parent directory created and an empty file
//! touched only if absent; a directory mount gets the full path created if
//! absent. The plan for a whole document is computed here; a driver carries
//! it out with ensure-style filesystem operations. A small filesystem model
//! below proves the plan idempotent: applying it a second time changes
//! nothing, and in particular never truncates an existing file.

use vstd::prelude::*;
use vstd::string::*;
use crate::config::{Config, Container, Pod};
use crate::mounts::{is_file_local, is_file_path, mount_host_spec, mount_local, mount_local_spec};
use crate::text::has_char;

verus! {

/// One ensure-style filesystem action.
///
/// `EnsureDir(p)` creates directory `p` (and its ancestors) if absent.
/// `EnsureFile(p)` creates `p`'s parent directory if absent, then creates an
/// empty file at `p` only if no file is there; an existing file is kept.
#[derive(Debug, Clone, PartialEq, Eq)]
pub enum PathAction {
    EnsureDir(String),
    EnsureFile(String),
}

/// The abstract form of a `PathAction`: the same action over the path's
/// character sequence.
pub enum PathOp {
    Dir(Seq<char>),
    File(Seq<char>),
}

impl View for PathAction {
    type V = PathOp;

    open spec fn view(&self) -> PathOp {
        match self {
            PathAction::EnsureDir(p) => PathOp::Dir(p@),
            PathAction::EnsureFile(p) => PathOp::File(p@),
        }
    }
}

/// The abstract plan of a sequence of actions.
pub open spec fn ops_of(actions: Seq<PathAction>) -> Seq<PathOp> {
    actions.map_values(|a: PathAction| a@)
}

/// The actions one mount spec contributes: its resolved host path as a file
/// or a directory, or nothing for a spec without a colon.
pub open spec fn mount_ops(data: Seq<char>, m: Seq<char>) -> Seq<PathOp> {
    if has_char(m, ':') {
        if is_file_local(mount_local_spec(m)) {
            seq![PathOp::File(mount_host_spec(data, m))]
        } else {
            seq![PathOp::Dir(mount_host_spec(data, m))]
        }
    } else {
        Seq::empty()
    }
}

/// The actions of a list of mount specs, in order.
pub open spec fn mounts_ops(data: Seq<char>, mounts: Seq<String>) -> Seq<PathOp>
    decreases mounts.len(),
{
    if mounts.len() == 0 {
        Seq::empty()
    } else {
        mounts_ops(data, mounts.drop_last()) + mount_ops(data, mounts.last()@)
    }
}

/// The actions of one container: those of its mounts, in order.
pub open spec fn container_ops(data: Seq<char>, c: Container) -> Seq<PathOp> {
    mounts_ops(data, c.mounts@)
}

/// The actions of a list of containers, in order.
pub open spec fn containers_ops(data: Seq<char>, cs: Seq<Container>) -> Seq<PathOp>
    decreases cs.len(),
{
    if cs.len() == 0 {
        Seq::empty()
    } else {
        containers_ops(data, cs.drop_last()) + container_ops(data, cs.last())
    }
}

/// The actions of a list of pods, in order.
pub open spec fn pods_ops(data: Seq<char>, ps: Seq<Pod>) -> Seq<PathOp>
    decreases ps.len(),
{
    if ps.len() == 0 {
        Seq::empty()
    } else {
        pods_ops(data, ps.drop_last()) + containers_ops(data, ps.last().containers@)
    }
}

/// The whole materialization plan of a document: the data root first, then
/// every mount of every container of every pod, in document order.
pub open spec fn config_ops(config: Config) -> Seq<PathOp> {
    seq![PathOp::Dir(config.data_path@)] + pods_ops(config.data_path@, config.pods@)
}

/// The actions for one mount spec.
fn mount_actions(data_path: &str, mount: &str) -> (r: Vec<PathAction>)
    ensures
        ops_of(r@) == mount_ops(data_path@, mount@),
{
    let mut out: Vec<PathAction> = Vec::new();
    match mount_local(mount) {
        Some(local) => {
            let host = String::from_str(data_path).concat(local);
            if is_file_path(local) {
                out.push(PathAction::EnsureFile(host));
            } else {
                out.push(PathAction::EnsureDir(host));
            }
            assert(ops_of(out@) =~= mount_ops(data_path@, mount@));
        },
        None => {
            assert(ops_of(out@) =~= mount_ops(data_path@, mount@));
        },
    }
    out
}

/// The actions for one container's mounts, in order.
fn container_actions(data_path: &str, c: &Container) -> (r: Vec<PathAction>)
    ensures
        ops_of(r@) == container_ops(data_path@, *c),
{
    let mut out: Vec<PathAction> = Vec::new();
    let n = c.mounts.len();
    let mut k: usize = 0;
    while k < n
        invariant
            n == c.mounts@.len(),
            0 <= k <= n,
            ops_of(out@) == mounts_ops(data_path@, c.mounts@.take(k as int)),
        decreases n - k,
    {
        let mut piece = mount_actions(data_path, c.mounts[k].as_str());
        proof {
            assert(c.mounts@.take(k + 1).drop_last() =~= c.mounts@.take(k as int));
            assert(c.mounts@.take(k + 1).last() == c.mounts@[k as int]);
            assert(ops_of(out@ + piece@) =~= ops_of(out@) + ops_of(piece@));
        }
        out.append(&mut piece);
        k = k + 1;
    }
    assert(c.mounts@.take(n as int) =~= c.mounts@);
    out
}

/// The actions for one pod: each of its containers' mounts, in order.
fn pod_actions(data_path: &str, p: &Pod) -> (r: Vec<PathAction>)
    ensures
        ops_of(r@) == containers_ops(data_path@, p.containers@),
{
    let mut out: Vec<PathAction> = Vec::new();
    let n = p.containers.len();
    let mut j: usize = 0;
    while j < n
        invariant
            n == p.containers@.len(),
            0 <= j <= n,
            ops_of(out@) == containers_ops(data_path@, p.containers@.take(j as int)),
        decreases n - j,
    {
        let mut piece = container_actions(data_path, &p.containers[j]);
        proof {
            assert(p.containers@.take(j + 1).drop_last() =~= p.containers@.take(j as int));
            assert(p.containers@.take(j + 1).last() == p.containers@[j as int]);
            assert(ops_of(out@ + piece@) =~= ops_of(out@) + ops_of(piece@));
        }
        out.append(&mut piece);
        j = j + 1;
    }
    assert(p.containers@.take(n as int) =~= p.containers@);
    out
}

/// Computes the full materialization plan for a document: the data root,
/// then every mount's resolved host path, in document order.
pub fn materialize_plan(config: &Config) -> (r: Vec<PathAction>)
    ensures
        ops_of(r@) == config_ops(*config),
{
    let mut out: Vec<PathAction> = Vec::new();
    out.push(PathAction::EnsureDir(config.data_path.clone()));
    let n = config.pods.len();
    let mut i: usize = 0;
    while i < n
        invariant
            n == config.pods@.len(),
            0 <= i <= n,
            ops_of(out@) == seq![PathOp::Dir(config.data_path@)] + pods_ops(
                config.data_path@,
                config.pods@.take(i as int),
            ),
        decreases n - i,
    {
        let mut piece = pod_actions(config.data_path.as_str(), &config.pods[i]);
        proof {
            assert(config.pods@.take(i + 1).drop_last() =~= config.pods@.take(i as int));
            assert(config.pods@.take(i + 1).last() == config.pods@[i as int]);
            assert(ops_of(out@ + piece@) =~= ops_of(out@) + ops_of(piece@));
            assert((seq![PathOp::Dir(config.data_path@)] + pods_ops(
                config.data_path@,
                config.pods@.take(i as int),
            )) + containers_ops(config.data_path@, config.pods@[i as int].containers@)
                =~= seq![PathOp::Dir(config.data_path@)] + pods_ops(
                config.data_path@,
                config.pods@.take(i + 1),
            ));
        }
        out.append(&mut piece);
        i = i + 1;
    }
    assert(config.pods@.take(n as int) =~= config.pods@);
    out
}

/// The modeled filesystem: the set of directories ensured so far and, for
/// each file path, its contents.
#[verifier::ext_equal]
pub struct FsState {
    pub dirs: Set<Seq<char>>,
    pub files: Map<Seq<char>, Seq<u8>>,
}

/// The parent directory of a path: everything before the last separator, or
/// the empty path when there is none.
pub open spec fn parent_of(p: Seq<char>) -> Seq<char> {
    match p.index_of_last('/') {
        Some(i) => p.subrange(0, i),
        None => Seq::empty(),
    }
}

/// The effect of one action on the modeled filesystem. A directory is
/// ensured by adding it to the directory set; a file by ensuring its parent
/// directory and creating an empty file only when the path holds none.
pub open spec fn apply_op(fs: FsState, op: PathOp) -> FsState {
    match op {
        PathOp::Dir(p) => FsState { dirs: fs.dirs.insert(p), files: fs.files },
        PathOp::File(p) => FsState {
            dirs: fs.dirs.insert(parent_of(p)),
            files: if fs.files.dom().contains(p) {
                fs.files
            } else {
                fs.files.insert(p, Seq::empty())
            },
        },
    }
}

/// The effect of a whole plan, applied in order.
pub open spec fn apply_ops(fs: FsState, ops: Seq<PathOp>) -> FsState
    decreases ops.len(),
{
    if ops.len() == 0 {
        fs
    } else {
        apply_ops(apply_op(fs, ops[0]), ops.skip(1))
    }
}

/// An action is satisfied in a state when what it ensures already exists.
pub open spec fn op_done(fs: FsState, op: PathOp) -> bool {
    match op {
        PathOp::Dir(p) => fs.dirs.contains(p),
        PathOp::File(p) => fs.dirs.contains(parent_of(p)) && fs.files.dom().contains(p),
    }
}

/// `b` holds everything `a` holds, with every file's contents kept.
pub open spec fn fs_extends(a: FsState, b: FsState) -> bool {
    &&& a.dirs.subset_of(b.dirs)
    &&& a.files.dom().subset_of(b.files.dom())
    &&& forall|p: Seq<char>| a.files.dom().contains(p) ==> a.files[p] == b.files[p]
}

/// One action only adds: the state extends, and afterwards the action is
/// satisfied.
pub proof fn lemma_apply_op_extends(fs: FsState, op: PathOp)
    ensures
        fs_extends(fs, apply_op(fs, op)),
        op_done(apply_op(fs, op), op),
{
}

/// A plan only adds to the state and never changes an existing file.
pub proof fn lemma_apply_ops_extends(fs: FsState, ops: Seq<PathOp>)
    ensures
        fs_extends(fs, apply_ops(fs, ops)),
    decreases ops.len(),
{
    if ops.len() > 0 {
        lemma_apply_op_extends(fs, ops[0]);
        lemma_apply_ops_extends(apply_op(fs, ops[0]), ops.skip(1));
    }
}

/// Once satisfied, an action stays satisfied in any extension of the state.
pub proof fn lemma_op_done_monotone(a: FsState, b: FsState, op: PathOp)
    requires
        op_done(a, op),
        fs_extends(a, b),
    ensures
        op_done(b, op),
{
}

/// After a plan runs, every one of its actions is satisfied.
pub proof fn lemma_apply_ops_all_done(fs: FsState, ops: Seq<PathOp>)
    ensures
        forall|i: int| 0 <= i < ops.len() ==> op_done(apply_ops(fs, ops), #[trigger] ops[i]),
    decreases ops.len(),
{
    if ops.len() > 0 {
        let fs1 = apply_op(fs, ops[0]);
        lemma_apply_op_extends(fs, ops[0]);
        lemma_apply_ops_extends(fs1, ops.skip(1));
        lemma_op_done_monotone(fs1, apply_ops(fs1, ops.skip(1)), ops[0]);
        lemma_apply_ops_all_done(fs1, ops.skip(1));
        assert forall|i: int| 0 <= i < ops.len() implies op_done(
            apply_ops(fs, ops),
            #[trigger] ops[i],
        ) by {
            if i > 0 {
                assert(ops[i] == ops.skip(1)[i - 1]);
            }
        }
    }
}

/// A satisfied action changes nothing.
pub proof fn lemma_apply_op_noop(fs: FsState, op: PathOp)
    requires
        op_done(fs, op),
    ensures
        apply_op(fs, op) == fs,
{
    match op {
        PathOp::Dir(p) => {
            assert(fs.dirs.insert(p) =~= fs.dirs);
            assert(apply_op(fs, op) =~= fs);
        },
        PathOp::File(p) => {
            assert(fs.dirs.insert(parent_of(p)) =~= fs.dirs);
            assert(apply_op(fs, op) =~= fs);
        },
    }
}

/// A plan all of whose actions are satisfied changes nothing.
pub proof fn lemma_apply_ops_noop(fs: FsState, ops: Seq<PathOp>)
    requires
        forall|i: int| 0 <= i < ops.len() ==> op_done(fs, #[trigger] ops[i]),
    ensures
        apply_ops(fs, ops) == fs,
    decreases ops.len(),
{
    if ops.len() > 0 {
        lemma_apply_op_noop(fs, ops[0]);
        assert(forall|i: int| 0 <= i < ops.skip(1).len() ==> ops.skip(1)[i] == ops[i + 1]);
        lemma_apply_ops_noop(fs, ops.skip(1));
    }
}

/// Materialization is idempotent: running a plan a second time reproduces
/// the state of the first run exactly — no new paths, and no file truncated.
pub proof fn lemma_materialization_idempotent(fs: FsState, ops: Seq<PathOp>)
    ensures
        apply_ops(apply_ops(fs, ops), ops) == apply_ops(fs, ops),
{
    lemma_apply_ops_all_done(fs, ops);
    lemma_apply_ops_noop(apply_ops(fs, ops), ops);
}

/// The idempotence law for a whole document: materializing the same
/// configuration twice yields the filesystem state of one run.
pub proof fn lemma_config_plan_idempotent(fs: FsState, config: Config)
    ensures
        apply_ops(apply_ops(fs, config_ops(config)), config_ops(config)) == apply_ops(
            fs,
            config_ops(config),
        ),
{
    lemma_materialization_idempotent(fs, config_ops(config));
}

} // verus!
