//! Mount specs: `"hostRelative:containerPath"` strings.
//!
//! The host side of a mount resolves to `dataRoot + hostRelative` by plain
//! concatenation, and the host-relative segment is classified as a file or a
//! directory by its extension. The classification drives path
//! materialization only; the mount argument handed to the runtime always
//! carries the resolved host path verbatim.

use vstd::prelude::*;
use vstd::string::*;
use crate::text::{find_first, first_at, first_pos, has_char, lemma_first_pos, seq_ends_with, str_ends_with};

verus! {

/// A host-relative mount segment names a file when it contains a dot and
/// ends in one of the recognized extensions; otherwise it is a directory.
pub open spec fn is_file_local(p: Seq<char>) -> bool {
    has_char(p, '.') && (seq_ends_with(p, ".conf"@) || seq_ends_with(p, ".log"@) || seq_ends_with(
        p,
        ".txt"@,
    ) || seq_ends_with(p, ".json"@) || seq_ends_with(p, ".yaml"@) || seq_ends_with(p, ".yml"@))
}

/// Decides `is_file_local` for a host-relative mount segment.
pub fn is_file_path(local: &str) -> (r: bool)
    ensures
        r == is_file_local(local@),
{
    let has_dot = match find_first(local, '.') {
        Some(_) => true,
        None => false,
    };
    has_dot && (str_ends_with(local, ".conf") || str_ends_with(local, ".log") || str_ends_with(
        local,
        ".txt",
    ) || str_ends_with(local, ".json") || str_ends_with(local, ".yaml") || str_ends_with(
        local,
        ".yml",
    ))
}

/// The host-relative segment of a mount spec: everything before the first
/// colon. Meaningful only when the spec contains a colon.
pub open spec fn mount_local_spec(m: Seq<char>) -> Seq<char> {
    m.subrange(0, first_pos(m, ':'))
}

/// The resolved host path of a mount: the data root prefixed onto the
/// host-relative segment.
pub open spec fn mount_host_spec(data: Seq<char>, m: Seq<char>) -> Seq<char> {
    data + mount_local_spec(m)
}

/// The mount argument handed to the runtime: the data root prefixed onto the
/// whole spec when it has a colon, the spec unchanged otherwise.
///
/// Prefixing the whole spec equals prefixing only its host side, because the
/// part before the first colon plus the colon plus the remainder is the spec
/// itself.
pub open spec fn mount_arg_spec(data: Seq<char>, m: Seq<char>) -> Seq<char> {
    if has_char(m, ':') {
        data + m
    } else {
        m
    }
}

/// Builds the runtime mount argument for one mount spec.
pub fn mount_arg(data_path: &str, mount: &str) -> (r: String)
    ensures
        r@ == mount_arg_spec(data_path@, mount@),
{
    match find_first(mount, ':') {
        Some(_) => String::from_str(data_path).concat(mount),
        None => String::from_str(mount),
    }
}

/// Resolves the host path a mount spec materializes, or `None` for a spec
/// without a colon, which provisions no path.
pub fn resolve_mount_host(data_path: &str, mount: &str) -> (r: Option<String>)
    ensures
        match r {
            Some(s) => has_char(mount@, ':') && s@ == mount_host_spec(data_path@, mount@),
            None => !has_char(mount@, ':'),
        },
{
    match find_first(mount, ':') {
        Some(i) => {
            proof {
                lemma_first_pos(mount@, ':');
                assert(first_pos(mount@, ':') == i as int);
            }
            let local = mount.substring_char(0, i);
            Some(String::from_str(data_path).concat(local))
        },
        None => None,
    }
}

/// Extracts the host-relative segment of a mount spec, or `None` when the
/// spec has no colon.
pub fn mount_local(mount: &str) -> (r: Option<&str>)
    ensures
        match r {
            Some(s) => has_char(mount@, ':') && s@ == mount_local_spec(mount@),
            None => !has_char(mount@, ':'),
        },
{
    match find_first(mount, ':') {
        Some(i) => {
            proof {
                lemma_first_pos(mount@, ':');
                assert(first_pos(mount@, ':') == i as int);
            }
            Some(mount.substring_char(0, i))
        },
        None => None,
    }
}

} // verus!
