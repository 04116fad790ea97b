//! Error kinds surfaced by the deployment logic.

use vstd::prelude::*;

verus! {

/// What kind of entity a by-name lookup failed to find.
#[derive(Debug, Clone, PartialEq, Eq)]
pub enum TargetKind {
    Pod,
    Container,
}

/// Every failure the tool distinguishes.
///
/// `RuntimeCallFailed` carries the operation attempted and its target so the
/// driver can report which external call went wrong; `NotFound` reports a
/// named pod or container absent from the configuration document.
#[derive(Debug, Clone, PartialEq, Eq)]
pub enum DeployError {
    ConfigNotFound,
    ConfigParse,
    UnsupportedPlatform,
    RuntimeCallFailed { operation: String, target: String },
    NotFound { kind: TargetKind, name: String },
    IoFailed,
}

} // verus!
