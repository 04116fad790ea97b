//! The command surface: mode parsing and configuration-file lookup.
//!
//! An invocation is an optional leading override-path flag, one of four
//! modes, and an optional trailing pod or container name; the argument
//! count bounds are enforced per mode. The configuration document is read
//! from the override path when one is given, else from the first existing
//! of three fixed search locations.

use vstd::prelude::*;
use vstd::string::*;
use crate::commands::argv_view;
use crate::errors::DeployError;
use crate::text::str_eq;

verus! {

/// The four terminal modes.
#[derive(Debug, Clone, Copy, PartialEq, Eq, Structural)]
pub enum Mode {
    Setup,
    Upgrade,
    Start,
    Stop,
}

/// Why a command line was rejected.
#[derive(Debug, Clone, Copy, PartialEq, Eq, Structural)]
pub enum UsageError {
    WrongArgumentCount,
    SetupTakesNoTarget,
    UnknownMode,
}

/// A parsed invocation.
#[derive(Debug, Clone)]
pub struct Invocation {
    pub config_override: Option<String>,
    pub mode: Mode,
    pub target: Option<String>,
}

/// The command line carries the override-path flag.
pub open spec fn has_override_spec(args: Seq<Seq<char>>) -> bool {
    args.len() >= 3 && args[1] == "--config"@
}

/// Where the mode word stands.
pub open spec fn mode_index_spec(args: Seq<Seq<char>>) -> int {
    if has_override_spec(args) {
        3
    } else {
        1
    }
}

/// The argument count lies within the bounds of the invocation's shape.
pub open spec fn count_ok_spec(args: Seq<Seq<char>>) -> bool {
    if has_override_spec(args) {
        4 <= args.len() <= 5
    } else {
        2 <= args.len() <= 3
    }
}

/// The mode word of a command line with an acceptable count.
pub open spec fn mode_of_spec(args: Seq<Seq<char>>) -> Seq<char> {
    args[mode_index_spec(args)]
}

/// The trailing name argument, if one is given.
pub open spec fn target_of_spec(args: Seq<Seq<char>>) -> Option<Seq<char>> {
    if args.len() > mode_index_spec(args) + 1 {
        Some(args[mode_index_spec(args) + 1])
    } else {
        None
    }
}

/// The mode word names one of the four modes.
pub open spec fn known_mode_spec(m: Seq<char>) -> bool {
    m == "setup"@ || m == "upgrade"@ || m == "start"@ || m == "stop"@
}

/// Parses a command line (program name first). Parsing succeeds exactly
/// when the count bounds hold, the mode word is known, and `setup` carries
/// no trailing name; each failure is reported distinctly.
pub fn parse_args(args: &Vec<String>) -> (r: Result<Invocation, UsageError>)
    ensures
        ({
            let av = argv_view(args@);
            match r {
                Ok(inv) => {
                    &&& count_ok_spec(av)
                    &&& match inv.config_override {
                        Some(p) => has_override_spec(av) && p@ == av[2],
                        None => !has_override_spec(av),
                    }
                    &&& (inv.mode == Mode::Setup <==> mode_of_spec(av) == "setup"@)
                    &&& (inv.mode == Mode::Upgrade <==> mode_of_spec(av) == "upgrade"@)
                    &&& (inv.mode == Mode::Start <==> mode_of_spec(av) == "start"@)
                    &&& (inv.mode == Mode::Stop <==> mode_of_spec(av) == "stop"@)
                    &&& match inv.target {
                        Some(t) => target_of_spec(av) == Some(t@),
                        None => target_of_spec(av) is None,
                    }
                    &&& (inv.mode == Mode::Setup ==> target_of_spec(av) is None)
                },
                Err(e) => {
                    &&& (e == UsageError::WrongArgumentCount <==> !count_ok_spec(av))
                    &&& (e == UsageError::SetupTakesNoTarget <==> count_ok_spec(av)
                        && mode_of_spec(av) == "setup"@ && target_of_spec(av) is Some)
                    &&& (e == UsageError::UnknownMode <==> count_ok_spec(av) && !known_mode_spec(
                        mode_of_spec(av),
                    ))
                },
            }
        }),
{
    let n = args.len();
    let has_override = n >= 3 && str_eq(args[1].as_str(), "--config");
    proof {
        assert(argv_view(args@).len() == n);
        if n >= 3 {
            assert(argv_view(args@)[1] == args@[1]@);
        }
        assert(has_override == has_override_spec(argv_view(args@)));
    }
    let mode_idx: usize = if has_override {
        3
    } else {
        1
    };
    let count_ok = if has_override {
        4 <= n && n <= 5
    } else {
        2 <= n && n <= 3
    };
    if !count_ok {
        return Err(UsageError::WrongArgumentCount);
    }
    proof {
        assert(argv_view(args@)[mode_idx as int] == args@[mode_idx as int]@);
        if n > mode_idx + 1 {
            assert(argv_view(args@)[mode_idx + 1] == args@[mode_idx + 1]@);
        }
    }
    let mode_word = &args[mode_idx];
    let target: Option<String> = if n > mode_idx + 1 {
        Some(args[mode_idx + 1].clone())
    } else {
        None
    };
    let config_override: Option<String> = if has_override {
        Some(args[2].clone())
    } else {
        None
    };
    proof {
        reveal_strlit("setup");
        reveal_strlit("upgrade");
        reveal_strlit("start");
        reveal_strlit("stop");
        assert("setup"@.len() == 5 && "upgrade"@.len() == 7 && "start"@.len() == 5 && "stop"@.len()
            == 4);
        assert("setup"@[1] == 'e' && "start"@[1] == 't');
        assert("setup"@ != "upgrade"@ && "setup"@ != "start"@ && "setup"@ != "stop"@);
        assert("upgrade"@ != "start"@ && "upgrade"@ != "stop"@ && "start"@ != "stop"@);
    }
    if str_eq(mode_word.as_str(), "setup") {
        match target {
            Some(_) => Err(UsageError::SetupTakesNoTarget),
            None => Ok(Invocation { config_override, mode: Mode::Setup, target: None }),
        }
    } else if str_eq(mode_word.as_str(), "upgrade") {
        Ok(Invocation { config_override, mode: Mode::Upgrade, target })
    } else if str_eq(mode_word.as_str(), "start") {
        Ok(Invocation { config_override, mode: Mode::Start, target })
    } else if str_eq(mode_word.as_str(), "stop") {
        Ok(Invocation { config_override, mode: Mode::Stop, target })
    } else {
        Err(UsageError::UnknownMode)
    }
}

/// The fixed search locations for the configuration document, in order:
/// under the user's configuration directory, under the system configuration
/// directory, then the working directory.
pub fn config_search_paths(home: &str) -> (r: Vec<String>)
    ensures
        argv_view(r@) == seq![
            home@ + "/.config/podman_deploy/config.yaml"@,
            "/etc/podman_deploy/config.yaml"@,
            "./config.yaml"@,
        ],
{
    let mut out: Vec<String> = Vec::new();
    out.push(String::from_str(home).concat("/.config/podman_deploy/config.yaml"));
    out.push(String::from_str("/etc/podman_deploy/config.yaml"));
    out.push(String::from_str("./config.yaml"));
    assert(argv_view(out@) =~= seq![
        home@ + "/.config/podman_deploy/config.yaml"@,
        "/etc/podman_deploy/config.yaml"@,
        "./config.yaml"@,
    ]);
    out
}

/// Selects the configuration document to load. An explicit override path
/// is used exactly when it exists and is never searched past; otherwise
/// the first existing candidate wins, and no document anywhere means the
/// configuration is not found. `present[k]` reports whether `candidates[k]`
/// exists.
pub fn select_config_path(
    explicit: &Option<String>,
    explicit_exists: bool,
    candidates: &Vec<String>,
    present: &Vec<bool>,
) -> (r: Result<String, DeployError>)
    requires
        candidates@.len() == present@.len(),
    ensures
        match explicit {
            Some(p) => match r {
                Ok(path) => explicit_exists && path@ == p@,
                Err(e) => !explicit_exists && e == DeployError::ConfigNotFound,
            },
            None => match r {
                Ok(path) => exists|k: int|
                    {
                        &&& 0 <= k < candidates@.len()
                        &&& #[trigger] present@[k]
                        &&& path@ == candidates@[k]@
                        &&& forall|t: int| 0 <= t < k ==> !present@[t]
                    },
                Err(e) => (forall|k: int| 0 <= k < present@.len() ==> !present@[k]) && e
                    == DeployError::ConfigNotFound,
            },
        },
{
    match explicit {
        Some(p) => {
            if explicit_exists {
                Ok(p.clone())
            } else {
                Err(DeployError::ConfigNotFound)
            }
        },
        None => {
            let n = candidates.len();
            let mut k: usize = 0;
            while k < n
                invariant
                    explicit is None,
                    n == candidates@.len(),
                    n == present@.len(),
                    0 <= k <= n,
                    forall|t: int| 0 <= t < k ==> !present@[t],
                decreases n - k,
            {
                if present[k] {
                    assert(present@[k as int]);
                    return Ok(candidates[k].clone());
                }
                k = k + 1;
            }
            Err(DeployError::ConfigNotFound)
        },
    }
}

} // verus!
