//! Decisions about launching the backend process.

use vstd::prelude::*;

verus! {

/// How the backend process is launched.
#[derive(Clone, Debug)]
pub struct BackendLaunch {
    /// Program to run.
    pub program: String,
    /// Whether to set the backend's log level to warnings, because the
    /// environment sets none.
    pub set_default_log_level: bool,
}

/// Plans the backend's launch: the program is the override when one is
/// given (from `VRC_STT_BACKEND`), else `backend`; the default log level is
/// set unless `RUST_LOG` is set to something non-empty.
pub fn plan_backend_launch(backend_override: Option<String>, rust_log: Option<String>) -> (res:
    BackendLaunch)
    ensures
        res.program@ == match backend_override {
            Some(p) => p@,
            None => "backend"@,
        },
        res.set_default_log_level == !(rust_log matches Some(l) && l@.len() > 0),
{
    let program = match backend_override {
        Some(p) => p,
        None => "backend".to_owned(),
    };
    let set_default_log_level = match &rust_log {
        Some(l) => l.as_str().is_empty(),
        None => true,
    };
    BackendLaunch { program, set_default_log_level }
}

/// The log line announcing the backend's start.
pub fn starting_message(program: &str) -> (res: String)
    ensures
        res@ == "Starting backend process: "@ + program@,
{
    let mut res = "Starting backend process: ".to_owned();
    res.append(program);
    res
}

} // verus!
