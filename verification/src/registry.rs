//! The registry layout: which flakes-configuration root an invocation
//! uses, and the configured directories with their system-wide defaults.
//!
//! Paths are computed, not stored.  The frontend reads the root
//! configuration file and hands the configured values in; the rules that
//! pick between them are verified here.
use vstd::prelude::*;

use crate::defaults;
use crate::error::FlakeError;

verus! {

/// Which configuration root an invocation reads: the per-user root when
/// one exists, else the system root; missing both is a fatal
/// configuration error.
pub fn select_config_root(user_exists: bool, system_exists: bool) -> (r: Result<
    bool,
    FlakeError,
>)
    ensures
        user_exists ==> r == Ok::<bool, FlakeError>(true),
        !user_exists && system_exists ==> r == Ok::<bool, FlakeError>(false),
        !user_exists && !system_exists ==> (r matches Err(e) && e matches FlakeError::IOError {
            ..
        }),
{
    if user_exists {
        Ok(true)
    } else if system_exists {
        Ok(false)
    } else {
        Err(
            FlakeError::IOError {
                kind: "no flakes configuration".to_owned(),
                message: "neither a per-user nor a system root exists".to_owned(),
            },
        )
    }
}

/// The flakes directory: the configured one, or the system default; a
/// per-user root without a configured directory is an error, since the
/// system default is not writable for a user.
pub fn get_flakes_dir(configured: &Option<String>, user: bool) -> (r: Result<String, FlakeError>)
    ensures
        configured matches Some(d) ==> (r matches Ok(v) && v@ == d@),
        configured is None && !user ==> (r matches Ok(v) && v@ == defaults::FLAKES_DIR@),
        configured is None && user ==> r is Err,
{
    dir_or_default(configured, defaults::FLAKES_DIR, user)
}

/// The container ID file directory, defaulting like `get_flakes_dir`.
pub fn get_podman_ids_dir(configured: &Option<String>, user: bool) -> (r: Result<
    String,
    FlakeError,
>)
    ensures
        configured matches Some(d) ==> (r matches Ok(v) && v@ == d@),
        configured is None && !user ==> (r matches Ok(v) && v@ == defaults::PODMAN_IDS_DIR@),
        configured is None && user ==> r is Err,
{
    dir_or_default(configured, defaults::PODMAN_IDS_DIR, user)
}

/// The VM ID file directory, defaulting like `get_flakes_dir`.
pub fn get_firecracker_ids_dir(configured: &Option<String>, user: bool) -> (r: Result<
    String,
    FlakeError,
>)
    ensures
        configured matches Some(d) ==> (r matches Ok(v) && v@ == d@),
        configured is None && !user ==> (r matches Ok(v) && v@ == defaults::FIRECRACKER_IDS_DIR@),
        configured is None && user ==> r is Err,
{
    dir_or_default(configured, defaults::FIRECRACKER_IDS_DIR, user)
}

/// The engine storage configuration, defaulting like `get_flakes_dir`.
pub fn get_podman_storage_conf(configured: &Option<String>, user: bool) -> (r: Result<
    String,
    FlakeError,
>)
    ensures
        configured matches Some(d) ==> (r matches Ok(v) && v@ == d@),
        configured is None && !user ==> (r matches Ok(v) && v@ == defaults::FLAKES_STORAGE@),
        configured is None && user ==> r is Err,
{
    dir_or_default(configured, defaults::FLAKES_STORAGE, user)
}

/// A configured value, or the system default — which a per-user root may
/// not fall back to.
fn dir_or_default(configured: &Option<String>, default: &str, user: bool) -> (r: Result<
    String,
    FlakeError,
>)
    ensures
        configured matches Some(d) ==> (r matches Ok(v) && v@ == d@),
        configured is None && !user ==> (r matches Ok(v) && v@ == default@),
        configured is None && user ==> (r matches Err(e) && e matches FlakeError::IOError { .. }),
{
    match configured {
        Some(d) => Ok(d.as_str().to_owned()),
        None => {
            if !user {
                Ok(default.to_owned())
            } else {
                Err(
                    FlakeError::IOError {
                        kind: "incomplete per-user configuration".to_owned(),
                        message: "the per-user root configures no directory".to_owned(),
                    },
                )
            }
        },
    }
}


/// The per-user engine runroot: `<registry_runroot>/<user>`; the engine
/// keeps its runtime state for one calling user below it.
pub fn runroot_for_user(user_name: &str) -> (r: String)
    ensures
        r@ == defaults::FLAKES_REGISTRY_RUNROOT@ + "/"@ + user_name@,
{
    let mut s = defaults::FLAKES_REGISTRY_RUNROOT.to_owned();
    s.append("/");
    s.append(user_name);
    s
}

} // verus!
