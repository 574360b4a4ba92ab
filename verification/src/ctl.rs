//! The registration tool's engine calls: image fetch, load, removal, and
//! mounting, as prepared commands.
//!
//! These calls go through the elevation helper with the engine's full
//! path and the caller's environment preserved; the frontend sets the
//! storage environment before running them.
use vstd::prelude::*;

use crate::command::Cmd;
use crate::defaults;

verus! {

/// The lead-in of every engine call of the registration tool:
/// `sudo --preserve-env /usr/bin/podman`.
pub open spec fn podman_call_args() -> Seq<Seq<char>> {
    seq!["--preserve-env"@, defaults::PODMAN_PATH@]
}

/// The prepared engine call base.
pub fn setup_podman_call() -> (r: Cmd)
    ensures
        r.program@ == "sudo"@,
        r.args_view() == podman_call_args(),
{
    let mut call = Cmd::new("sudo");
    call.arg("--preserve-env");
    call.arg(defaults::PODMAN_PATH);
    proof {
        assert(call.args_view() =~= podman_call_args());
    }
    call
}

/// The image fetch: `podman pull <uri>`, and the prune that follows a
/// successful pull.
pub fn pull(uri: &String) -> (r: (Cmd, Cmd))
    ensures
        r.0.program@ == "sudo"@,
        r.0.args_view() == podman_call_args().push("pull"@).push(uri@),
        r.1.program@ == "sudo"@,
        r.1.args_view() == podman_call_args().push("image"@).push("prune"@).push("--force"@),
{
    let mut call = setup_podman_call();
    call.arg("pull");
    call.arg(uri.as_str());
    let mut prune = setup_podman_call();
    prune.arg("image");
    prune.arg("prune");
    prune.arg("--force");
    (call, prune)
}

/// The OCI image load: `podman load -i <oci>`.
pub fn load(oci: &String) -> (r: Cmd)
    ensures
        r.program@ == "sudo"@,
        r.args_view() == podman_call_args().push("load"@).push("-i"@).push(oci@),
{
    let mut call = setup_podman_call();
    call.arg("load");
    call.arg("-i");
    call.arg(oci.as_str());
    call
}

/// The image removal, forced so that running containers go with it:
/// `podman image rm -f <container>`.
pub fn rm(container: &String) -> (r: Cmd)
    ensures
        r.program@ == "sudo"@,
        r.args_view() == podman_call_args().push("image"@).push("rm"@).push("-f"@).push(
            container@,
        ),
{
    let mut call = setup_podman_call();
    call.arg("image");
    call.arg("rm");
    call.arg("-f");
    call.arg(container.as_str());
    call
}

/// The image mount: `podman image mount <container>`; its stdout is the
/// mount point.
pub fn mount_container(container_name: &str) -> (r: Cmd)
    ensures
        r.program@ == "sudo"@,
        r.args_view() == podman_call_args().push("image"@).push("mount"@).push(container_name@),
{
    let mut call = setup_podman_call();
    call.arg("image");
    call.arg("mount");
    call.arg(container_name);
    call
}

/// The image unmount: `podman image umount <container>`.
pub fn umount_container(container_name: &str) -> (r: Cmd)
    ensures
        r.program@ == "sudo"@,
        r.args_view() == podman_call_args().push("image"@).push("umount"@).push(container_name@),
{
    let mut call = setup_podman_call();
    call.arg("image");
    call.arg("umount");
    call.arg(container_name);
    call
}

/// Whether one registration belongs to the purged container: its
/// configured container name matches.
pub fn purge_matches(app_container: &Option<String>, container: &str) -> (r: bool)
    ensures
        r == (app_container matches Some(n) && n@ == container@),
{
    match app_container {
        Some(n) => crate::lookup::string_eq_str(n, container),
        None => false,
    }
}

/// The final removal of a purged container: every matching registration
/// is removed first (the frontend walks the configurations with
/// `purge_matches`), then the image itself goes.
pub fn purge_container(container: &str) -> (r: Cmd)
    ensures
        r.program@ == "sudo"@,
        r.args_view() == podman_call_args().push("image"@).push("rm"@).push("-f"@).push(
            container@,
        ),
{
    rm(&container.to_owned())
}

} // verus!
