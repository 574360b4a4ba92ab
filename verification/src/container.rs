//! Ownership repair of the engine's storage, used when an engine call
//! fails with a permission error.
use vstd::prelude::*;

use crate::command::Cmd;
use crate::defaults;
use crate::text::{chars_to_string, dec_str, u64_to_dec};
use crate::user::{name_view, run_args, User};

verus! {

/// Marker for the storage permission repairs.
pub struct Container {}

/// `<uid>:<gid>`, the ownership a repair hands the storage to.
pub fn chown_param(uid: u32, gid: u32) -> (r: String)
    ensures
        r@ == dec_str(uid as nat) + ":"@ + dec_str(gid as nat),
{
    let mut u = u64_to_dec(uid as u64);
    u.push(':');
    let g = u64_to_dec(gid as u64);
    let mut i: usize = 0;
    let ghost mid = u@;
    while i < g.len()
        invariant
            i <= g@.len(),
            u@ == mid + g@.subrange(0, i as int),
        decreases g@.len() - i,
    {
        u.push(g[i]);
        proof {
            assert(u@ =~= mid + g@.subrange(0, i + 1 as int));
        }
        i += 1;
    }
    proof {
        assert(g@.subrange(0, g@.len() as int) =~= g@);
        reveal_strlit(":");
        assert(":"@.len() == 1);
        assert(mid =~= dec_str(uid as nat) + ":"@);
        assert(u@ =~= dec_str(uid as nat) + ":"@ + dec_str(gid as nat));
    }
    chars_to_string(&u)
}

impl Container {
    /// The expensive storage repair: hand the registry storage back to
    /// the calling user, recursively, as root.
    pub fn podman_setup_permissions(uid: u32, gid: u32) -> (r: Cmd)
        ensures
            r.program@ == "sudo"@,
            r.args_view() == run_args(Some("root"@), "chown"@).push("-R"@).push(
                dec_str(uid as nat) + ":"@ + dec_str(gid as nat),
            ).push(defaults::FLAKES_REGISTRY@),
    {
        let root = User::root();
        let param = chown_param(uid, gid);
        let mut call = root.run("chown");
        proof {
            assert(run_args(name_view(&root.name), "chown"@) =~~= run_args(
                Some("root"@),
                "chown"@,
            ));
        }
        call.arg("-R");
        call.arg_string(param);
        call.arg(defaults::FLAKES_REGISTRY);
        call
    }

    /// The run-root repair: hand the engine's run directories back to the
    /// calling user.
    pub fn podman_setup_run_permissions(uid: u32, gid: u32) -> (r: Cmd)
        ensures
            r.program@ == "sudo"@,
            r.args_view() == run_args(Some("root"@), "chown"@).push("-R"@).push(
                dec_str(uid as nat) + ":"@ + dec_str(gid as nat),
            ).push("/run/libpod"@).push(defaults::FLAKES_REGISTRY_RUNROOT@),
    {
        let root = User::root();
        let param = chown_param(uid, gid);
        let mut call = root.run("chown");
        proof {
            assert(run_args(name_view(&root.name), "chown"@) =~~= run_args(
                Some("root"@),
                "chown"@,
            ));
        }
        call.arg("-R");
        call.arg_string(param);
        call.arg("/run/libpod");
        call.arg(defaults::FLAKES_REGISTRY_RUNROOT);
        call
    }
}

} // verus!
