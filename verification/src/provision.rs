//! The provisioning pipeline's mount accounting.
//!
//! Provisioning acquires mounts in order (image, overlay carrier,
//! assembled overlay) and must release every one of them on the way out,
//! on success and on any failure alike.  The tracker below owns that
//! bookkeeping: every acquired mount point is recorded, and unwinding
//! produces exactly one unmount per held mount, innermost first, leaving
//! nothing held.
use vstd::prelude::*;

use crate::command::Cmd;
use crate::user::{name_view, run_args, User};

verus! {

/// The mount points a provisioning run currently holds, in acquisition
/// order.
pub struct MountTracker {
    pub mounts: Vec<String>,
}

/// The argument vector of one quiet elevated unmount.
pub open spec fn umount_args(name: Option<Seq<char>>, mount_point: Seq<char>) -> Seq<Seq<char>> {
    run_args(name, "umount"@).push(mount_point)
}

impl MountTracker {
    /// The held mount points, in acquisition order.
    pub open spec fn held(&self) -> Seq<Seq<char>> {
        self.mounts.deep_view()
    }

    pub fn new() -> (r: MountTracker)
        ensures
            r.held() == Seq::<Seq<char>>::empty(),
    {
        let r = MountTracker { mounts: Vec::new() };
        proof {
            assert(r.held() =~= Seq::<Seq<char>>::empty());
        }
        r
    }

    /// Record a mount point that was just acquired.
    pub fn acquire(&mut self, mount_point: &str)
        ensures
            final(self).held() == old(self).held().push(mount_point@),
    {
        let ghost before = self.mounts.deep_view();
        self.mounts.push(mount_point.to_owned());
        proof {
            assert(self.held() =~~= before.push(mount_point@));
        }
    }

    /// Provisioning atomicity: unwind every held mount.
    ///
    /// The returned commands unmount each held mount point exactly once,
    /// innermost first, and afterwards nothing is held: whatever step
    /// failed, no residual mount is left behind on return.
    pub fn unwind(&mut self, user: &User) -> (r: Vec<Cmd>)
        ensures
            final(self).held().len() == 0,
            r@.len() == old(self).held().len(),
            forall|i: int|
                0 <= i < r@.len() ==> {
                    &&& (#[trigger] r@[i]).program@ == "sudo"@
                    &&& r@[i].args_view() == umount_args(
                        name_view(&user.name),
                        old(self).held()[old(self).held().len() - 1 - i],
                    )
                },
    {
        let ghost held0 = self.mounts.deep_view();
        let mut r: Vec<Cmd> = Vec::new();
        while self.mounts.len() > 0
            invariant
                self.mounts.deep_view() == held0.subrange(
                    0,
                    held0.len() - r@.len(),
                ),
                r@.len() <= held0.len(),
                forall|i: int|
                    0 <= i < r@.len() ==> {
                        &&& (#[trigger] r@[i]).program@ == "sudo"@
                        &&& r@[i].args_view() == umount_args(
                            name_view(&user.name),
                            held0[held0.len() - 1 - i],
                        )
                    },
            decreases self.mounts@.len(),
        {
            let ghost cur = self.mounts.deep_view();
            let mp = self.mounts.pop().unwrap();
            proof {
                assert(self.mounts.deep_view() =~= cur.drop_last());
                assert(self.mounts.deep_view() =~= held0.subrange(
                    0,
                    held0.len() - r@.len() - 1,
                ));
                assert(mp@ == cur.last());
                assert(mp@ == held0[held0.len() - 1 - r@.len()]);
            }
            let mut call = user.run("umount");
            call.arg(mp.as_str());
            proof {
                assert(call.args_view() =~= umount_args(
                    name_view(&user.name),
                    held0[held0.len() - 1 - r@.len()],
                ));
            }
            r.push(call);
        }
        proof {
            assert(self.held() =~= Seq::<Seq<char>>::empty());
        }
        r
    }
}

} // verus!
