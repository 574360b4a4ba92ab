//! The instance lifecycle engine: identities, the per-invocation decision,
//! and garbage collection of dead instances.
//!
//! An instance's identity is derived from the program basename, the
//! ordered `@TAG` arguments of the invocation, and the calling user; the
//! identity names the ID file, the bridge socket, and the overlay image.
use vstd::prelude::*;

use crate::defaults;

verus! {

/// The `@TAG` arguments of an invocation, concatenated in order.
pub open spec fn tag_suffix(args: Seq<Seq<char>>) -> Seq<char>
    decreases args.len(),
{
    if args.len() == 0 {
        Seq::empty()
    } else {
        tag_suffix(args.drop_last()).add(
            if args.last().len() > 0 && args.last()[0] == '@' {
                args.last()
            } else {
                Seq::empty()
            },
        )
    }
}

/// The first `@TAG` argument, or nothing.
pub open spec fn first_tag(args: Seq<Seq<char>>) -> Seq<char>
    decreases args.len(),
{
    if args.len() == 0 {
        Seq::empty()
    } else if args[0].len() > 0 && args[0][0] == '@' {
        args[0]
    } else {
        first_tag(args.drop_first())
    }
}

/// A meta file path: `<dir>/<identity>.<extension>`.
pub open spec fn meta_path(dir: Seq<char>, identity: Seq<char>, ext: Seq<char>) -> Seq<char> {
    dir + "/"@ + identity + "."@ + ext
}

/// Identity uniqueness: two invocations with distinct identities never
/// touch the same ID file — the path derivation is injective in the
/// identity for a fixed directory and extension.
pub proof fn lemma_meta_path_injective(
    dir: Seq<char>,
    id1: Seq<char>,
    id2: Seq<char>,
    ext: Seq<char>,
)
    requires
        id1 != id2,
    ensures
        meta_path(dir, id1, ext) != meta_path(dir, id2, ext),
{
    reveal_strlit("/");
    reveal_strlit(".");
    let p1 = meta_path(dir, id1, ext);
    let p2 = meta_path(dir, id2, ext);
    if p1 == p2 {
        assert(p1.len() == dir.len() + 1 + id1.len() + 1 + ext.len());
        assert(p2.len() == dir.len() + 1 + id2.len() + 1 + ext.len());
        assert(id1.len() == id2.len());
        assert forall|k: int| 0 <= k < id1.len() implies id1[k] == id2[k] by {
            assert(p1[dir.len() + 1 + k] == id1[k]);
            assert(p2[dir.len() + 1 + k] == id2[k]);
        }
        assert(id1 =~= id2);
    }
}

/// What one invocation decides to do, given the instance's state.
#[derive(Clone, Copy, Debug, PartialEq, Eq, Structural)]
pub enum InstanceAction {
    /// No usable instance: provision and create a new one.
    Create,
    /// The instance is alive and resume is configured: exec the target
    /// inside it.
    ExecResume,
    /// The instance is alive and attach is configured: attach stdio.
    Attach,
    /// The instance is alive but neither resume nor attach allows reuse.
    FailAlreadyRunning,
}

/// The per-invocation decision of the lifecycle engine.
///
/// `remove_stale` asks the frontend to clear the dead instance's ID file
/// (and, for a non-resume VM, its overlay) before creating anew.  When
/// the ID file is present and the engine still knows the instance, the
/// decision follows the configured mode; attach takes precedence when
/// both modes are set, mirroring how a running instance is entered.
pub fn decide_invocation(id_file_exists: bool, alive: bool, resume: bool, attach: bool) -> (r: (
    bool,
    InstanceAction,
))
    ensures
        !id_file_exists ==> r == (false, InstanceAction::Create),
        id_file_exists && !alive ==> r == (true, InstanceAction::Create),
        id_file_exists && alive && attach ==> r == (false, InstanceAction::Attach),
        id_file_exists && alive && !attach && resume ==> r == (
            false,
            InstanceAction::ExecResume,
        ),
        id_file_exists && alive && !attach && !resume ==> r == (
            false,
            InstanceAction::FailAlreadyRunning,
        ),
{
    if !id_file_exists {
        (false, InstanceAction::Create)
    } else if !alive {
        (true, InstanceAction::Create)
    } else if attach {
        (false, InstanceAction::Attach)
    } else if resume {
        (false, InstanceAction::ExecResume)
    } else {
        (false, InstanceAction::FailAlreadyRunning)
    }
}

/// Whether the ID directory is due for a garbage-collection sweep.
pub fn gc_needed(id_file_count: usize) -> (r: bool)
    ensures
        r == (id_file_count > defaults::GC_THRESHOLD),
{
    id_file_count > defaults::GC_THRESHOLD
}

/// The on-disk remains of one identity: its ID file's content when the
/// file exists, and whether its bridge socket and overlay image exist.
pub struct IdentityFiles {
    pub id_file: Option<Seq<char>>,
    pub socket: bool,
    pub overlay: bool,
}

/// The create path's effect on the identity's files: the ID file is
/// written with `0` before the engine runs, and overwritten with the
/// engine's reference once the engine returns one.
pub open spec fn step_create(s: IdentityFiles, engine_ref: Seq<char>) -> IdentityFiles {
    IdentityFiles { id_file: Some(engine_ref), ..s }
}

/// The garbage collector's effect on one identity: a dead instance loses
/// its ID file and socket, and its overlay too unless resume is
/// configured (a resume overlay holds user state and is never removed by
/// the collector); a live instance is untouched.
pub open spec fn step_gc(s: IdentityFiles, alive: bool, resume: bool) -> IdentityFiles {
    if alive {
        s
    } else {
        IdentityFiles { id_file: None, socket: false, overlay: s.overlay && resume }
    }
}

/// ID-file lifecycle, create half: after a successful create, the ID
/// file exists and holds the engine's reference.
pub proof fn lemma_create_writes_id(s: IdentityFiles, engine_ref: Seq<char>)
    ensures
        step_create(s, engine_ref).id_file == Some(engine_ref),
{
}

/// ID-file lifecycle, collection half: after a successful collection of
/// a dead instance, no ID file and no socket remain, and no overlay
/// either unless resume preserves it.
pub proof fn lemma_gc_dead_clears(s: IdentityFiles, resume: bool)
    ensures
        step_gc(s, false, resume).id_file is None,
        !step_gc(s, false, resume).socket,
        !resume ==> !step_gc(s, false, resume).overlay,
        resume ==> step_gc(s, false, resume).overlay == s.overlay,
{
}

/// What the frontend must remove for one swept identity.
pub struct GcPlan {
    pub remove_id_file: bool,
    pub remove_socket: bool,
    pub remove_overlay: bool,
}

/// The removals a plan performs, on the model of one identity's files.
pub open spec fn apply_gc_plan(s: IdentityFiles, p: GcPlan) -> IdentityFiles {
    IdentityFiles {
        id_file: if p.remove_id_file {
            None
        } else {
            s.id_file
        },
        socket: s.socket && !p.remove_socket,
        overlay: s.overlay && !p.remove_overlay,
    }
}

/// The garbage-collection decision for one identity.
///
/// Given whether the engine still knows the instance, whether resume is
/// configured, and which files exist, the plan removes exactly what
/// `step_gc` prescribes: everything of a dead instance but a resume
/// overlay, nothing of a live one.
pub fn gc_decision(alive: bool, resume: bool, socket_exists: bool, overlay_exists: bool) -> (r:
    GcPlan)
    ensures
        r.remove_id_file == !alive,
        r.remove_socket == (!alive && socket_exists),
        r.remove_overlay == (!alive && overlay_exists && !resume),
        forall|s: IdentityFiles|
            s.socket == socket_exists && s.overlay == overlay_exists && (s.id_file is Some)
                ==> apply_gc_plan(s, r) == step_gc(s, alive, resume),
{
    let r = GcPlan {
        remove_id_file: !alive,
        remove_socket: !alive && socket_exists,
        remove_overlay: !alive && overlay_exists && !resume,
    };
    proof {
        assert forall|s: IdentityFiles|
            s.socket == socket_exists && s.overlay == overlay_exists && (s.id_file is Some)
                implies apply_gc_plan(s, r) == step_gc(s, alive, resume) by {
            assert(apply_gc_plan(s, r) =~= step_gc(s, alive, resume));
        }
    }
    r
}

} // verus!
