//! The guest init's decisions: parsing its command line, the mount
//! sequence of the basic filesystems, the overlay-root setup, and the
//! dispatch of commands received over the vsock.
use vstd::prelude::*;

use crate::command::Cmd;
use crate::defaults;
use crate::text::{chars_of, chars_to_string, split_chars, split_on, subrange_chars};

verus! {

/// What the `run=` splitting produced, as shell word splitting reads it;
/// malformed quoting gives `None`.
pub uninterp spec fn shell_split_of(s: Seq<char>) -> Option<Seq<Seq<char>>>;

/// Relies on `shell_words::split`: POSIX-shell word splitting of the
/// `run=` command line, a function of the text alone.
#[verifier::external_body]
pub fn shell_split(s: &str) -> (r: Option<Vec<String>>)
    ensures
        r.deep_view() == shell_split_of(s@),
{
    shell_words::split(s).ok()
}

/// Whether the command to run is the system init, which must replace the
/// current process instead of being spawned.
pub fn requires_exec(arg0: &str) -> (r: bool)
    ensures
        r == (arg0@ == defaults::SYSTEMD_PATH@),
{
    crate::lookup::str_eq(arg0, defaults::SYSTEMD_PATH)
}

/// The basic filesystems the init mounts, in order: filesystem type,
/// source, and target; a mount that fails because it is already mounted
/// is skipped.
pub fn basic_fs_mounts() -> (r: Vec<(String, String, String)>)
    ensures
        r.deep_view() == seq![
            ("proc"@, "proc"@, "/proc"@),
            ("sysfs"@, "sysfs"@, "/sys"@),
            ("devtmpfs"@, "devtmpfs"@, "/dev"@),
            ("devpts"@, "devpts"@, "/dev/pts"@),
        ],
{
    let mut r: Vec<(String, String, String)> = Vec::new();
    r.push(("proc".to_owned(), "proc".to_owned(), "/proc".to_owned()));
    r.push(("sysfs".to_owned(), "sysfs".to_owned(), "/sys".to_owned()));
    r.push(("devtmpfs".to_owned(), "devtmpfs".to_owned(), "/dev".to_owned()));
    r.push(("devpts".to_owned(), "devpts".to_owned(), "/dev/pts".to_owned()));
    proof {
        assert(r.deep_view() =~~= seq![
            ("proc"@, "proc"@, "/proc"@),
            ("sysfs"@, "sysfs"@, "/sys"@),
            ("devtmpfs"@, "devtmpfs"@, "/dev"@),
            ("devpts"@, "devpts"@, "/dev/pts"@),
        ]);
    }
    r
}

/// The mount data of the in-guest overlay: the running root as the lower
/// layer, the overlay device's upper and work directories on top.
pub fn overlay_mount_data() -> (r: String)
    ensures
        r@ == "lowerdir=/,upperdir="@ + defaults::OVERLAY_UPPER@ + ",workdir="@
            + defaults::OVERLAY_WORK@,
{
    let mut s = "lowerdir=/,upperdir=".to_owned();
    s.append(defaults::OVERLAY_UPPER);
    s.append(",workdir=");
    s.append(defaults::OVERLAY_WORK);
    s
}

/// The module probe for the overlay filesystem.
pub fn probe_overlay_cmd() -> (r: Cmd)
    ensures
        r.program@ == defaults::PROBE_MODULE@,
        r.args_view() == seq!["overlay"@],
{
    let mut c = Cmd::new(defaults::PROBE_MODULE);
    c.arg("overlay");
    proof {
        assert(c.args_view() =~= seq!["overlay"@]);
    }
    c
}

/// The module probe for the vsock transport.
pub fn probe_vhost_cmd() -> (r: Cmd)
    ensures
        r.program@ == defaults::PROBE_MODULE@,
        r.args_view() == seq![defaults::VHOST_TRANSPORT@],
{
    let mut c = Cmd::new(defaults::PROBE_MODULE);
    c.arg(defaults::VHOST_TRANSPORT);
    proof {
        assert(c.args_view() =~= seq![defaults::VHOST_TRANSPORT@]);
    }
    c
}

/// The root switch into the prepared overlay: `switch_root . <init>`
/// when the command replaces the process, `pivot_root . mnt` otherwise.
pub fn root_switch_cmd(do_exec: bool, arg0: &str) -> (r: Cmd)
    ensures
        do_exec ==> (r.program@ == defaults::SWITCH_ROOT@ && r.args_view() == seq![
            "."@,
            arg0@,
        ]),
        !do_exec ==> (r.program@ == defaults::PIVOT_ROOT@ && r.args_view() == seq![
            "."@,
            "mnt"@,
        ]),
{
    if do_exec {
        let mut c = Cmd::new(defaults::SWITCH_ROOT);
        c.arg(".");
        c.arg(arg0);
        proof {
            assert(c.args_view() =~= seq!["."@, arg0@]);
        }
        c
    } else {
        let mut c = Cmd::new(defaults::PIVOT_ROOT);
        c.arg(".");
        c.arg("mnt");
        proof {
            assert(c.args_view() =~= seq!["."@, "mnt"@]);
        }
        c
    }
}

/// Split a received command into the program and its arguments, on ASCII
/// space, as the guest executes it.
pub fn split_command(cmd: &str) -> (r: (String, Vec<String>))
    ensures
        ({
            let parts = split_on(cmd@, ' ');
            &&& r.0@ == parts[0]
            &&& r.1.deep_view() == parts.drop_first()
        }),
{
    let v = chars_of(cmd);
    let parts = split_chars(&v, ' ');
    let head = subrange_chars(&parts[0], 0, parts[0].len());
    proof {
        assert(head@ =~= split_on(cmd@, ' ')[0]);
    }
    let mut args: Vec<String> = Vec::new();
    let mut i: usize = 1;
    while i < parts.len()
        invariant
            1 <= i <= parts@.len(),
            parts.deep_view() == split_on(cmd@, ' '),
            args.deep_view() == parts.deep_view().subrange(1, i as int),
        decreases parts@.len() - i,
    {
        let p = subrange_chars(&parts[i], 0, parts[i].len());
        proof {
            assert(p@ =~= parts.deep_view()[i as int]);
        }
        let ghost a0 = args.deep_view();
        args.push(chars_to_string(&p));
        proof {
            assert(args.deep_view() =~~= a0.push(parts.deep_view()[i as int]));
            assert(args.deep_view() =~~= parts.deep_view().subrange(1, i + 1 as int));
        }
        i += 1;
    }
    proof {
        assert(parts.deep_view().subrange(1, parts.deep_view().len() as int)
            =~= split_on(cmd@, ' ').drop_first());
    }
    (chars_to_string(&head), args)
}

} // verus!
