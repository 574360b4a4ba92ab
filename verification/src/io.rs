//! Data synchronisation into a mounted instance: tar extraction and
//! rsync transfers, as prepared commands.
use vstd::prelude::*;

use crate::command::{Cmd, Output};
use crate::error::FlakeError;
use crate::text::concat3;
use crate::user::{name_view, run_args, User};

verus! {

/// Marker for the synchronisation helpers.
pub struct IO {}

/// The argument vector of one elevated `rsync -av` transfer.
pub open spec fn sync_data_args(
    name: Option<Seq<char>>,
    options: Seq<Seq<char>>,
    source: Seq<char>,
    target: Seq<char>,
) -> Seq<Seq<char>> {
    run_args(name, "rsync"@).push("-av"@).add(options).push(source).push(target)
}

/// The argument vector of one elevated tar extraction into `target`.
pub open spec fn tar_extract_args(
    name: Option<Seq<char>>,
    target: Seq<char>,
    tar: Seq<char>,
) -> Seq<Seq<char>> {
    run_args(name, "tar"@).push("-C"@).push(target).push("-xf"@).push(tar)
}

impl IO {
    /// The prepared transfer of `source` into `target`:
    /// `rsync -av <options...> <source> <target>`, elevated.
    pub fn sync_data(source: &str, target: &str, options: &Vec<String>, user: &User) -> (r: Cmd)
        ensures
            r.program@ == "sudo"@,
            r.args_view() == sync_data_args(name_view(&user.name), options.deep_view(), source@, target@),
    {
        let mut call = user.run("rsync");
        call.arg("-av");
        let mut i: usize = 0;
        while i < options.len()
            invariant
                i <= options@.len(),
                call.program@ == "sudo"@,
                call.args_view() == run_args(name_view(&user.name), "rsync"@).push("-av"@).add(
                    options.deep_view().subrange(0, i as int),
                ),
            decreases options@.len() - i,
        {
            call.arg(options[i].as_str());
            proof {
                assert(call.args_view() =~= run_args(name_view(&user.name), "rsync"@).push("-av"@).add(
                    options.deep_view().subrange(0, i + 1 as int),
                ));
            }
            i += 1;
        }
        proof {
            assert(options.deep_view().subrange(0, options.deep_view().len() as int)
                =~= options.deep_view());
        }
        call.arg(source);
        call.arg(target);
        proof {
            assert(call.args_view() =~= sync_data_args(
                name_view(&user.name),
                options.deep_view(),
                source@,
                target@,
            ));
        }
        call
    }

    /// What a finished transfer means: a non-zero rsync exit is an
    /// incomplete sync and fatal.
    pub fn sync_outcome(output: &Output) -> (r: Result<(), FlakeError>)
        ensures
            output.is_success() ==> r is Ok,
            !output.is_success() ==> r == Err::<(), FlakeError>(FlakeError::SyncFailed),
    {
        if output.success() {
            Ok(())
        } else {
            Err(FlakeError::SyncFailed)
        }
    }

    /// The prepared provisioning of the includes: each tar archive is
    /// extracted into `target`, then each path is transferred from the
    /// host into the same relative location under `target`, with missing
    /// target directories created.
    pub fn sync_includes(
        target: &str,
        tar_includes: &Vec<String>,
        path_includes: &Vec<String>,
        user: &User,
    ) -> (r: Vec<Cmd>)
        ensures
            r@.len() == tar_includes@.len() + path_includes@.len(),
            forall|i: int|
                0 <= i < tar_includes@.len() ==> {
                    &&& (#[trigger] r@[i]).program@ == "sudo"@
                    &&& r@[i].args_view() == tar_extract_args(
                        name_view(&user.name),
                        target@,
                        tar_includes.deep_view()[i],
                    )
                },
            forall|j: int|
                0 <= j < path_includes@.len() ==> {
                    &&& (#[trigger] r@[tar_includes@.len() + j]).program@ == "sudo"@
                    &&& r@[tar_includes@.len() + j].args_view() == sync_data_args(
                        name_view(&user.name),
                        seq!["--mkpath"@],
                        path_includes.deep_view()[j],
                        target@ + "/"@ + path_includes.deep_view()[j],
                    )
                },
    {
        let mut r: Vec<Cmd> = Vec::new();
        let mut i: usize = 0;
        while i < tar_includes.len()
            invariant
                i <= tar_includes@.len(),
                r@.len() == i,
                forall|k: int|
                    0 <= k < i ==> {
                        &&& (#[trigger] r@[k]).program@ == "sudo"@
                        &&& r@[k].args_view() == tar_extract_args(
                            name_view(&user.name),
                            target@,
                            tar_includes.deep_view()[k],
                        )
                    },
            decreases tar_includes@.len() - i,
        {
            let mut call = user.run("tar");
            call.arg("-C");
            call.arg(target);
            call.arg("-xf");
            call.arg(tar_includes[i].as_str());
            proof {
                assert(call.args_view() =~= tar_extract_args(
                    name_view(&user.name),
                    target@,
                    tar_includes.deep_view()[i as int],
                ));
            }
            r.push(call);
            i += 1;
        }
        let ghost tn = tar_includes@.len();
        let mut j: usize = 0;
        while j < path_includes.len()
            invariant
                j <= path_includes@.len(),
                r@.len() == tn + j,
                forall|k: int|
                    0 <= k < tn ==> {
                        &&& (#[trigger] r@[k]).program@ == "sudo"@
                        &&& r@[k].args_view() == tar_extract_args(
                            name_view(&user.name),
                            target@,
                            tar_includes.deep_view()[k],
                        )
                    },
                forall|k: int|
                    0 <= k < j ==> {
                        &&& (#[trigger] r@[tn + k]).program@ == "sudo"@
                        &&& r@[tn + k].args_view() == sync_data_args(
                            name_view(&user.name),
                            seq!["--mkpath"@],
                            path_includes.deep_view()[k],
                            target@ + "/"@ + path_includes.deep_view()[k],
                        )
                    },
            decreases path_includes@.len() - j,
        {
            let dest = concat3(target, "/", path_includes[j].as_str());
            let mut opts: Vec<String> = Vec::new();
            opts.push("--mkpath".to_owned());
            proof {
                assert(opts.deep_view() =~~= seq!["--mkpath"@]);
            }
            let call = Self::sync_data(path_includes[j].as_str(), dest.as_str(), &opts, user);
            r.push(call);
            j += 1;
        }
        r
    }
}

} // verus!
