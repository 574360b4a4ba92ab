//! The elevation wrapper: running a program as a chosen user.
//!
//! Elevation goes through the setuid helper `sudo` with the caller's
//! environment preserved; a `--user` selector is inserted only when a
//! user was named.
use vstd::prelude::*;

use crate::command::Cmd;

verus! {

/// The identity a command should run as; `None` is the helper's default.
pub struct User {
    pub name: Option<String>,
}

impl User {
    /// The root identity.
    pub fn root() -> (r: User)
        ensures
            r.name matches Some(n) && n@ == "root"@,
    {
        User { name: Some("root".to_owned()) }
    }

    /// The identity named `value`.
    pub fn from_name(value: &str) -> (r: User)
        ensures
            r.name matches Some(n) && n@ == value@,
    {
        User { name: Some(value.to_owned()) }
    }

    /// An unnamed identity.
    pub fn none() -> (r: User)
        ensures
            r.name is None,
    {
        User { name: None }
    }

    /// The user's name, or the empty string when none was given.
    pub fn get_name(&self) -> (r: String)
        ensures
            match self.name {
                Some(n) => r@ == n@,
                None => r@.len() == 0,
            },
    {
        match &self.name {
            Some(n) => n.as_str().to_owned(),
            None => String::new(),
        }
    }

    /// The prepared elevation call for `command`:
    /// `sudo --preserve-env [--user <name>] <command>`.
    pub fn run(&self, command: &str) -> (r: Cmd)
        ensures
            r.program@ == "sudo"@,
            r.args_view() == run_args(name_view(&self.name), command@),
    {
        let mut c = Cmd::new("sudo");
        c.arg("--preserve-env");
        match &self.name {
            Some(n) => {
                c.arg("--user");
                c.arg(n.as_str());
            },
            None => {},
        }
        c.arg(command);
        proof {
            assert(c.args_view() =~= run_args(name_view(&self.name), command@));
        }
        c
    }
}

/// The name of an optional user, as characters.
pub open spec fn name_view(name: &Option<String>) -> Option<Seq<char>> {
    match name {
        Some(n) => Some(n@),
        None => None,
    }
}

/// The argument vector of an elevation call.
pub open spec fn run_args(name: Option<Seq<char>>, command: Seq<char>) -> Seq<Seq<char>> {
    match name {
        Some(n) => seq!["--preserve-env"@, "--user"@, n, command],
        None => seq!["--preserve-env"@, command],
    }
}

/// The prepared existence probe for `filename`: `test -e <filename>`,
/// elevated; the file exists exactly when the probe exits successfully.
pub fn exists_probe(filename: &str, user: &User) -> (r: Cmd)
    ensures
        r.program@ == "sudo"@,
        r.args_view() == run_args(name_view(&user.name), "test"@).push("-e"@).push(filename@),
{
    let mut call = user.run("test");
    call.arg("-e");
    call.arg(filename);
    call
}

/// The prepared elevated copy of `source` to `target`.
pub fn cp(source: &str, target: &str, user: &User) -> (r: Cmd)
    ensures
        r.program@ == "sudo"@,
        r.args_view() == run_args(name_view(&user.name), "cp"@).push(source@).push(target@),
{
    let mut call = user.run("cp");
    call.arg(source);
    call.arg(target);
    call
}

/// The prepared elevated mode change of `filename` to `mode`.
pub fn chmod(filename: &str, mode: &str, user: &User) -> (r: Cmd)
    ensures
        r.program@ == "sudo"@,
        r.args_view() == run_args(name_view(&user.name), "chmod"@).push(mode@).push(filename@),
{
    let mut call = user.run("chmod");
    call.arg(mode);
    call.arg(filename);
    call
}

/// The prepared elevated creation of `dirname` with `mode`: a recursive
/// `mkdir` followed by a `chmod` that fixes the mode of an existing leaf.
/// The frontend runs the pair only when the (symlink-resolved) directory
/// does not exist yet.
pub fn mkdir(dirname: &str, mode: &str, user: &User) -> (r: (Cmd, Cmd))
    ensures
        r.0.program@ == "sudo"@,
        r.0.args_view() == run_args(name_view(&user.name), "mkdir"@).push("-p"@).push("-m"@).push(
            mode@,
        ).push(dirname@),
        r.1.program@ == "sudo"@,
        r.1.args_view() == run_args(name_view(&user.name), "chmod"@).push(mode@).push(dirname@),
{
    let mut mkdir_call = user.run("mkdir");
    mkdir_call.arg("-p");
    mkdir_call.arg("-m");
    mkdir_call.arg(mode);
    mkdir_call.arg(dirname);
    let chmod_call = chmod(dirname, mode, user);
    (mkdir_call, chmod_call)
}

} // verus!
