//! The container pilot: identity, the create command, the start
//! decisions, and the per-instance engine calls, all as prepared
//! commands and decisions with exact contracts.
use vstd::prelude::*;

use crate::command::{Cmd, Output};
use crate::defaults;
use crate::error::FlakeError;
use crate::lifecycle::{first_tag, meta_path};
use crate::lookup::{forwarded_args, option_lookup, Lookup};
use crate::podman_config::Config;
use crate::text::{
    chars_of, chars_to_string, concat2, concat3, contains_sub, find_char, find_sub,
    index_of_char, starts_with, subrange_chars,
};
use crate::user::{name_view, run_args, User};

verus! {

/// The identity of a container instance: the program basename, the first
/// `@TAG` argument, an underscore, and the calling user's name.
pub open spec fn cid_identity(
    program: Seq<char>,
    args: Seq<Seq<char>>,
    user_name: Seq<char>,
) -> Seq<char> {
    program + first_tag(args) + "_"@ + user_name
}

/// Identity uniqueness for container instances: within one ID directory,
/// distinct identities never share a container ID file.
pub proof fn lemma_cid_file_injective(
    ids_dir: Seq<char>,
    p1: Seq<char>,
    a1: Seq<Seq<char>>,
    u1: Seq<char>,
    p2: Seq<char>,
    a2: Seq<Seq<char>>,
    u2: Seq<char>,
)
    requires
        cid_identity(p1, a1, u1) != cid_identity(p2, a2, u2),
    ensures
        meta_path(ids_dir, cid_identity(p1, a1, u1), "cid"@) != meta_path(
            ids_dir,
            cid_identity(p2, a2, u2),
            "cid"@,
        ),
{
    crate::lifecycle::lemma_meta_path_injective(
        ids_dir,
        cid_identity(p1, a1, u1),
        cid_identity(p2, a2, u2),
        "cid"@,
    );
}

/// The first `@TAG` argument of the invocation, or nothing.
pub fn first_tag_exec(args: &Vec<String>) -> (r: String)
    ensures
        r@ == first_tag(args.deep_view()),
{
    let mut i: usize = 0;
    proof {
        assert(args.deep_view().subrange(0, args.deep_view().len() as int) =~= args.deep_view());
    }
    while i < args.len()
        invariant
            i <= args@.len(),
            first_tag(args.deep_view()) == first_tag(
                args.deep_view().subrange(i as int, args.deep_view().len() as int),
            ),
        decreases args@.len() - i,
    {
        let ghost sub = args.deep_view().subrange(i as int, args.deep_view().len() as int);
        proof {
            assert(sub[0] == args.deep_view()[i as int]);
            assert(sub.drop_first() =~= args.deep_view().subrange(
                i + 1,
                args.deep_view().len() as int,
            ));
        }
        let a = chars_of(args[i].as_str());
        if a.len() > 0 && a[0] == '@' {
            let r = chars_to_string(&a);
            proof {
                assert(r@ == first_tag(sub));
            }
            return r;
        }
        i += 1;
    }
    proof {
        let empty = args.deep_view().subrange(
            args.deep_view().len() as int,
            args.deep_view().len() as int,
        );
        assert(empty.len() == 0);
    }
    String::new()
}

/// The container ID file of an identity below a resolved ID directory:
/// `<ids_dir>/<program><tag>_<user>.cid`.
pub fn container_cid_file(ids_dir: &str, program: &str, args: &Vec<String>, user_name: &str) -> (r:
    String)
    ensures
        r@ == meta_path(
            ids_dir@,
            cid_identity(program@, args.deep_view(), user_name@),
            "cid"@,
        ),
{
    let tag = first_tag_exec(args);
    let mut s = ids_dir.to_owned();
    s.append("/");
    s.append(program);
    s.append(tag.as_str());
    s.append("_");
    s.append(user_name);
    s.append(".");
    s.append("cid");
    s
}

/// The application path called inside the container: the configured
/// target, or the program name itself.
pub fn get_target_app_path(program_name: &str, config: &Config) -> (r: String)
    ensures
        r@ == target_app_path_spec(program_name@, config),
{
    match &config.container.target_app_path {
        Some(t) => t.as_str().to_owned(),
        None => program_name.to_owned(),
    }
}

/// The target path: the configured one, or the program name.
pub open spec fn target_app_path_spec(program: Seq<char>, config: &Config) -> Seq<char> {
    match config.container.target_app_path {
        Some(t) => t@,
        None => program,
    }
}

/// The commands that create the resolved ID directory with open
/// permissions; the frontend runs them when the directory does not exist
/// yet.
pub fn init_cid_dir(ids_dir: &str) -> (r: (Cmd, Cmd))
    ensures
        r.0.program@ == "sudo"@,
        r.0.args_view() == run_args(Some("root"@), "mkdir"@).push("-p"@).push(
            "-m"@,
        ).push("777"@).push(ids_dir@),
        r.1.program@ == "sudo"@,
        r.1.args_view() == run_args(Some("root"@), "chmod"@).push("777"@).push(
            ids_dir@,
        ),
{
    let root = User::root();
    let r = crate::user::mkdir(ids_dir, "777", &root);
    proof {
        assert(run_args(name_view(&root.name), "mkdir"@) =~~= run_args(
            Some("root"@),
            "mkdir"@,
        ));
    }
    r
}

/// An uppercase letter, as `%VAR` names are made of.
pub open spec fn is_upper(c: char) -> bool {
    65 <= (c as u32) && (c as u32) <= 90
}

/// Whether `c` is an uppercase letter.
fn is_upper_exec(c: char) -> (r: bool)
    ensures
        r == is_upper(c),
{
    let u = c as u32;
    65 <= u && u <= 90
}

/// The length of the uppercase run at the front of `s`.
pub open spec fn upper_run(s: Seq<char>) -> int
    decreases s.len(),
{
    if s.len() == 0 || !is_upper(s[0]) {
        0
    } else {
        1 + upper_run(s.drop_first())
    }
}

/// `s` with each `%NAME` placeholder replaced: by the environment's
/// value of `NAME` when it has one, by `$NAME` otherwise.  Values are
/// inserted literally, in one pass.
pub open spec fn subst_vars(s: Seq<char>, env: Seq<(Seq<char>, Seq<char>)>) -> Seq<char>
    decreases s.len(),
{
    if s.len() == 0 {
        Seq::empty()
    } else if s[0] == '%' && upper_run(s.drop_first()) > 0 && 1 + upper_run(s.drop_first())
        <= s.len() {
        let k = upper_run(s.drop_first());
        let name = s.subrange(1, 1 + k);
        let tail = subst_vars(s.subrange(1 + k, s.len() as int), env);
        (match option_lookup(env, name) {
            Some(v) => v,
            None => seq!['$'] + name,
        }) + tail
    } else {
        seq![s[0]] + subst_vars(s.drop_first(), env)
    }
}

/// Substitute `%NAME` placeholders from the environment pairs.
pub fn subst_vars_exec(s: &Vec<char>, env: &Vec<(String, String)>) -> (r: Vec<char>)
    ensures
        r@ == subst_vars(s@, env.deep_view()),
    decreases s@.len(),
{
    if s.len() == 0 {
        proof {
            assert(Seq::<char>::empty() =~= subst_vars(s@, env.deep_view()));
        }
        return Vec::new();
    }
    if s[0] == '%' {
        let mut k: usize = 0;
        while 1 + k < s.len() && is_upper_exec(s[1 + k])
            invariant
                1 + k <= s@.len(),
                s@.len() > 0,
                s@.len() <= usize::MAX,
                upper_run(s@.drop_first()) == k + upper_run(
                    s@.subrange(1 + k as int, s@.len() as int),
                ),
            decreases s@.len() - k,
        {
            proof {
                let sub = s@.subrange(1 + k as int, s@.len() as int);
                assert(sub[0] == s@[1 + k as int]);
                assert(sub.drop_first() =~= s@.subrange(1 + (k + 1) as int, s@.len() as int));
            }
            k += 1;
        }
        proof {
            let sub = s@.subrange(1 + k as int, s@.len() as int);
            if 1 + k < s@.len() {
                assert(sub[0] == s@[1 + k as int]);
                assert(upper_run(sub) == 0);
            } else {
                assert(sub.len() == 0);
                assert(upper_run(sub) == 0);
            }
            assert(upper_run(s@.drop_first()) == k);
        }
        if k > 0 {
            let name = subrange_chars(s, 1, 1 + k);
            let rest = subrange_chars(s, 1 + k, s.len());
            let tail = subst_vars_exec(&rest, env);
            let name_s = chars_to_string(&name);
            let mut out: Vec<char>;
            match crate::lookup::option_value(env, name_s.as_str()) {
                Some(v) => {
                    out = chars_of(v.as_str());
                },
                None => {
                    out = Vec::new();
                    out.push('$');
                    let mut i: usize = 0;
                    while i < name.len()
                        invariant
                            i <= name@.len(),
                            out@ == seq!['$'] + name@.subrange(0, i as int),
                        decreases name@.len() - i,
                    {
                        out.push(name[i]);
                        proof {
                            assert(out@ =~= seq!['$'] + name@.subrange(0, i + 1 as int));
                        }
                        i += 1;
                    }
                    proof {
                        assert(name@.subrange(0, name@.len() as int) =~= name@);
                    }
                },
            }
            let ghost mid = out@;
            let mut i: usize = 0;
            while i < tail.len()
                invariant
                    i <= tail@.len(),
                    out@ == mid + tail@.subrange(0, i as int),
                decreases tail@.len() - i,
            {
                out.push(tail[i]);
                proof {
                    assert(out@ =~= mid + tail@.subrange(0, i + 1 as int));
                }
                i += 1;
            }
            proof {
                assert(tail@.subrange(0, tail@.len() as int) =~= tail@);
                assert(out@ =~= subst_vars(s@, env.deep_view()));
            }
            return out;
        }
    }
    let rest = subrange_chars(s, 1, s.len());
    proof {
        assert(rest@ =~= s@.drop_first());
    }
    let tail = subst_vars_exec(&rest, env);
    let mut out: Vec<char> = Vec::new();
    out.push(s[0]);
    let ghost mid = out@;
    let mut i: usize = 0;
    while i < tail.len()
        invariant
            i <= tail@.len(),
            out@ == mid + tail@.subrange(0, i as int),
        decreases tail@.len() - i,
    {
        out.push(tail[i]);
        proof {
            assert(out@ =~= mid + tail@.subrange(0, i + 1 as int));
        }
        i += 1;
    }
    proof {
        assert(tail@.subrange(0, tail@.len() as int) =~= tail@);
        assert(out@ =~= subst_vars(s@, env.deep_view()));
    }
    out
}

/// One configured engine option, split at its first space into at most
/// two arguments, each with `%VAR` placeholders substituted.
pub open spec fn engine_opt_args(o: Seq<char>, env: Seq<(Seq<char>, Seq<char>)>) -> Seq<
    Seq<char>,
> {
    match find_char(o, ' ') {
        Some(i) => if 0 <= i < o.len() {
            seq![
                subst_vars(o.subrange(0, i), env),
                subst_vars(o.subrange(i + 1, o.len() as int), env),
            ]
        } else {
            seq![subst_vars(o, env)]
        },
        None => seq![subst_vars(o, env)],
    }
}

/// The engine arguments of all configured options, in order.
pub open spec fn engine_args(opts: Seq<Seq<char>>, env: Seq<(Seq<char>, Seq<char>)>) -> Seq<
    Seq<char>,
>
    decreases opts.len(),
{
    if opts.len() == 0 {
        Seq::empty()
    } else {
        engine_args(opts.drop_last(), env).add(engine_opt_args(opts.last(), env))
    }
}

/// Build the engine arguments of the configured options.
pub fn engine_args_exec(opts: &Vec<String>, env: &Vec<(String, String)>) -> (r: Vec<String>)
    ensures
        r.deep_view() == engine_args(opts.deep_view(), env.deep_view()),
{
    let mut r: Vec<String> = Vec::new();
    let mut i: usize = 0;
    while i < opts.len()
        invariant
            i <= opts@.len(),
            r.deep_view() == engine_args(opts.deep_view().subrange(0, i as int), env.deep_view()),
        decreases opts@.len() - i,
    {
        let ghost prefix = opts.deep_view().subrange(0, i as int);
        let ghost prefix1 = opts.deep_view().subrange(0, i + 1 as int);
        proof {
            assert(prefix1.drop_last() =~= prefix);
            assert(prefix1.last() == opts.deep_view()[i as int]);
        }
        let o = chars_of(opts[i].as_str());
        match index_of_char(&o, ' ') {
            Some(p) => {
                proof {
                    crate::text::lemma_find_char_some(o@, ' ');
                }
                let head = subrange_chars(&o, 0, p);
                let n = o.len();
                let rest = subrange_chars(&o, p + 1, n);
                let h = subst_vars_exec(&head, env);
                let t = subst_vars_exec(&rest, env);
                let ghost r0 = r.deep_view();
                r.push(chars_to_string(&h));
                r.push(chars_to_string(&t));
                proof {
                    assert(r.deep_view() =~~= r0.add(engine_opt_args(
                        opts.deep_view()[i as int],
                        env.deep_view(),
                    )));
                }
            },
            None => {
                let v = subst_vars_exec(&o, env);
                let ghost r0 = r.deep_view();
                r.push(chars_to_string(&v));
                proof {
                    assert(r.deep_view() =~~= r0.add(engine_opt_args(
                        opts.deep_view()[i as int],
                        env.deep_view(),
                    )));
                }
            },
        }
        i += 1;
    }
    proof {
        assert(opts.deep_view().subrange(0, opts.deep_view().len() as int) =~= opts.deep_view());
    }
    r
}

/// The engine create call of one invocation.
///
/// `podman create --cidfile <cid_file>`, then the configured engine
/// options with `%VAR` substituted (or `--tty --interactive` when none
/// are configured), the entrypoint selection, the image (the base
/// container of a delta container, else the name), and finally either
/// the long sleep that keeps a resume instance alive or the forwarded
/// caller arguments.
#[verifier::rlimit(90)]
pub fn create_command(
    program_name: &str,
    args: &Vec<String>,
    config: &Config,
    cid_file: &str,
    env: &Vec<(String, String)>,
    user: &User,
) -> (r: Result<Cmd, FlakeError>)
    requires
        config.wf(),
    ensures
        ({
            let target = target_app_path_spec(program_name@, config);
            let resume = config.spec_resume();
            &&& (r is Err <==> (resume && target == "/"@))
            &&& r matches Err(e) ==> e is UnknownCommand
            &&& r matches Ok(c) ==> {
                &&& c.program@ == "sudo"@
                &&& c.args_view() == create_args_spec(
                    program_name@,
                    args.deep_view(),
                    config,
                    cid_file@,
                    env.deep_view(),
                    name_view(&user.name),
                )
            }
        }),
{
    let rt = config.runtime();
    let target = get_target_app_path(program_name, config);
    let target_c = chars_of(target.as_str());
    let target_is_entry = target_c.len() == 1 && target_c[0] == '/';
    proof {
        reveal_strlit("/");
        assert("/"@.len() == 1);
        if target_is_entry {
            assert(target@ =~= "/"@);
        } else if target@.len() == 1 {
            assert(target@[0] != '/');
            assert(target@ != "/"@);
        } else {
            assert(target@ != "/"@);
        }
    }
    if rt.resume && target_is_entry {
        return Err(FlakeError::UnknownCommand);
    }
    let mut app = user.run("podman");
    app.arg("create");
    app.arg("--cidfile");
    app.arg(cid_file);
    let has_opts = match &rt.podman {
        Some(opts) => opts.len() > 0,
        None => false,
    };
    if has_opts {
        match &rt.podman {
            Some(opts) => {
                let extra = engine_args_exec(opts, env);
                let mut i: usize = 0;
                let ghost base = app.args_view();
                while i < extra.len()
                    invariant
                        i <= extra@.len(),
                        app.program@ == "sudo"@,
                        app.args_view() == base.add(extra.deep_view().subrange(0, i as int)),
                    decreases extra@.len() - i,
                {
                    app.arg(extra[i].as_str());
                    proof {
                        assert(app.args_view() =~= base.add(
                            extra.deep_view().subrange(0, i + 1 as int),
                        ));
                    }
                    i += 1;
                }
                proof {
                    assert(extra.deep_view().subrange(0, extra.deep_view().len() as int)
                        =~= extra.deep_view());
                }
            },
            None => {},
        }
    } else {
        app.arg("--tty");
        app.arg("--interactive");
    }
    if !target_is_entry {
        if rt.resume {
            app.arg("--entrypoint");
            app.arg("sleep");
        } else {
            app.arg("--entrypoint");
            app.arg(target.as_str());
        }
    }
    match &config.container.base_container {
        Some(base) => app.arg(base.as_str()),
        None => app.arg(config.container.name.as_str()),
    }
    if rt.resume {
        // sleep almost forever: keeps the container running so that the
        // application can be executed inside it repeatedly
        app.arg("4294967295d");
    } else {
        let run = Lookup::get_run_cmdline(Vec::new(), args, false);
        let mut i: usize = 0;
        let ghost base = app.args_view();
        while i < run.len()
            invariant
                i <= run@.len(),
                app.program@ == "sudo"@,
                app.args_view() == base.add(run.deep_view().subrange(0, i as int)),
            decreases run@.len() - i,
        {
            app.arg(run[i].as_str());
            proof {
                assert(app.args_view() =~= base.add(run.deep_view().subrange(0, i + 1 as int)));
            }
            i += 1;
        }
        proof {
            assert(run.deep_view().subrange(0, run.deep_view().len() as int) =~= run.deep_view());
            assert(Seq::<Seq<char>>::empty().add(forwarded_args(args.deep_view(), false))
                =~= forwarded_args(args.deep_view(), false));
        }
    }
    proof {
        assert(app.args_view() =~= create_args_spec(
            program_name@,
            args.deep_view(),
            config,
            cid_file@,
            env.deep_view(),
            name_view(&user.name),
        ));
    }
    Ok(app)
}

/// The full argument vector of the engine create call.
pub open spec fn create_args_spec(
    program: Seq<char>,
    args: Seq<Seq<char>>,
    config: &Config,
    cid_file: Seq<char>,
    env: Seq<(Seq<char>, Seq<char>)>,
    name: Option<Seq<char>>,
) -> Seq<Seq<char>> {
    let target = target_app_path_spec(program, config);
    let resume = config.spec_resume();
    let opts = match config.container.runtime {
        Some(rt) => match rt.podman {
            Some(o) => o.deep_view(),
            None => Seq::empty(),
        },
        None => Seq::empty(),
    };
    let engine = if opts.len() > 0 {
        engine_args(opts, env)
    } else {
        seq!["--tty"@, "--interactive"@]
    };
    let entry: Seq<Seq<char>> = if target == "/"@ {
        Seq::empty()
    } else if resume {
        seq!["--entrypoint"@, "sleep"@]
    } else {
        seq!["--entrypoint"@, target]
    };
    let image = match config.container.base_container {
        Some(b) => b@,
        None => config.container.name@,
    };
    let tail: Seq<Seq<char>> = if resume {
        seq!["4294967295d"@]
    } else {
        forwarded_args(args, false)
    };
    run_args(name, "podman"@).push("create"@).push("--cidfile"@).push(cid_file).add(engine).add(
        entry,
    ).push(image).add(tail)
}

/// The layers applied by delta provisioning: the configured layers in
/// declared order, the main container name always last.
pub fn layer_sequence(config: &Config) -> (r: Vec<String>)
    ensures
        r.deep_view() == crate::podman_config::opt_list_view(&config.container.layers).push(
            config.container.name@,
        ),
{
    let mut r = config.layers();
    let ghost base = r.deep_view();
    r.push(config.container.name.as_str().to_owned());
    proof {
        assert(r.deep_view() =~~= base.push(config.container.name@));
    }
    r
}

/// One engine call on an existing instance.
#[derive(Clone, Copy, Debug, PartialEq, Eq, Structural)]
pub enum CallAction {
    /// Attach stdio to the running instance.
    Attach,
    /// Execute the target application inside the running instance.
    Exec,
    /// Start the created instance.
    Start,
    /// Remove the instance, forcing if needed.
    RmForce,
    /// Remove the instance.
    Rm,
}

/// The start decisions of one invocation (P7's second call included):
/// a running instance is attached to or exec'd into; a stopped resume
/// instance is started and exec'd; a one-shot instance is started
/// attached and then removed (unless attach mode keeps a created one);
/// `%remove` appends a removal when none happened yet.
pub fn start_actions(
    is_running: bool,
    is_created: bool,
    resume: bool,
    attach: bool,
    remove_requested: bool,
) -> (r: Vec<CallAction>)
    ensures
        is_running && attach ==> r@ == with_remove(seq![CallAction::Attach], remove_requested),
        is_running && !attach ==> r@ == with_remove(seq![CallAction::Exec], remove_requested),
        !is_running && resume ==> r@ == with_remove(
            seq![CallAction::Start, CallAction::Exec],
            remove_requested,
        ),
        !is_running && !resume && (!attach || !is_created) ==> r@ == seq![
            CallAction::Start,
            CallAction::RmForce,
        ],
        !is_running && !resume && attach && is_created ==> r@ == with_remove(
            seq![CallAction::Start],
            remove_requested,
        ),
{
    let mut r: Vec<CallAction> = Vec::new();
    let mut removed = false;
    if is_running {
        if attach {
            r.push(CallAction::Attach);
        } else {
            r.push(CallAction::Exec);
        }
    } else if resume {
        r.push(CallAction::Start);
        r.push(CallAction::Exec);
    } else {
        r.push(CallAction::Start);
        if !attach || !is_created {
            r.push(CallAction::RmForce);
            removed = true;
        }
    }
    if remove_requested && !removed {
        r.push(CallAction::RmForce);
    }
    proof {
        if is_running && attach {
            assert(r@ =~= with_remove(seq![CallAction::Attach], remove_requested));
        } else if is_running {
            assert(r@ =~= with_remove(seq![CallAction::Exec], remove_requested));
        } else if resume {
            assert(r@ =~= with_remove(
                seq![CallAction::Start, CallAction::Exec],
                remove_requested,
            ));
        } else if !attach || !is_created {
            assert(r@ =~= seq![CallAction::Start, CallAction::RmForce]);
        } else {
            assert(r@ =~= with_remove(seq![CallAction::Start], remove_requested));
        }
    }
    r
}

/// `actions`, with a forced removal appended when requested.
pub open spec fn with_remove(actions: Seq<CallAction>, remove_requested: bool) -> Seq<
    CallAction,
> {
    if remove_requested {
        actions.push(CallAction::RmForce)
    } else {
        actions.push(CallAction::RmForce).drop_last()
    }
}

/// The engine call for one action on the instance `cid`.
///
/// Removals force; an exec is interactive with a terminal and carries
/// the target application and the forwarded caller arguments; a start
/// of a one-shot instance attaches.
pub fn call_instance(
    action: &CallAction,
    cid: &str,
    program_name: &str,
    args: &Vec<String>,
    config: &Config,
    user: &User,
) -> (r: Cmd)
    ensures
        r.program@ == "sudo"@,
        r.args_view() == call_instance_args(
            action,
            cid@,
            program_name@,
            args.deep_view(),
            config,
            name_view(&user.name),
        ),
{
    let mut call = user.run("podman");
    match action {
        CallAction::Rm | CallAction::RmForce => {
            call.arg("rm");
            call.arg("--force");
            call.arg(cid);
        },
        CallAction::Attach => {
            call.arg("attach");
            call.arg(cid);
        },
        CallAction::Exec => {
            call.arg("exec");
            call.arg("--interactive");
            call.arg("--tty");
            call.arg(cid);
            let target = get_target_app_path(program_name, config);
            call.arg(target.as_str());
            let run = Lookup::get_run_cmdline(Vec::new(), args, false);
            let mut i: usize = 0;
            let ghost base = call.args_view();
            while i < run.len()
                invariant
                    i <= run@.len(),
                    call.program@ == "sudo"@,
                    call.args_view() == base.add(run.deep_view().subrange(0, i as int)),
                decreases run@.len() - i,
            {
                call.arg(run[i].as_str());
                proof {
                    assert(call.args_view() =~= base.add(
                        run.deep_view().subrange(0, i + 1 as int),
                    ));
                }
                i += 1;
            }
            proof {
                assert(run.deep_view().subrange(0, run.deep_view().len() as int)
                    =~= run.deep_view());
                assert(Seq::<Seq<char>>::empty().add(forwarded_args(args.deep_view(), false))
                    =~= forwarded_args(args.deep_view(), false));
            }
        },
        CallAction::Start => {
            call.arg("start");
            if !config_resume(config) {
                call.arg("--attach");
            }
            call.arg(cid);
        },
    }
    proof {
        assert(call.args_view() =~= call_instance_args(
            action,
            cid@,
            program_name@,
            args.deep_view(),
            config,
            name_view(&user.name),
        ));
    }
    call
}

/// Whether resume mode is configured.
pub fn config_resume(config: &Config) -> (r: bool)
    ensures
        r == config.spec_resume(),
{
    match &config.container.runtime {
        Some(rt) => rt.resume,
        None => false,
    }
}

/// The argument vector of one engine call on an instance.
pub open spec fn call_instance_args(
    action: &CallAction,
    cid: Seq<char>,
    program: Seq<char>,
    args: Seq<Seq<char>>,
    config: &Config,
    name: Option<Seq<char>>,
) -> Seq<Seq<char>> {
    let base = run_args(name, "podman"@);
    match action {
        CallAction::Rm | CallAction::RmForce => base.push("rm"@).push("--force"@).push(cid),
        CallAction::Attach => base.push("attach"@).push(cid),
        CallAction::Exec => base.push("exec"@).push("--interactive"@).push("--tty"@).push(
            cid,
        ).push(target_app_path_spec(program, config)).add(forwarded_args(args, false)),
        CallAction::Start => if config.spec_resume() {
            base.push("start"@).push(cid)
        } else {
            base.push("start"@).push("--attach"@).push(cid)
        },
    }
}

/// The engine mount call: the merged filesystem of a container (or of an
/// image) is exposed as a host path, printed on the call's stdout.
pub fn mount_container(container_name: &str, as_image: bool) -> (r: Cmd)
    ensures
        r.program@ == "sudo"@,
        as_image ==> r.args_view() == run_args(Some("root"@), "podman"@).push(
            "image"@,
        ).push("mount"@).push(container_name@),
        !as_image ==> r.args_view() == run_args(Some("root"@), "podman"@).push(
            "mount"@,
        ).push(container_name@),
{
    let root = User::root();
    let mut call = root.run("podman");
    proof {
        assert(run_args(name_view(&root.name), "podman"@) =~~= run_args(
            Some("root"@),
            "podman"@,
        ));
    }
    if as_image {
        call.arg("image");
        call.arg("mount");
    } else {
        call.arg("mount");
    }
    call.arg(container_name);
    call
}

/// The engine unmount call, the inverse of `mount_container`.
pub fn umount_container(mount_point: &str, as_image: bool) -> (r: Cmd)
    ensures
        r.program@ == "sudo"@,
        as_image ==> r.args_view() == run_args(Some("root"@), "podman"@).push(
            "image"@,
        ).push("umount"@).push(mount_point@),
        !as_image ==> r.args_view() == run_args(Some("root"@), "podman"@).push(
            "umount"@,
        ).push(mount_point@),
{
    let root = User::root();
    let mut call = root.run("podman");
    proof {
        assert(run_args(name_view(&root.name), "podman"@) =~~= run_args(
            Some("root"@),
            "podman"@,
        ));
    }
    if as_image {
        call.arg("image");
        call.arg("umount");
    } else {
        call.arg("umount");
    }
    call.arg(mount_point);
    call
}

/// The image fetch: `podman pull <uri>` and the prune that follows a
/// successful pull.
pub fn pull(uri: &str, user: &User) -> (r: (Cmd, Cmd))
    ensures
        r.0.program@ == "sudo"@,
        r.0.args_view() == run_args(name_view(&user.name), "podman"@).push("pull"@).push(uri@),
        r.1.program@ == "sudo"@,
        r.1.args_view() == run_args(name_view(&user.name), "podman"@).push("image"@).push("prune"@).push(
            "--force"@,
        ),
{
    let mut pull_call = user.run("podman");
    pull_call.arg("pull");
    pull_call.arg(uri);
    let mut prune = user.run("podman");
    prune.arg("image");
    prune.arg("prune");
    prune.arg("--force");
    (pull_call, prune)
}

/// The existence probe of a container: success means it exists.
pub fn container_exists_cmd(cid: &str, user: &User) -> (r: Cmd)
    ensures
        r.program@ == "sudo"@,
        r.args_view() == run_args(name_view(&user.name), "podman"@).push("container"@).push("exists"@).push(
            cid@,
        ),
{
    let mut call = user.run("podman");
    call.arg("container");
    call.arg("exists");
    call.arg(cid);
    call
}

/// The image presence probe: success means the image is in the local
/// registry.
pub fn container_image_exists(name: &str, user: &User) -> (r: Cmd)
    ensures
        r.program@ == "sudo"@,
        r.args_view() == run_args(name_view(&user.name), "podman"@).push("image"@).push(
            "exists"@,
        ).push(name@),
{
    let mut call = user.run("podman");
    call.arg("image");
    call.arg("exists");
    call.arg(name);
    call
}

/// The listing of running container IDs, one per line.
pub fn container_ps_cmd(user: &User) -> (r: Cmd)
    ensures
        r.program@ == "sudo"@,
        r.args_view() == run_args(name_view(&user.name), "podman"@).push("ps"@).push("--format"@).push(
            "{{.ID}}"@,
        ),
{
    let mut call = user.run("podman");
    call.arg("ps");
    call.arg("--format");
    call.arg("{{.ID}}");
    call
}

/// Whether the listing shows the instance: some listed (truncated) ID is
/// a prefix of the instance's full ID.
pub fn container_running(cid: &str, running_ids: &Vec<String>) -> (r: bool)
    ensures
        r == exists|i: int|
            0 <= i < running_ids.deep_view().len() && starts_with(
                cid@,
                #[trigger] running_ids.deep_view()[i],
            ),
{
    let cid_chars = chars_of(cid);
    let mut i: usize = 0;
    while i < running_ids.len()
        invariant
            i <= running_ids@.len(),
            cid_chars@ == cid@,
            forall|j: int|
                0 <= j < i ==> !starts_with(cid@, #[trigger] running_ids.deep_view()[j]),
        decreases running_ids@.len() - i,
    {
        let p = chars_of(running_ids[i].as_str());
        if p.len() <= cid_chars.len() {
            let front = subrange_chars(&cid_chars, 0, p.len());
            if crate::yamlmerge::chars_eq(&front, &p) {
                proof {
                    assert(starts_with(cid@, running_ids.deep_view()[i as int]));
                }
                return true;
            }
        }
        proof {
            assert(!starts_with(cid@, running_ids.deep_view()[i as int]));
        }
        i += 1;
    }
    false
}

/// Whether an engine failure is a permission problem that a storage
/// ownership repair may fix.
pub fn is_permission_error(message: &str) -> (r: bool)
    ensures
        r == (contains_sub(message@, "not permitted"@) || contains_sub(
            message@,
            "permission denied"@,
        )),
{
    let m = chars_of(message);
    let p1 = chars_of("not permitted");
    let p2 = chars_of("permission denied");
    proof {
        reveal_strlit("not permitted");
        reveal_strlit("permission denied");
    }
    let a = find_sub(&m, &p1);
    let b = find_sub(&m, &p2);
    a || b
}

/// The host-dependency generator call: run the guest's `systemfiles`
/// script; its stdout lists the host paths to synchronise.
pub fn build_system_dependencies_cmd(target: &str, dependency_file: &str, user: &User) -> (r:
    Cmd)
    ensures
        r.program@ == "sudo"@,
        r.args_view() == run_args(name_view(&user.name), "sh"@).push(target@ + "/"@ + dependency_file@),
{
    let script = concat3(target, "/", dependency_file);
    let mut call = user.run("sh");
    call.arg(script.as_str());
    call
}

/// What running the host-dependency generator produced.
///
/// With no script in the image nothing is appended; a successful run
/// hands back its stdout, the newline-delimited path list to append; a
/// non-zero exit, and a script that could not be run at all, are fatal.
pub fn build_system_dependencies(script_exists: bool, run: Option<Output>) -> (r: Result<
    Option<Vec<u8>>,
    FlakeError,
>)
    ensures
        !script_exists ==> r == Ok::<Option<Vec<u8>>, FlakeError>(None),
        script_exists ==> match run {
            Some(o) => {
                &&& o.is_success() ==> (r matches Ok(b) && b matches Some(data) && data@
                    == o.stdout@)
                &&& !o.is_success() ==> (r matches Err(e) && e matches FlakeError::IOError { .. })
            },
            None => r matches Err(e) && e matches FlakeError::IOError { .. },
        },
{
    if !script_exists {
        return Ok(None);
    }
    match run {
        Some(o) => {
            if o.success() {
                Ok(Some(o.stdout))
            } else {
                Err(
                    FlakeError::IOError {
                        kind: "system deps generator failed".to_owned(),
                        message: "the generator script exited non-zero".to_owned(),
                    },
                )
            }
        },
        None => Err(
            FlakeError::IOError {
                kind: "call failed".to_owned(),
                message: "the generator script could not be run".to_owned(),
            },
        ),
    }
}

/// The host-dependency transfer: `rsync -av [--ignore-missing-args]
/// --files-from <target>/<from> / <target>/`.
pub fn sync_host_cmd(target: &str, from: &str, ignore_missing: bool, user: &User) -> (r: Cmd)
    ensures
        r.program@ == "sudo"@,
        r.args_view() == sync_host_args(name_view(&user.name), target@, from@, ignore_missing),
{
    let files_from = concat3(target, "/", from);
    let target_slash = concat2(target, "/");
    let mut call = user.run("rsync");
    call.arg("-av");
    if ignore_missing {
        call.arg("--ignore-missing-args");
    }
    call.arg("--files-from");
    call.arg(files_from.as_str());
    call.arg("/");
    call.arg(target_slash.as_str());
    proof {
        assert(call.args_view() =~= sync_host_args(name_view(&user.name), target@, from@, ignore_missing));
    }
    call
}

/// The argument vector of the host-dependency transfer.
pub open spec fn sync_host_args(
    name: Option<Seq<char>>,
    target: Seq<char>,
    from: Seq<char>,
    ignore_missing: bool,
) -> Seq<Seq<char>> {
    let base = run_args(name, "rsync"@).push("-av"@);
    let base2 = if ignore_missing {
        base.push("--ignore-missing-args"@)
    } else {
        base
    };
    base2.push("--files-from"@).push(target + "/"@ + from).push("/"@).push(target + "/"@)
}

/// The garbage-collection decision for one container ID file: a
/// container the engine still knows is kept; a dead one's ID file is
/// removed.
pub fn gc_cid_file(container_exists: bool) -> (r: (bool, bool))
    ensures
        r.0 == container_exists,
        r.1 == !container_exists,
{
    (container_exists, !container_exists)
}

} // verus!
