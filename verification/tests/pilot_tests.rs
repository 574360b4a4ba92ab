use flake_pilot::command::{handle_output, Output, ProcessError};
use flake_pilot::container::Container;
use flake_pilot::ctl;
use flake_pilot::error::{report_exit_code, FlakeError};
use flake_pilot::firecracker;
use flake_pilot::io::IO;
use flake_pilot::lifecycle;
use flake_pilot::lifecycle::InstanceAction;
use flake_pilot::lookup::Lookup;
use flake_pilot::podman;
use flake_pilot::podman::CallAction;
use flake_pilot::podman_config;
use flake_pilot::provision::MountTracker;
use flake_pilot::user::User;

fn strings(v: &[&str]) -> Vec<String> {
    v.iter().map(|s| s.to_string()).collect()
}

#[test]
fn user_run_builds_elevation_call() {
    let user = User::from_name("bob");
    let cmd = user.run("podman");
    assert_eq!(cmd.program, "sudo");
    assert_eq!(cmd.args, strings(&["--preserve-env", "--user", "bob", "podman"]));
    let anon = User::none();
    let cmd = anon.run("true");
    assert_eq!(cmd.args, strings(&["--preserve-env", "true"]));
}

#[test]
fn mkdir_builds_create_and_mode_fix() {
    let root = User::root();
    let (mk, ch) = flake_pilot::user::mkdir("/tmp/flakes", "777", &root);
    assert_eq!(
        mk.args,
        strings(&["--preserve-env", "--user", "root", "mkdir", "-p", "-m", "777", "/tmp/flakes"])
    );
    assert_eq!(ch.args, strings(&["--preserve-env", "--user", "root", "chmod", "777", "/tmp/flakes"]));
}

#[test]
fn run_cmdline_filters_pilot_arguments() {
    let args = strings(&["@tag", "%silent", "hello", "world"]);
    let run = Lookup::get_run_cmdline(Vec::new(), &args, false);
    assert_eq!(run, strings(&["hello", "world"]));
}

#[test]
fn run_cmdline_escapes_dashes_for_kernel() {
    let args = strings(&["-v", "--x"]);
    let run = Lookup::get_run_cmdline(vec!["/bin/app".to_string()], &args, true);
    assert_eq!(run, strings(&["/bin/app", "\\-v", "\\-\\-x"]));
}

#[test]
fn pilot_options_split_names_and_values() {
    let args = strings(&["%silent", "%port:9000", "plain", "%ignore_sync_error"]);
    let opts = Lookup::get_pilot_run_options(&args);
    assert_eq!(
        opts,
        vec![
            ("%silent".to_string(), "".to_string()),
            ("%port".to_string(), "9000".to_string()),
            ("%ignore_sync_error".to_string(), "".to_string()),
        ]
    );
    assert!(flake_pilot::lookup::has_option(&opts, "%silent"));
    assert_eq!(flake_pilot::lookup::option_value(&opts, "%port").as_deref(), Some("9000"));
    assert!(!flake_pilot::lookup::has_option(&opts, "%remove"));
}

#[test]
fn cid_file_carries_identity() {
    let args = strings(&["@blue", "hello"]);
    let path = podman::container_cid_file("/tmp/flakes", "myapp", &args, "bob");
    assert_eq!(path, "/tmp/flakes/myapp@blue_bob.cid");
    let other = podman::container_cid_file("/tmp/flakes", "myapp", &strings(&["hello"]), "bob");
    assert_eq!(other, "/tmp/flakes/myapp_bob.cid");
    assert_ne!(path, other);
}

#[test]
fn meta_names_concatenate_all_tags() {
    let args = strings(&["@a", "x", "@b"]);
    assert_eq!(firecracker::get_meta_name("vmapp", &args), "vmapp@a@b");
    assert_eq!(
        firecracker::get_meta_file_name("vmapp", &args, "/tmp/flakes", "vmid"),
        "/tmp/flakes/vmapp@a@b.vmid"
    );
    assert_eq!(firecracker::vsock_uds_path("vmapp", &args), "/run/sci_cmd_vmapp@a@b.sock");
}

// Container create, no delta: the engine argv of `myapp hello world`
// against an `alpine` image with target /bin/echo.
#[test]
fn container_create_no_delta() {
    let cfg = podman_config::config_from_str(
        "container:\n name: alpine\n host_app_path: /usr/bin/myapp\n target_app_path: /bin/echo\ninclude:\n tar: ~\n",
    )
    .unwrap();
    let args = strings(&["hello", "world"]);
    let user = User::from_name("bob");
    let env: Vec<(String, String)> = Vec::new();
    let cid_file = podman::container_cid_file("/tmp/flakes", "myapp", &args, "bob");
    let cmd = podman::create_command("myapp", &args, &cfg, &cid_file, &env, &user).unwrap();
    assert_eq!(cmd.program, "sudo");
    assert_eq!(
        cmd.args,
        strings(&[
            "--preserve-env", "--user", "bob", "podman", "create", "--cidfile",
            "/tmp/flakes/myapp_bob.cid", "--tty", "--interactive", "--entrypoint", "/bin/echo",
            "alpine", "hello", "world",
        ])
    );
}

// Container resume: the create uses a sleep entrypoint, and the second
// invocation against the live instance execs instead of creating.
#[test]
fn container_resume_second_call() {
    let cfg = podman_config::config_from_str(
        "container:\n name: alpine\n host_app_path: /usr/bin/myapp\n target_app_path: /bin/echo\n runtime:\n  resume: true\ninclude:\n tar: ~\n",
    )
    .unwrap();
    let args = strings(&["again"]);
    let user = User::none();
    let env: Vec<(String, String)> = Vec::new();
    let cmd = podman::create_command("myapp", &args, &cfg, "/tmp/flakes/myapp_.cid", &env, &user)
        .unwrap();
    assert_eq!(
        cmd.args,
        strings(&[
            "--preserve-env", "podman", "create", "--cidfile", "/tmp/flakes/myapp_.cid", "--tty",
            "--interactive", "--entrypoint", "sleep", "alpine", "4294967295d",
        ])
    );
    // second call: the ID file exists and the probe shows the instance
    // alive, so no create happens and the engine execs the target
    let (remove_stale, action) = lifecycle::decide_invocation(true, true, true, false);
    assert!(!remove_stale);
    assert_eq!(action, InstanceAction::ExecResume);
    let actions = podman::start_actions(true, true, true, false, false);
    assert_eq!(actions, vec![CallAction::Exec]);
    let exec = podman::call_instance(&CallAction::Exec, "cid123", "myapp", &args, &cfg, &user);
    assert_eq!(
        exec.args,
        strings(&[
            "--preserve-env", "podman", "exec", "--interactive", "--tty", "cid123", "/bin/echo",
            "again",
        ])
    );
}

// Container delta: layers are applied in declared order, the main name
// always last.
#[test]
fn container_delta_layer_order() {
    let cfg = podman_config::config_from_str(
        "container:\n name: myapp-ovl\n host_app_path: /usr/bin/myapp\n base_container: ubi9\n layers:\n  - patch1\ninclude:\n tar: ~\n",
    )
    .unwrap();
    assert!(cfg.is_delta_container());
    assert_eq!(podman::layer_sequence(&cfg), strings(&["patch1", "myapp-ovl"]));
    // the create call names the base container as its image
    let env: Vec<(String, String)> = Vec::new();
    let user = User::none();
    let cmd = podman::create_command("myapp", &Vec::new(), &cfg, "/tmp/f.cid", &env, &user)
        .unwrap();
    assert!(cmd.args.contains(&"ubi9".to_string()));
    assert!(!cmd.args.contains(&"myapp-ovl".to_string()));
}

#[test]
fn create_refuses_resume_of_entrypoint_target() {
    let cfg = podman_config::Config {
        container: podman_config::ContainerSection {
            name: "alpine".to_string(),
            target_app_path: None,
            host_app_path: "/usr/bin/myapp".to_string(),
            base_container: None,
            layers: None,
            check_host_dependencies: false,
            runtime: Some(podman_config::RuntimeSection {
                runas: User::none(),
                resume: true,
                attach: false,
                podman: None,
            }),
        },
        includes: podman_config::IncludeSection { tar: None, path: None },
    };
    let env: Vec<(String, String)> = Vec::new();
    let user = User::none();
    let r = podman::create_command("/", &Vec::new(), &cfg, "/tmp/f.cid", &env, &user);
    assert!(matches!(r, Err(FlakeError::UnknownCommand)));
}

#[test]
fn engine_options_substitute_environment() {
    let env = vec![("SIZE".to_string(), "10G".to_string())];
    let opts = strings(&["--storage-opt size=%SIZE", "-ti"]);
    let args = podman::engine_args_exec(&opts, &env);
    assert_eq!(args, strings(&["--storage-opt", "size=10G", "-ti"]));
    let unset: Vec<(String, String)> = Vec::new();
    let args = podman::engine_args_exec(&strings(&["size=%SIZE"]), &unset);
    assert_eq!(args, strings(&["size=$SIZE"]));
}

#[test]
fn permission_errors_are_recognized() {
    assert!(podman::is_permission_error("mount: operation not permitted"));
    assert!(podman::is_permission_error("open: permission denied"));
    assert!(!podman::is_permission_error("no such file or directory"));
}

#[test]
fn running_listing_matches_by_prefix() {
    let listed = strings(&["0fa1", "77bc"]);
    assert!(podman::container_running("77bc9e2", &listed));
    assert!(!podman::container_running("aa00", &listed));
}

#[test]
fn handle_output_classifies_results() {
    let args = strings(&["podman", "create"]);
    let ok = Output { code: Some(0), stdout: b"cid".to_vec(), stderr: Vec::new() };
    assert!(handle_output(Ok(ok), &args).is_ok());
    let bad = Output { code: Some(2), stdout: Vec::new(), stderr: b"oops".to_vec() };
    let err = handle_output(Ok(bad), &args).unwrap_err();
    assert!(matches!(err.base, ProcessError::ExecutionError(_)));
    assert_eq!(err.args, args);
    let err = handle_output(Err("spawn failed".to_string()), &args).unwrap_err();
    assert!(matches!(err.base, ProcessError::IO(_)));
}

#[test]
fn engine_exit_code_is_forwarded_truncated() {
    let failed = FlakeError::CommandError(flake_pilot::command::CommandError {
        base: ProcessError::ExecutionError(Output {
            code: Some(300),
            stdout: Vec::new(),
            stderr: Vec::new(),
        }),
        args: Vec::new(),
    });
    assert_eq!(report_exit_code(&failed), 44);
    assert_eq!(report_exit_code(&FlakeError::AlreadyRunning), 1);
    assert_eq!(
        report_exit_code(&FlakeError::OperationError(
            flake_pilot::error::OperationError::MaxTriesExceeded
        )),
        1
    );
}

#[test]
fn sync_outcome_reports_incomplete_transfers() {
    let ok = Output { code: Some(0), stdout: Vec::new(), stderr: Vec::new() };
    assert!(IO::sync_outcome(&ok).is_ok());
    let bad = Output { code: Some(23), stdout: Vec::new(), stderr: Vec::new() };
    assert!(matches!(IO::sync_outcome(&bad), Err(FlakeError::SyncFailed)));
}

#[test]
fn sync_includes_builds_tar_then_path_transfers() {
    let root = User::root();
    let cmds = IO::sync_includes(
        "/mnt/inst",
        &strings(&["/tmp/a.tar"]),
        &strings(&["/etc/hosts"]),
        &root,
    );
    assert_eq!(cmds.len(), 2);
    assert_eq!(
        cmds[0].args,
        strings(&["--preserve-env", "--user", "root", "tar", "-C", "/mnt/inst", "-xf", "/tmp/a.tar"])
    );
    assert_eq!(
        cmds[1].args,
        strings(&[
            "--preserve-env", "--user", "root", "rsync", "-av", "--mkpath", "/etc/hosts",
            "/mnt/inst//etc/hosts",
        ])
    );
}

#[test]
fn sync_host_transfers_accumulated_list() {
    let root = User::root();
    let cmd = podman::sync_host_cmd("/mnt/inst", "removed", true, &root);
    assert_eq!(
        cmd.args,
        strings(&[
            "--preserve-env", "--user", "root", "rsync", "-av", "--ignore-missing-args",
            "--files-from", "/mnt/inst/removed", "/", "/mnt/inst/",
        ])
    );
}

// Provisioning atomicity: after any failure the tracker unwinds every
// mount, innermost first, and holds nothing.
#[test]
fn unwind_releases_all_mounts_in_reverse_order() {
    let root = User::root();
    let mut tracker = MountTracker::new();
    tracker.acquire("/tmp/prov/image");
    tracker.acquire("/tmp/prov/overlayroot");
    tracker.acquire("/tmp/prov/overlayroot/rootfs");
    let cmds = tracker.unwind(&root);
    assert_eq!(tracker.mounts.len(), 0);
    let points: Vec<String> = cmds.iter().map(|c| c.args[c.args.len() - 1].clone()).collect();
    assert_eq!(
        points,
        strings(&["/tmp/prov/overlayroot/rootfs", "/tmp/prov/overlayroot", "/tmp/prov/image"])
    );
}

// Stale ID GC: a directory over the threshold is swept, and every dead
// identity loses its ID file and socket (and a non-resume overlay).
#[test]
fn stale_id_gc_sweeps_all_dead_instances() {
    assert!(!lifecycle::gc_needed(20));
    assert!(lifecycle::gc_needed(21));
    let mut removed = 0;
    for _ in 0..21 {
        let plan = lifecycle::gc_decision(false, false, true, true);
        assert!(plan.remove_id_file);
        assert!(plan.remove_socket);
        assert!(plan.remove_overlay);
        removed += 1;
    }
    assert_eq!(removed, 21);
    // a resume VM keeps its overlay, which holds user state
    let plan = lifecycle::gc_decision(false, true, true, true);
    assert!(plan.remove_id_file && plan.remove_socket && !plan.remove_overlay);
    // a live instance is untouched
    let plan = lifecycle::gc_decision(true, false, true, true);
    assert!(!plan.remove_id_file && !plan.remove_socket && !plan.remove_overlay);
}

#[test]
fn invocation_decisions_follow_the_lifecycle() {
    assert_eq!(lifecycle::decide_invocation(false, false, false, false), (false, InstanceAction::Create));
    assert_eq!(lifecycle::decide_invocation(true, false, true, false), (true, InstanceAction::Create));
    assert_eq!(lifecycle::decide_invocation(true, true, false, true), (false, InstanceAction::Attach));
    assert_eq!(
        lifecycle::decide_invocation(true, true, false, false),
        (false, InstanceAction::FailAlreadyRunning)
    );
}

#[test]
fn one_shot_start_removes_the_instance() {
    let actions = podman::start_actions(false, true, false, false, false);
    assert_eq!(actions, vec![CallAction::Start, CallAction::RmForce]);
    let actions = podman::start_actions(true, true, false, false, true);
    assert_eq!(actions, vec![CallAction::Exec, CallAction::RmForce]);
}

#[test]
fn mount_and_umount_container_commands() {
    let m = podman::mount_container("cid42", false);
    assert_eq!(m.args, strings(&["--preserve-env", "--user", "root", "podman", "mount", "cid42"]));
    let mi = podman::mount_container("ubi9", true);
    assert_eq!(
        mi.args,
        strings(&["--preserve-env", "--user", "root", "podman", "image", "mount", "ubi9"])
    );
    let u = podman::umount_container("cid42", false);
    assert_eq!(u.args, strings(&["--preserve-env", "--user", "root", "podman", "umount", "cid42"]));
}

#[test]
fn storage_permission_repair_names_the_registry() {
    let c = Container::podman_setup_permissions(1000, 100);
    assert_eq!(
        c.args,
        strings(&[
            "--preserve-env", "--user", "root", "chown", "-R", "1000:100",
            "/usr/share/flakes/storage",
        ])
    );
    let c = Container::podman_setup_run_permissions(1000, 100);
    assert_eq!(
        c.args,
        strings(&[
            "--preserve-env", "--user", "root", "chown", "-R", "1000:100", "/run/libpod",
            "/run/flakes",
        ])
    );
}

#[test]
fn ctl_calls_use_the_engine_path() {
    let (pull, prune) = ctl::pull(&"registry/ubi9".to_string());
    assert_eq!(pull.args, strings(&["--preserve-env", "/usr/bin/podman", "pull", "registry/ubi9"]));
    assert_eq!(
        prune.args,
        strings(&["--preserve-env", "/usr/bin/podman", "image", "prune", "--force"])
    );
    let load = ctl::load(&"/tmp/app.tar".to_string());
    assert_eq!(load.args, strings(&["--preserve-env", "/usr/bin/podman", "load", "-i", "/tmp/app.tar"]));
    let rm = ctl::rm(&"app".to_string());
    assert_eq!(rm.args, strings(&["--preserve-env", "/usr/bin/podman", "image", "rm", "-f", "app"]));
    assert!(ctl::purge_matches(&Some("app".to_string()), "app"));
    assert!(!ctl::purge_matches(&None, "app"));
}

#[test]
fn generator_outcome_classifies_results() {
    assert!(matches!(podman::build_system_dependencies(false, None), Ok(None)));
    let ok = Output { code: Some(0), stdout: b"/etc/hosts\n".to_vec(), stderr: Vec::new() };
    match podman::build_system_dependencies(true, Some(ok)) {
        Ok(Some(data)) => assert_eq!(data, b"/etc/hosts\n".to_vec()),
        _ => panic!("a successful generator run hands back its stdout"),
    }
    let bad = Output { code: Some(1), stdout: Vec::new(), stderr: Vec::new() };
    assert!(matches!(
        podman::build_system_dependencies(true, Some(bad)),
        Err(FlakeError::IOError { .. })
    ));
    assert!(matches!(
        podman::build_system_dependencies(true, None),
        Err(FlakeError::IOError { .. })
    ));
}

#[test]
fn init_dir_commands_use_the_resolved_directory() {
    let (mk, _) = podman::init_cid_dir("/var/lib/flakes/ids");
    assert_eq!(
        mk.args,
        strings(&[
            "--preserve-env", "--user", "root", "mkdir", "-p", "-m", "777", "/var/lib/flakes/ids",
        ])
    );
}

#[test]
fn probe_commands_and_gc_cid() {
    let user = User::none();
    let e = podman::container_exists_cmd("cid1", &user);
    assert_eq!(e.args, strings(&["--preserve-env", "podman", "container", "exists", "cid1"]));
    let ps = podman::container_ps_cmd(&user);
    assert_eq!(ps.args, strings(&["--preserve-env", "podman", "ps", "--format", "{{.ID}}"]));
    assert_eq!(podman::gc_cid_file(true), (true, false));
    assert_eq!(podman::gc_cid_file(false), (false, true));
}
