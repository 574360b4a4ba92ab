use flake_pilot::firecracker;
use flake_pilot::lookup::which_candidates;
use flake_pilot::protocol::{pump_step, PumpAction, PumpEvent};
use flake_pilot::protocol::{
    command_request_line, connect_line, is_ok_reply, parse_request, ParsedRequest,
};
use flake_pilot::sci;
use flake_pilot::user::User;

fn strings(v: &[&str]) -> Vec<String> {
    v.iter().map(|s| s.to_string()).collect()
}

// Protocol parsing: splitting on ASCII space and reading the last token
// as the port yields the command head and the port; an empty payload is
// a probe.
#[test]
fn parse_request_splits_command_and_port() {
    match parse_request("ls / 8080\n") {
        ParsedRequest::Command(cmd, port) => {
            assert_eq!(cmd, "ls /");
            assert_eq!(port, 8080);
        },
        ParsedRequest::Probe => panic!("a command payload is no probe"),
    }
}

#[test]
fn parse_request_empty_payload_is_probe() {
    assert!(matches!(parse_request(""), ParsedRequest::Probe));
    assert!(matches!(parse_request("\n"), ParsedRequest::Probe));
    assert!(matches!(parse_request("  \n"), ParsedRequest::Probe));
}

#[test]
fn parse_request_bad_port_becomes_zero() {
    match parse_request("run me\n") {
        ParsedRequest::Command(cmd, port) => {
            assert_eq!(cmd, "run");
            assert_eq!(port, 0);
        },
        ParsedRequest::Probe => panic!("a command payload is no probe"),
    }
}

#[test]
fn request_round_trip_on_concrete_values() {
    let line = command_request_line(&strings(&["/bin/echo", "hi"]), 49300);
    assert_eq!(line, "/bin/echo hi 49300\n");
    match parse_request(&line) {
        ParsedRequest::Command(cmd, port) => {
            assert_eq!(cmd, "/bin/echo hi");
            assert_eq!(port, 49300);
        },
        ParsedRequest::Probe => panic!("a command payload is no probe"),
    }
}

#[test]
fn handshake_lines_and_replies() {
    assert_eq!(connect_line(52), "CONNECT 52\n");
    assert!(is_ok_reply("OK\n            "));
    assert!(!is_ok_reply("NO\n"));
    assert!(!is_ok_reply("O"));
}

#[test]
fn exec_port_prefers_the_option() {
    let opts = vec![("%port".to_string(), "9000".to_string())];
    assert_eq!(firecracker::get_exec_port(&opts, 123), 9000);
    let none: Vec<(String, String)> = Vec::new();
    assert_eq!(firecracker::get_exec_port(&none, 123), 49323);
    assert!(firecracker::handshake_exhausted(60));
    assert!(!firecracker::handshake_exhausted(59));
}

// VM one-shot: a 1 GiB sparse ext2 overlay, the overlay drive on the
// kernel command line, and the argv quoted into `run="..."`.
#[test]
fn vm_one_shot_overlay_and_cmdline() {
    assert_eq!(firecracker::parse_overlay_size("1g"), Some(1073741824));
    assert_eq!(firecracker::parse_overlay_size("20g"), Some(20 * 1073741824));
    assert_eq!(firecracker::parse_overlay_size("512MiB"), Some(512 * 1048576));
    assert_eq!(firecracker::parse_overlay_size("bogus"), None);
    let root = User::root();
    let (seek_to, mkfs) = firecracker::overlay_image_setup("/var/lib/firecracker/storage/app.ext2", 1073741824, &root);
    assert_eq!(seek_to, 1073741823);
    assert_eq!(
        mkfs.args,
        strings(&[
            "--preserve-env", "--user", "root", "mkfs.ext2", "-F",
            "/var/lib/firecracker/storage/app.ext2",
        ])
    );
    let line = firecracker::build_boot_args(
        "root=/dev/vda acpi=off",
        &strings(&["console=ttyS0"]),
        false,
        true,
        false,
        &strings(&["/bin/app", "hello"]),
    );
    assert_eq!(
        line,
        "root=/dev/vda acpi=off overlay_root=/dev/vdb console=ttyS0 run=\"/bin/app hello\""
    );
}

// VM resume with vsock: the command line asks for the vsock bridge and
// the serial console is emptied.
#[test]
fn vm_resume_uses_vsock_and_empties_console() {
    let line = firecracker::build_boot_args(
        "root=/dev/vda",
        &strings(&["console=ttyS0", "quiet"]),
        false,
        true,
        true,
        &strings(&["/bin/app"]),
    );
    assert_eq!(line, "root=/dev/vda overlay_root=/dev/vdb console= quiet run=vsock");
    // under debug the console stays for diagnostics
    let line = firecracker::build_boot_args(
        "",
        &strings(&["console=ttyS0"]),
        true,
        false,
        true,
        &strings(&["/bin/app"]),
    );
    assert_eq!(line, "PILOT_DEBUG=1 console=ttyS0 run=vsock");
}

#[test]
fn monitor_invocation_and_probes() {
    let root = User::root();
    let c = firecracker::call_instance_cmd("/tmp/fc.json", "4242", &root);
    assert_eq!(
        c.args,
        strings(&[
            "--preserve-env", "--user", "root", "firecracker", "--no-api", "--id", "4242",
            "--config-file", "/tmp/fc.json",
        ])
    );
    assert!(firecracker::vm_running("0", &root).is_none());
    let probe = firecracker::vm_running("4242", &root).unwrap();
    assert_eq!(probe.args, strings(&["--preserve-env", "--user", "root", "kill", "-0", "4242"]));
    let rm = firecracker::delete_file("/run/sci_cmd_app.sock", &root);
    assert_eq!(
        rm.args,
        strings(&["--preserve-env", "--user", "root", "rm", "-f", "/run/sci_cmd_app.sock"])
    );
}

#[test]
fn vm_mounts_assemble_and_release_in_reverse() {
    let root = User::root();
    let plan = firecracker::mount_vm("/tmp/prov", "/images/rootfs", "/storage/app.ext2", &root);
    assert_eq!(
        plan.image_mount.args,
        strings(&["--preserve-env", "--user", "root", "mount", "/images/rootfs", "/tmp/prov/image"])
    );
    assert_eq!(
        plan.overlay_mount.args,
        strings(&[
            "--preserve-env", "--user", "root", "mount", "/storage/app.ext2",
            "/tmp/prov/overlayroot",
        ])
    );
    assert_eq!(plan.root_mount_point, "/tmp/prov/overlayroot/rootfs");
    assert_eq!(
        plan.assemble.args,
        strings(&[
            "--preserve-env", "--user", "root", "mount", "-t", "overlay", "overlayfs", "-o",
            "lowerdir=/tmp/prov/image,upperdir=/tmp/prov/overlayroot/rootfs_upper,workdir=/tmp/prov/overlayroot/rootfs_work",
            "/tmp/prov/overlayroot/rootfs",
        ])
    );
    let umounts = firecracker::umount_vm("/tmp/prov", &root);
    let points: Vec<String> = umounts.iter().map(|c| c.args[c.args.len() - 1].clone()).collect();
    assert_eq!(
        points,
        strings(&["/tmp/prov/overlayroot/rootfs", "/tmp/prov/overlayroot", "/tmp/prov/image"])
    );
}

#[test]
fn monitor_config_is_assembled_from_the_template() {
    let template = firecracker::FireCrackerConfig {
        boot_source: firecracker::FireCrackerBootSource {
            kernel_image_path: "KERNEL".to_string(),
            initrd_path: "".to_string(),
            boot_args: "root=/dev/vda".to_string(),
        },
        drives: vec![firecracker::FireCrackerDrive {
            drive_id: "rootfs".to_string(),
            path_on_host: "ROOTFS".to_string(),
            is_root_device: true,
            is_read_only: true,
            cache_type: "Writeback".to_string(),
        }],
        network_interfaces: vec![firecracker::FireCrackerNetworkInterface {
            iface_id: "eth0".to_string(),
            guest_mac: "AA:BB".to_string(),
            host_dev_name: "tap0".to_string(),
        }],
        machine_config: firecracker::FireCrackerMachine { vcpu_count: 1, mem_size_mib: 1024 },
        vsock: firecracker::FireCrackerVsock { guest_cid: 0, uds_path: "".to_string() },
    };
    let engine = flake_pilot::firecracker_config::EngineSection {
        overlay_size: Some("1g".to_string()),
        cache_type: None,
        mem_size_mib: Some(4096),
        vcpu_count: Some(2),
        rootfs_image_path: "/images/app/rootfs".to_string(),
        kernel_image_path: "/images/app/kernel".to_string(),
        initrd_path: None,
        boot_args: strings(&["console=ttyS0"]),
    };
    let args = strings(&["@one"]);
    let run = strings(&["/bin/app"]);
    let cfg = firecracker::create_firecracker_config(
        "vmapp",
        &args,
        &engine,
        true,
        false,
        false,
        "/storage/vmapp@one.ext2",
        &run,
        template,
    );
    assert_eq!(cfg.boot_source.kernel_image_path, "/images/app/kernel");
    assert_eq!(
        cfg.boot_source.boot_args,
        "root=/dev/vda overlay_root=/dev/vdb console= run=vsock"
    );
    assert_eq!(cfg.drives.len(), 2);
    assert_eq!(cfg.drives[0].path_on_host, "/images/app/rootfs");
    assert_eq!(cfg.drives[1].drive_id, "overlay");
    assert_eq!(cfg.drives[1].path_on_host, "/storage/vmapp@one.ext2");
    assert_eq!(cfg.drives[1].cache_type, "Writeback");
    assert!(!cfg.drives[1].is_read_only);
    assert_eq!(cfg.network_interfaces[0].host_dev_name, "tap-vmapp@one");
    assert_eq!(cfg.machine_config.mem_size_mib, 4096);
    assert_eq!(cfg.machine_config.vcpu_count, 2);
    assert_eq!(cfg.vsock.guest_cid, 3);
    assert_eq!(cfg.vsock.uds_path, "/run/sci_cmd_vmapp@one.sock");
}

#[test]
fn vm_gc_keeps_resume_overlays() {
    let (alive, plan) = firecracker::gc_meta_files(false, false, true, true);
    assert!(!alive && plan.remove_id_file && plan.remove_socket && plan.remove_overlay);
    let (_, plan) = firecracker::gc_meta_files(false, true, true, true);
    assert!(!plan.remove_overlay);
    let (alive, plan) = firecracker::gc_meta_files(true, false, true, true);
    assert!(alive && !plan.remove_id_file);
}

#[test]
fn image_probe_command() {
    let root = User::root();
    let c = flake_pilot::podman::container_image_exists("ubi9", &root);
    assert_eq!(
        c.args,
        strings(&["--preserve-env", "--user", "root", "podman", "image", "exists", "ubi9"])
    );
}

#[test]
fn pump_forwards_until_eof_or_failure() {
    assert_eq!(pump_step(&PumpEvent::ReadBytes(17)), PumpAction::Forward(17));
    assert_eq!(pump_step(&PumpEvent::ReadBytes(0)), PumpAction::Stop);
    assert_eq!(pump_step(&PumpEvent::ReadFailed), PumpAction::Stop);
}

#[test]
fn which_builds_path_candidates() {
    let c = which_candidates("/usr/bin:/bin", "firecracker");
    assert_eq!(c, strings(&["/usr/bin/firecracker", "/bin/firecracker"]));
}

#[test]
fn guest_init_decisions() {
    assert!(sci::requires_exec("/usr/lib/systemd/systemd"));
    assert!(!sci::requires_exec("/bin/sh"));
    let mounts = sci::basic_fs_mounts();
    assert_eq!(mounts.len(), 4);
    assert_eq!(mounts[0], ("proc".to_string(), "proc".to_string(), "/proc".to_string()));
    assert_eq!(mounts[3].2, "/dev/pts");
    assert_eq!(
        sci::overlay_mount_data(),
        "lowerdir=/,upperdir=overlayroot/rootfs_upper,workdir=overlayroot/rootfs_work"
    );
    let (prog, args) = sci::split_command("ls -l /");
    assert_eq!(prog, "ls");
    assert_eq!(args, strings(&["-l", "/"]));
    let split = sci::shell_split("run 'a b' c").unwrap();
    assert_eq!(split, strings(&["run", "a b", "c"]));
    assert!(sci::shell_split("unclosed 'quote").is_none());
    let sw = sci::root_switch_cmd(true, "/usr/lib/systemd/systemd");
    assert_eq!(sw.program, "/usr/sbin/switch_root");
    assert_eq!(sw.args, strings(&[".", "/usr/lib/systemd/systemd"]));
    let pv = sci::root_switch_cmd(false, "/bin/app");
    assert_eq!(pv.program, "/usr/sbin/pivot_root");
    assert_eq!(pv.args, strings(&[".", "mnt"]));
    assert_eq!(sci::probe_overlay_cmd().args, strings(&["overlay"]));
    assert_eq!(sci::probe_vhost_cmd().args, strings(&["vhost_vsock"]));
}
