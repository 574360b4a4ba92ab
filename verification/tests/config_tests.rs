use flake_pilot::error::FlakeError;
use flake_pilot::registry;
use flake_pilot::firecracker_config;
use flake_pilot::podman_config;
use flake_pilot::podman_config::basename;
use flake_pilot::yamlmerge::merge_config_text;

#[test]
fn test_basename() {
    let base_name = basename(&"/some/name".to_string());
    assert_eq!("name", base_name);
}

#[test]
fn basename_without_slash() {
    assert_eq!("plain", basename(&"plain".to_string()));
}

#[test]
fn test_program_config_file() {
    let config_file = podman_config::config_file("app");
    assert_eq!("/usr/share/flakes/app.yaml", config_file);
}

#[test]
fn tests_test_program_config_file() {
    let config_file = firecracker_config::config_file("app");
    assert_eq!("/usr/share/flakes/app.yaml", config_file);
}

#[test]
fn program_config_dir() {
    assert_eq!("/usr/share/flakes/app.d", podman_config::config_dir("app"));
    assert_eq!(
        "/home/bob/flakes/app.yaml",
        podman_config::config_file_in("/home/bob/flakes", "app")
    );
    assert_eq!("/home/bob/flakes/app.d", podman_config::config_dir_in("/home/bob/flakes", "app"));
}

#[test]
fn simple_config() {
    let cfg = podman_config::config_from_str(
        r#"container:
 name: JoJo
 host_app_path: /myapp
 check_host_dependencies: false
include:
 tar: ~
"#,
    )
    .unwrap();
    assert_eq!(cfg.container.name, "JoJo");
}

#[test]
fn combine_configs() {
    let cfg = podman_config::config_from_str(
        r#"container:
 name: JoJo
 host_app_path: /myapp
 check_host_dependencies: false
include:
 tar: ~
container:
 name: Dio
 host_app_path: /other
 check_host_dependencies: false
"#,
    )
    .unwrap();
    assert_eq!(cfg.container.name, "Dio");
}

#[test]
fn tests_simple_config() {
    let cfg = firecracker_config::config_from_str(
        "vm:\n name: JoJo\n host_app_path: /myapp\ninclude:\n tar: ~\n",
    )
    .unwrap();
    assert_eq!(cfg.vm.name, "JoJo");
}

#[test]
fn tests_combine_configs() {
    let cfg = firecracker_config::config_from_str(
        r#"vm:
 name: JoJo
 host_app_path: /myapp
include:
 tar: ~
vm:
 name: Dio
 host_app_path: /other
"#,
    )
    .unwrap();
    assert_eq!(cfg.vm.name, "Dio");
}

#[test]
fn merge_keeps_last_block_per_key() {
    let merged = merge_config_text(
        "container:\n name: JoJo\ninclude:\n tar: ~\ncontainer:\n name: Dio\n",
    );
    assert_eq!(merged, "include:\n tar: ~\ncontainer:\n name: Dio\n");
}

#[test]
fn merge_is_idempotent_on_text() {
    let once = merge_config_text(
        "container:\n name: JoJo\ninclude:\n tar: ~\ncontainer:\n name: Dio\n",
    );
    let twice = merge_config_text(&once);
    assert_eq!(once, twice);
}

#[test]
fn merge_keeps_prologue_and_single_blocks() {
    let merged = merge_config_text("# a comment\ncontainer:\n name: a\n");
    assert_eq!(merged, "# a comment\ncontainer:\n name: a\n");
}

#[test]
fn config_rejects_bad_yaml() {
    let r = podman_config::config_from_str("container: [unclosed\n");
    assert!(matches!(r, Err(FlakeError::IOError { .. })));
}

#[test]
fn config_rejects_missing_name() {
    let r = podman_config::config_from_str("container:\n host_app_path: /x\ninclude:\n tar: ~\n");
    assert!(matches!(r, Err(FlakeError::IOError { .. })));
}

#[test]
fn config_rejects_relative_target() {
    let r = podman_config::config_from_str(
        "container:\n name: a\n host_app_path: /x\n target_app_path: bin/echo\ninclude:\n tar: ~\n",
    );
    assert!(matches!(r, Err(FlakeError::IOError { .. })));
}

#[test]
fn config_rejects_resume_with_entrypoint_target() {
    let r = podman_config::config_from_str(
        "container:\n name: a\n host_app_path: /x\n target_app_path: /\n runtime:\n  resume: true\ninclude:\n tar: ~\n",
    );
    assert!(matches!(r, Err(FlakeError::UnknownCommand)));
}

#[test]
fn config_reads_runtime_and_lists() {
    let cfg = podman_config::config_from_str(
        r#"container:
 name: myapp-ovl
 host_app_path: /usr/bin/myapp
 base_container: ubi9
 layers:
  - patch1
 runtime:
  runas: root
  resume: true
  podman:
   - --storage-opt size=10G
include:
 tar:
  - /tmp/extra.tar
 path:
  - /etc/hosts
"#,
    )
    .unwrap();
    assert!(cfg.is_delta_container());
    let rt = cfg.runtime();
    assert!(rt.resume);
    assert!(!rt.attach);
    assert_eq!(rt.runas.get_name(), "root");
    assert_eq!(cfg.layers(), vec!["patch1".to_string()]);
    assert_eq!(cfg.tars(), vec!["/tmp/extra.tar".to_string()]);
    assert_eq!(cfg.paths(), vec!["/etc/hosts".to_string()]);
}

#[test]
fn firecracker_config_reads_engine_section() {
    let cfg = firecracker_config::config_from_str(
        r#"vm:
 name: vmapp
 host_app_path: /usr/bin/vmapp
 target_app_path: /usr/bin/inner
 runtime:
  runas: root
  resume: true
  firecracker:
   boot_args:
    - init=/usr/sbin/sci
    - console=ttyS0
   mem_size_mib: 4096
   vcpu_count: 2
   overlay_size: 1g
   rootfs_image_path: /var/lib/firecracker/images/vmapp/rootfs
   kernel_image_path: /var/lib/firecracker/images/vmapp/kernel
include:
 tar: ~
"#,
    )
    .unwrap();
    let rt = cfg.runtime().as_ref().unwrap();
    assert!(rt.resume);
    assert!(!rt.force_vsock);
    assert_eq!(rt.firecracker.overlay_size.as_deref(), Some("1g"));
    assert_eq!(rt.firecracker.mem_size_mib, Some(4096));
    assert_eq!(rt.firecracker.vcpu_count, Some(2));
    assert_eq!(
        rt.firecracker.boot_args,
        vec!["init=/usr/sbin/sci".to_string(), "console=ttyS0".to_string()]
    );
}

#[test]
fn config_root_selection() {
    assert_eq!(registry::select_config_root(true, true).unwrap(), true);
    assert_eq!(registry::select_config_root(true, false).unwrap(), true);
    assert_eq!(registry::select_config_root(false, true).unwrap(), false);
    assert!(registry::select_config_root(false, false).is_err());
    assert_eq!(registry::get_flakes_dir(&None, false).unwrap(), "/usr/share/flakes");
    assert_eq!(
        registry::get_flakes_dir(&Some("/home/bob/flakes".to_string()), true).unwrap(),
        "/home/bob/flakes"
    );
    assert!(registry::get_flakes_dir(&None, true).is_err());
    assert_eq!(registry::get_podman_ids_dir(&None, false).unwrap(), "/tmp/flakes");
    assert_eq!(registry::get_firecracker_ids_dir(&None, false).unwrap(), "/tmp/flakes");
    assert_eq!(
        registry::get_podman_storage_conf(&None, false).unwrap(),
        "/etc/flakes/storage.conf"
    );
}

#[test]
fn per_user_runroot_path() {
    assert_eq!(registry::runroot_for_user("bob"), "/run/flakes/bob");
}
