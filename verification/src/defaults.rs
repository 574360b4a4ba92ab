//! Well-known paths and tunables of the pilots.
use vstd::prelude::*;

verus! {

pub const FLAKES_CONFIG: &'static str = "/etc/flakes.yml";

pub const FLAKES_DIR: &'static str = "/usr/share/flakes";

pub const PODMAN_IDS_DIR: &'static str = "/tmp/flakes";

pub const FIRECRACKER_IDS_DIR: &'static str = "/tmp/flakes";

pub const FLAKES_STORAGE: &'static str = "/etc/flakes/storage.conf";

pub const FLAKES_REGISTRY: &'static str = "/usr/share/flakes/storage";

pub const FLAKES_REGISTRY_RUNROOT: &'static str = "/run/flakes";

pub const HOST_DEPENDENCIES: &'static str = "removed";

pub const SYSTEM_HOST_DEPENDENCIES: &'static str = "systemfiles";

pub const PODMAN_PATH: &'static str = "/usr/bin/podman";

pub const GC_THRESHOLD: usize = 20;

pub const FIRECRACKER: &'static str = "firecracker";

pub const IMAGE_ROOT: &'static str = "image";

pub const IMAGE_OVERLAY: &'static str = "overlayroot";

pub const OVERLAY_ROOT: &'static str = "overlayroot/rootfs";

pub const OVERLAY_UPPER: &'static str = "overlayroot/rootfs_upper";

pub const OVERLAY_WORK: &'static str = "overlayroot/rootfs_work";

pub const FIRECRACKER_OVERLAY_DIR: &'static str = "/var/lib/firecracker/storage";

pub const FIRECRACKER_TEMPLATE: &'static str = "/etc/flakes/firecracker.json";

pub const FIRECRACKER_VSOCK_PREFIX: &'static str = "/run/sci_cmd_";

pub const FIRECRACKER_VSOCK_PORT_START: u32 = 49200;

pub const VM_CID: u32 = 3;

pub const VM_PORT: u32 = 52;

pub const RETRIES: u32 = 60;

pub const VM_WAIT_TIMEOUT_MSEC: u64 = 1000;

pub const PROBE_MODULE: &'static str = "/usr/sbin/modprobe";

pub const SWITCH_ROOT: &'static str = "/usr/sbin/switch_root";

pub const PIVOT_ROOT: &'static str = "/usr/sbin/pivot_root";

pub const VHOST_TRANSPORT: &'static str = "vhost_vsock";

pub const SYSTEMD_PATH: &'static str = "/usr/lib/systemd/systemd";

pub const GUEST_CID: u32 = 3;

} // verus!
