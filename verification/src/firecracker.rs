//! The microVM pilot: identities and meta files, the overlay image, the
//! monitor configuration with its kernel command line, and the engine
//! calls, all as plain values with exact contracts.
use vstd::prelude::*;

use crate::command::Cmd;
use crate::defaults;
use crate::lifecycle::{meta_path, tag_suffix};
use crate::text::{chars_of, chars_to_string, concat2, starts_with, subrange_chars};
use crate::user::{name_view, run_args, User};

verus! {

/// The monitor's launch configuration.
pub struct FireCrackerConfig {
    pub boot_source: FireCrackerBootSource,
    pub drives: Vec<FireCrackerDrive>,
    pub network_interfaces: Vec<FireCrackerNetworkInterface>,
    pub machine_config: FireCrackerMachine,
    pub vsock: FireCrackerVsock,
}

/// Kernel, optional initrd, and the kernel command line.
pub struct FireCrackerBootSource {
    pub kernel_image_path: String,
    pub initrd_path: String,
    pub boot_args: String,
}

/// One block device of the VM.
pub struct FireCrackerDrive {
    pub drive_id: String,
    pub path_on_host: String,
    pub is_root_device: bool,
    pub is_read_only: bool,
    pub cache_type: String,
}

/// One tap network interface of the VM.
pub struct FireCrackerNetworkInterface {
    pub iface_id: String,
    pub guest_mac: String,
    pub host_dev_name: String,
}

/// Machine sizing.
pub struct FireCrackerMachine {
    pub vcpu_count: i64,
    pub mem_size_mib: i64,
}

/// The vsock bridge: guest CID and the host unix-domain socket.
pub struct FireCrackerVsock {
    pub guest_cid: u32,
    pub uds_path: String,
}

/// The instance identity of an invocation: the program basename with all
/// `@TAG` arguments appended in order.
pub fn get_meta_name(program_name: &str, args: &Vec<String>) -> (r: String)
    ensures
        r@ == program_name@ + tag_suffix(args.deep_view()),
{
    let mut meta = program_name.to_owned();
    let mut i: usize = 0;
    while i < args.len()
        invariant
            i <= args@.len(),
            meta@ == program_name@ + tag_suffix(args.deep_view().subrange(0, i as int)),
        decreases args@.len() - i,
    {
        let ghost prefix = args.deep_view().subrange(0, i as int);
        let ghost prefix1 = args.deep_view().subrange(0, i + 1 as int);
        proof {
            assert(prefix1.drop_last() =~= prefix);
            assert(prefix1.last() == args.deep_view()[i as int]);
        }
        let a = chars_of(args[i].as_str());
        if a.len() > 0 && a[0] == '@' {
            meta.append(args[i].as_str());
            proof {
                assert(meta@ =~= program_name@ + tag_suffix(prefix1));
            }
        } else {
            proof {
                assert(tag_suffix(prefix1) =~= tag_suffix(prefix));
            }
        }
        i += 1;
    }
    proof {
        assert(args.deep_view().subrange(0, args.deep_view().len() as int) =~= args.deep_view());
    }
    meta
}

/// A meta file of the identity: `<dir>/<identity>.<extension>`; `vmid`
/// names the ID file, `ext2` the overlay image.
pub fn get_meta_file_name(program_name: &str, args: &Vec<String>, target_dir: &str, extension: &str)
    -> (r: String)
    ensures
        r@ == meta_path(
            target_dir@,
            program_name@ + tag_suffix(args.deep_view()),
            extension@,
        ),
{
    let name = get_meta_name(program_name, args);
    let mut s = target_dir.to_owned();
    s.append("/");
    s.append(name.as_str());
    s.append(".");
    s.append(extension);
    s
}

/// The bridge socket of the identity: `/run/sci_cmd_<identity>.sock`.
pub fn vsock_uds_path(program_name: &str, args: &Vec<String>) -> (r: String)
    ensures
        r@ == defaults::FIRECRACKER_VSOCK_PREFIX@ + program_name@ + tag_suffix(args.deep_view())
            + ".sock"@,
{
    let name = get_meta_name(program_name, args);
    let mut s = defaults::FIRECRACKER_VSOCK_PREFIX.to_owned();
    s.append(name.as_str());
    s.append(".sock");
    s
}

/// The commands that create the overlay directory and the resolved ID
/// directory with open permissions; the frontend runs each pair when its
/// directory does not exist yet.
pub fn init_meta_dirs(ids_dir: &str) -> (r: Vec<(Cmd, Cmd)>)
    ensures
        r@.len() == 2,
        r@[0].0.args_view() == run_args(Some("root"@), "mkdir"@).push("-p"@).push("-m"@).push(
            "777"@,
        ).push(defaults::FIRECRACKER_OVERLAY_DIR@),
        r@[0].1.args_view() == run_args(Some("root"@), "chmod"@).push("777"@).push(
            defaults::FIRECRACKER_OVERLAY_DIR@,
        ),
        r@[1].0.args_view() == run_args(Some("root"@), "mkdir"@).push("-p"@).push("-m"@).push(
            "777"@,
        ).push(ids_dir@),
        r@[1].1.args_view() == run_args(Some("root"@), "chmod"@).push("777"@).push(
            ids_dir@,
        ),
{
    let root = User::root();
    let mut r: Vec<(Cmd, Cmd)> = Vec::new();
    let a = crate::user::mkdir(defaults::FIRECRACKER_OVERLAY_DIR, "777", &root);
    let b = crate::user::mkdir(ids_dir, "777", &root);
    proof {
        assert(run_args(name_view(&root.name), "mkdir"@) =~~= run_args(Some("root"@), "mkdir"@));
    }
    r.push(a);
    r.push(b);
    r
}

/// The liveness probe of a VM: no probe is needed for the placeholder
/// `0` (the VM was never launched); otherwise `kill -0 <pid>`, whose
/// success means the monitor process is alive.
pub fn vm_running(vmid: &str, user: &User) -> (r: Option<Cmd>)
    ensures
        vmid@ == "0"@ ==> r is None,
        vmid@ != "0"@ ==> (r matches Some(c) && c.program@ == "sudo"@ && c.args_view()
            == run_args(name_view(&user.name), "kill"@).push("-0"@).push(vmid@)),
{
    let v = chars_of(vmid);
    proof {
        reveal_strlit("0");
        assert("0"@.len() == 1);
    }
    let is_zero = v.len() == 1 && v[0] == '0';
    proof {
        if is_zero {
            assert(vmid@ =~= "0"@);
        } else if vmid@.len() == 1 {
            assert(vmid@ != "0"@);
        } else {
            assert(vmid@ != "0"@);
        }
    }
    if is_zero {
        None
    } else {
        let mut call = user.run("kill");
        call.arg("-0");
        call.arg(vmid);
        Some(call)
    }
}

/// The removal of a file, forced, elevated.
pub fn delete_file(filename: &str, user: &User) -> (r: Cmd)
    ensures
        r.program@ == "sudo"@,
        r.args_view() == run_args(name_view(&user.name), "rm"@).push("-f"@).push(filename@),
{
    let mut call = user.run("rm");
    call.arg("-f");
    call.arg(filename);
    call
}

/// The monitor invocation: `firecracker --no-api --id <pid>
/// --config-file <config_path>`, elevated.
pub fn call_instance_cmd(config_path: &str, pid_text: &str, user: &User) -> (r: Cmd)
    ensures
        r.program@ == "sudo"@,
        r.args_view() == run_args(name_view(&user.name), defaults::FIRECRACKER@).push(
            "--no-api"@,
        ).push("--id"@).push(pid_text@).push("--config-file"@).push(config_path@),
{
    let mut call = user.run(defaults::FIRECRACKER);
    call.arg("--no-api");
    call.arg("--id");
    call.arg(pid_text);
    call.arg("--config-file");
    call.arg(config_path);
    call
}

/// The exec port of one command exchange: the `%port` option when the
/// caller chose one, else the port window start plus the pilot's process
/// ID.
pub fn get_exec_port(opts: &Vec<(String, String)>, pid: u32) -> (r: u32)
    ensures
        ({
            let chosen = crate::lookup::option_lookup(opts.deep_view(), "%port"@);
            &&& chosen matches Some(v) ==> r == (match crate::text::parse_u32_spec(v) {
                Some(p) => p,
                None => 0u32,
            })
            &&& chosen is None ==> (
            defaults::FIRECRACKER_VSOCK_PORT_START + pid <= u32::MAX ==> r
                == defaults::FIRECRACKER_VSOCK_PORT_START + pid)
            &&& chosen is None ==> (
            defaults::FIRECRACKER_VSOCK_PORT_START + pid > u32::MAX ==> r == ((
            defaults::FIRECRACKER_VSOCK_PORT_START + pid) - u32::MAX - 1))
        }),
{
    match crate::lookup::option_value(opts, "%port") {
        Some(v) => {
            let vc = chars_of(v.as_str());
            match crate::text::parse_u32(&vc) {
                Some(p) => p,
                None => 0u32,
            }
        },
        None => {
            if pid <= u32::MAX - defaults::FIRECRACKER_VSOCK_PORT_START {
                defaults::FIRECRACKER_VSOCK_PORT_START + pid
            } else {
                pid - (u32::MAX - defaults::FIRECRACKER_VSOCK_PORT_START) - 1
            }
        },
    }
}

/// Whether the bounded handshake polling is exhausted.
pub fn handshake_exhausted(retry_count: u32) -> (r: bool)
    ensures
        r == (retry_count >= defaults::RETRIES),
{
    retry_count >= defaults::RETRIES
}

/// A size suffix the configuration abbreviates: a bare `k`, `m`, `g` or
/// `t` names the binary unit.
pub open spec fn is_short_unit(c: char) -> bool {
    c == 'k' || c == 'K' || c == 'm' || c == 'M' || c == 'g' || c == 'G' || c == 't' || c == 'T'
}

/// A size written with a bare unit letter gets the binary suffix
/// spelled out; any other form is kept as written.
pub open spec fn normalize_size(s: Seq<char>) -> Seq<char> {
    if s.len() > 0 && is_short_unit(s.last()) {
        s + "ib"@
    } else {
        s
    }
}

/// The byte count a size text denotes, as the size parser reads it.
pub uninterp spec fn byte_size_of(s: Seq<char>) -> Option<u64>;

/// Relies on ubyte's `ByteUnit` parsing and `as_u64`: the byte count is
/// a function of the text alone; unparsable text gives `None`.
#[verifier::external_body]
fn parse_byte_unit(s: &str) -> (r: Option<u64>)
    ensures
        r == byte_size_of(s@),
{
    s.parse::<ubyte::ByteUnit>().ok().map(|b| b.as_u64())
}

/// The configured overlay size in bytes: a bare `k`/`m`/`g`/`t` suffix
/// means the binary unit (`1g` is one gibibyte), and anything the size
/// parser rejects is `None`.
pub fn parse_overlay_size(s: &str) -> (r: Option<u64>)
    ensures
        r == byte_size_of(normalize_size(s@)),
{
    let v = chars_of(s);
    let normalized: String;
    if v.len() > 0 {
        let c = v[v.len() - 1];
        if c == 'k' || c == 'K' || c == 'm' || c == 'M' || c == 'g' || c == 'G' || c == 't'
            || c == 'T' {
            normalized = concat2(s, "ib");
        } else {
            normalized = s.to_owned();
        }
    } else {
        normalized = s.to_owned();
    }
    proof {
        assert(normalized@ == normalize_size(s@));
    }
    parse_byte_unit(normalized.as_str())
}

/// The sparse overlay image and its filesystem: the image file spans
/// exactly `size` bytes (a seek to `size - 1` and one written byte), and
/// `mkfs.ext2 -F` formats it.
pub fn overlay_image_setup(overlay_file: &str, size: u64, user: &User) -> (r: (u64, Cmd))
    requires
        size >= 1,
    ensures
        r.0 == size - 1,
        r.1.program@ == "sudo"@,
        r.1.args_view() == run_args(name_view(&user.name), "mkfs.ext2"@).push("-F"@).push(
            overlay_file@,
        ),
{
    let mut mkfs = user.run("mkfs.ext2");
    mkfs.arg("-F");
    mkfs.arg(overlay_file);
    (size - 1, mkfs)
}

/// One base boot option as it reaches the kernel command line: in vsock
/// mode (and not under debug) a configured serial console is emptied,
/// since the guest is reached through the vsock bridge instead.
pub open spec fn boot_option_mapped(o: Seq<char>, vsock_mode: bool, debug: bool) -> Seq<char> {
    if vsock_mode && !debug && starts_with(o, "console="@) {
        "console="@
    } else {
        o
    }
}

/// The extra boot arguments, in order: the debug flag, the overlay
/// device, then every configured base option (consoles emptied in vsock
/// mode).
pub open spec fn boot_args_list(
    base: Seq<Seq<char>>,
    debug: bool,
    has_overlay: bool,
    vsock_mode: bool,
) -> Seq<Seq<char>>
    decreases base.len(),
{
    if base.len() == 0 {
        let head: Seq<Seq<char>> = if debug {
            seq!["PILOT_DEBUG=1"@]
        } else {
            Seq::empty()
        };
        if has_overlay {
            head.push("overlay_root=/dev/vdb"@)
        } else {
            head
        }
    } else {
        boot_args_list(base.drop_last(), debug, has_overlay, vsock_mode).push(
            boot_option_mapped(base.last(), vsock_mode, debug),
        )
    }
}

/// The run selector appended to the kernel command line: `run=vsock` in
/// vsock mode, else the target command line quoted.
pub open spec fn run_selector(vsock_mode: bool, run: Seq<Seq<char>>) -> Seq<char> {
    if vsock_mode {
        " run=vsock"@
    } else {
        " run=\""@ + crate::text::join_on(run, ' ') + "\""@
    }
}

/// The kernel command line of one launch: the template's boot arguments,
/// the extra arguments joined by spaces, and the run selector.
pub open spec fn boot_args_spec(
    template: Seq<char>,
    base: Seq<Seq<char>>,
    debug: bool,
    has_overlay: bool,
    vsock_mode: bool,
    run: Seq<Seq<char>>,
) -> Seq<char> {
    let lead = if template.len() > 0 {
        template + " "@
    } else {
        template
    };
    lead + crate::text::join_on(boot_args_list(base, debug, has_overlay, vsock_mode), ' ')
        + run_selector(vsock_mode, run)
}

/// Assemble the kernel command line.
pub fn build_boot_args(
    template: &str,
    base: &Vec<String>,
    debug: bool,
    has_overlay: bool,
    vsock_mode: bool,
    run: &Vec<String>,
) -> (r: String)
    ensures
        r@ == boot_args_spec(
            template@,
            base.deep_view(),
            debug,
            has_overlay,
            vsock_mode,
            run.deep_view(),
        ),
{
    let mut list: Vec<Vec<char>> = Vec::new();
    if debug {
        list.push(chars_of("PILOT_DEBUG=1"));
    }
    if has_overlay {
        list.push(chars_of("overlay_root=/dev/vdb"));
    }
    let ghost head = list.deep_view();
    proof {
        assert(head =~~= boot_args_list(
            Seq::<Seq<char>>::empty(),
            debug,
            has_overlay,
            vsock_mode,
        ));
    }
    let mut i: usize = 0;
    while i < base.len()
        invariant
            i <= base@.len(),
            list.deep_view() == boot_args_list(
                base.deep_view().subrange(0, i as int),
                debug,
                has_overlay,
                vsock_mode,
            ),
        decreases base@.len() - i,
    {
        let ghost prefix = base.deep_view().subrange(0, i as int);
        let ghost prefix1 = base.deep_view().subrange(0, i + 1 as int);
        proof {
            assert(prefix1.drop_last() =~= prefix);
            assert(prefix1.last() == base.deep_view()[i as int]);
        }
        let o = chars_of(base[i].as_str());
        let mapped: Vec<char>;
        proof {
            reveal_strlit("console=");
        }
        if vsock_mode && !debug && is_console_option(&o) {
            mapped = chars_of("console=");
        } else {
            mapped = o;
        }
        proof {
            assert(mapped@ == boot_option_mapped(base.deep_view()[i as int], vsock_mode, debug));
        }
        let ghost l0 = list.deep_view();
        list.push(mapped);
        proof {
            assert(list.deep_view() =~~= l0.push(boot_option_mapped(
                base.deep_view()[i as int],
                vsock_mode,
                debug,
            )));
        }
        i += 1;
    }
    proof {
        assert(base.deep_view().subrange(0, base.deep_view().len() as int) =~= base.deep_view());
    }
    let joined = crate::text::join_chars(&list, ' ');
    let mut s: String;
    if template.unicode_len() > 0 {
        s = concat2(template, " ");
    } else {
        s = template.to_owned();
    }
    s.append(chars_to_string(&joined).as_str());
    if vsock_mode {
        s.append(" run=vsock");
        proof {
            assert(s@ =~= boot_args_spec(
                template@,
                base.deep_view(),
                debug,
                has_overlay,
                vsock_mode,
                run.deep_view(),
            ));
        }
    } else {
        let mut parts: Vec<Vec<char>> = Vec::new();
        let mut j: usize = 0;
        while j < run.len()
            invariant
                j <= run@.len(),
                parts.deep_view() == run.deep_view().subrange(0, j as int),
            decreases run@.len() - j,
        {
            let p = chars_of(run[j].as_str());
            proof {
                assert(p@ =~= run.deep_view()[j as int]);
            }
            let ghost p0 = parts.deep_view();
            parts.push(p);
            proof {
                assert(parts.deep_view() =~~= p0.push(run.deep_view()[j as int]));
                assert(parts.deep_view() =~~= run.deep_view().subrange(0, j + 1 as int));
            }
            j += 1;
        }
        proof {
            assert(run.deep_view().subrange(0, run.deep_view().len() as int) =~= run.deep_view());
        }
        let joined_run = crate::text::join_chars(&parts, ' ');
        s.append(" run=\"");
        s.append(chars_to_string(&joined_run).as_str());
        s.append("\"");
        proof {
            assert(s@ =~= boot_args_spec(
                template@,
                base.deep_view(),
                debug,
                has_overlay,
                vsock_mode,
                run.deep_view(),
            ));
        }
    }
    s
}

/// Whether a boot option selects a serial console.
fn is_console_option(o: &Vec<char>) -> (r: bool)
    ensures
        r == starts_with(o@, "console="@),
{
    proof {
        reveal_strlit("console=");
    }
    if o.len() < 8 {
        proof {
            assert("console="@.len() == 8);
        }
        return false;
    }
    let p = chars_of("console=");
    let front = subrange_chars(o, 0, 8);
    let r = crate::yamlmerge::chars_eq(&front, &p);
    proof {
        assert("console="@.len() == 8);
    }
    r
}


/// The fields of a drive, as characters and flags.
pub open spec fn drive_view(d: &FireCrackerDrive) -> (Seq<char>, Seq<char>, bool, bool, Seq<char>) {
    (d.drive_id@, d.path_on_host@, d.is_root_device, d.is_read_only, d.cache_type@)
}

/// Copy one drive.
fn clone_drive(d: &FireCrackerDrive) -> (r: FireCrackerDrive)
    ensures
        drive_view(&r) == drive_view(d),
{
    FireCrackerDrive {
        drive_id: d.drive_id.as_str().to_owned(),
        path_on_host: d.path_on_host.as_str().to_owned(),
        is_root_device: d.is_root_device,
        is_read_only: d.is_read_only,
        cache_type: d.cache_type.as_str().to_owned(),
    }
}

/// The application path called inside the VM: the configured target, or
/// the program name itself.
pub fn get_target_app_path(program_name: &str, config: &crate::firecracker_config::Config) -> (r:
    String)
    ensures
        r@ == match config.vm.target_app_path {
            Some(t) => t@,
            None => program_name@,
        },
{
    match &config.vm.target_app_path {
        Some(t) => t.as_str().to_owned(),
        None => program_name.to_owned(),
    }
}

/// The monitor configuration of one launch, assembled from the template.
///
/// The kernel and initrd paths come from the engine section; the kernel
/// command line is built by `boot_args_spec`; the first drive's host
/// path becomes the rootfs image; with an overlay size configured, an
/// `overlay` drive for `overlay_file` is appended, writable, with the
/// configured cache mode; the first network interface's host device is
/// `tap-<identity>`; the vsock is bound to the guest CID with the
/// identity's socket; machine sizing is overridden where configured.
pub fn create_firecracker_config(
    program_name: &str,
    args: &Vec<String>,
    engine: &crate::firecracker_config::EngineSection,
    resume: bool,
    force_vsock: bool,
    debug: bool,
    overlay_file: &str,
    run: &Vec<String>,
    template: FireCrackerConfig,
) -> (r: FireCrackerConfig)
    requires
        template.drives@.len() >= 1,
        template.network_interfaces@.len() >= 1,
    ensures
        ({
            let vsock_mode = resume || force_vsock;
            let has_overlay = engine.overlay_size is Some;
            let name = program_name@ + tag_suffix(args.deep_view());
            &&& r.boot_source.kernel_image_path@ == engine.kernel_image_path@
            &&& r.boot_source.initrd_path@ == (match engine.initrd_path {
                Some(p) => p@,
                None => template.boot_source.initrd_path@,
            })
            &&& r.boot_source.boot_args@ == boot_args_spec(
                template.boot_source.boot_args@,
                crate::podman_config::opt_list_view(&Some(engine.boot_args)),
                debug,
                has_overlay,
                vsock_mode,
                run.deep_view(),
            )
            &&& r.drives@.len() == template.drives@.len() + (if has_overlay {
                1int
            } else {
                0int
            })
            &&& drive_view(&r.drives@[0]) == (
                template.drives@[0].drive_id@,
                engine.rootfs_image_path@,
                template.drives@[0].is_root_device,
                template.drives@[0].is_read_only,
                template.drives@[0].cache_type@,
            )
            &&& forall|i: int|
                1 <= i < template.drives@.len() ==> drive_view(&r.drives@[i]) == drive_view(
                    &template.drives@[i],
                )
            &&& has_overlay ==> drive_view(&r.drives@[r.drives@.len() - 1]) == (
                "overlay"@,
                overlay_file@,
                false,
                false,
                match engine.cache_type {
                    Some(crate::firecracker_config::CacheType::Unsafe) => "Unsafe"@,
                    _ => "Writeback"@,
                },
            )
            &&& r.network_interfaces@.len() == template.network_interfaces@.len()
            &&& r.network_interfaces@[0].host_dev_name@ == "tap-"@ + name
            &&& r.network_interfaces@[0].iface_id@ == template.network_interfaces@[0].iface_id@
            &&& r.network_interfaces@[0].guest_mac@ == template.network_interfaces@[0].guest_mac@
            &&& r.machine_config.mem_size_mib == (match engine.mem_size_mib {
                Some(m) => m,
                None => template.machine_config.mem_size_mib,
            })
            &&& r.machine_config.vcpu_count == (match engine.vcpu_count {
                Some(c) => c,
                None => template.machine_config.vcpu_count,
            })
            &&& r.vsock.guest_cid == defaults::VM_CID
            &&& r.vsock.uds_path@ == defaults::FIRECRACKER_VSOCK_PREFIX@ + name + ".sock"@
        }),
{
    let vsock_mode = resume || force_vsock;
    let has_overlay = engine.overlay_size.is_some();
    let kernel_image_path = engine.kernel_image_path.as_str().to_owned();
    let initrd_path = match &engine.initrd_path {
        Some(p) => p.as_str().to_owned(),
        None => template.boot_source.initrd_path.as_str().to_owned(),
    };
    let boot_args = build_boot_args(
        template.boot_source.boot_args.as_str(),
        &engine.boot_args,
        debug,
        has_overlay,
        vsock_mode,
        run,
    );
    proof {
        assert(engine.boot_args.deep_view() == crate::podman_config::opt_list_view(
            &Some(engine.boot_args),
        ));
    }
    let mut drives: Vec<FireCrackerDrive> = Vec::new();
    let first = FireCrackerDrive {
        drive_id: template.drives[0].drive_id.as_str().to_owned(),
        path_on_host: engine.rootfs_image_path.as_str().to_owned(),
        is_root_device: template.drives[0].is_root_device,
        is_read_only: template.drives[0].is_read_only,
        cache_type: template.drives[0].cache_type.as_str().to_owned(),
    };
    drives.push(first);
    let mut i: usize = 1;
    while i < template.drives.len()
        invariant
            1 <= i <= template.drives@.len(),
            drives@.len() == i,
            drive_view(&drives@[0]) == (
                template.drives@[0].drive_id@,
                engine.rootfs_image_path@,
                template.drives@[0].is_root_device,
                template.drives@[0].is_read_only,
                template.drives@[0].cache_type@,
            ),
            forall|k: int|
                1 <= k < i ==> drive_view(&drives@[k]) == drive_view(&template.drives@[k]),
        decreases template.drives@.len() - i,
    {
        let d = clone_drive(&template.drives[i]);
        drives.push(d);
        i += 1;
    }
    if has_overlay {
        let cache_type: String = match &engine.cache_type {
            Some(crate::firecracker_config::CacheType::Unsafe) => "Unsafe".to_owned(),
            _ => "Writeback".to_owned(),
        };
        let overlay = FireCrackerDrive {
            drive_id: "overlay".to_owned(),
            path_on_host: overlay_file.to_owned(),
            is_root_device: false,
            is_read_only: false,
            cache_type,
        };
        drives.push(overlay);
    }
    let name = get_meta_name(program_name, args);
    let mut network_interfaces: Vec<FireCrackerNetworkInterface> = Vec::new();
    let tap = concat2("tap-", name.as_str());
    let first_if = FireCrackerNetworkInterface {
        iface_id: template.network_interfaces[0].iface_id.as_str().to_owned(),
        guest_mac: template.network_interfaces[0].guest_mac.as_str().to_owned(),
        host_dev_name: tap,
    };
    network_interfaces.push(first_if);
    let mut j: usize = 1;
    while j < template.network_interfaces.len()
        invariant
            1 <= j <= template.network_interfaces@.len(),
            network_interfaces@.len() == j,
            network_interfaces@[0].host_dev_name@ == "tap-"@ + program_name@ + tag_suffix(
                args.deep_view(),
            ),
            network_interfaces@[0].iface_id@ == template.network_interfaces@[0].iface_id@,
            network_interfaces@[0].guest_mac@ == template.network_interfaces@[0].guest_mac@,
        decreases template.network_interfaces@.len() - j,
    {
        let n = FireCrackerNetworkInterface {
            iface_id: template.network_interfaces[j].iface_id.as_str().to_owned(),
            guest_mac: template.network_interfaces[j].guest_mac.as_str().to_owned(),
            host_dev_name: template.network_interfaces[j].host_dev_name.as_str().to_owned(),
        };
        network_interfaces.push(n);
        j += 1;
    }
    let mem_size_mib = match engine.mem_size_mib {
        Some(m) => m,
        None => template.machine_config.mem_size_mib,
    };
    let vcpu_count = match engine.vcpu_count {
        Some(c) => c,
        None => template.machine_config.vcpu_count,
    };
    let uds_path = vsock_uds_path(program_name, args);
    FireCrackerConfig {
        boot_source: FireCrackerBootSource { kernel_image_path, initrd_path, boot_args },
        drives,
        network_interfaces,
        machine_config: FireCrackerMachine { vcpu_count, mem_size_mib },
        vsock: FireCrackerVsock { guest_cid: defaults::VM_CID, uds_path },
    }
}

/// The mounts that expose a VM image with its writable overlay below
/// `sub_dir`, and the merged mount point.
pub struct VmMountPlan {
    /// Mount the rootfs image on `<sub_dir>/image`.
    pub image_mount: Cmd,
    /// Mount the overlay image on `<sub_dir>/overlayroot`.
    pub overlay_mount: Cmd,
    /// The overlay directories to create (merged, upper, work).
    pub overlay_dirs: Vec<String>,
    /// Mount the overlay filesystem on the merged directory.
    pub assemble: Cmd,
    /// The merged mount point the caller provisions into.
    pub root_mount_point: String,
}

/// The VM mount plan below `sub_dir`: mount the image, mount the overlay
/// carrier, create the merged/upper/work directories, and assemble the
/// overlay with the image as its lower layer.
pub fn mount_vm(sub_dir: &str, rootfs_image_path: &str, overlay_path: &str, user: &User) -> (r:
    VmMountPlan)
    ensures
        r.image_mount.program@ == "sudo"@,
        r.image_mount.args_view() == run_args(name_view(&user.name), "mount"@).push(
            rootfs_image_path@,
        ).push(sub_dir@ + "/"@ + defaults::IMAGE_ROOT@),
        r.overlay_mount.program@ == "sudo"@,
        r.overlay_mount.args_view() == run_args(name_view(&user.name), "mount"@).push(
            overlay_path@,
        ).push(sub_dir@ + "/"@ + defaults::IMAGE_OVERLAY@),
        r.overlay_dirs.deep_view() == seq![
            sub_dir@ + "/"@ + defaults::OVERLAY_ROOT@,
            sub_dir@ + "/"@ + defaults::OVERLAY_UPPER@,
            sub_dir@ + "/"@ + defaults::OVERLAY_WORK@,
        ],
        r.assemble.program@ == "sudo"@,
        r.assemble.args_view() == run_args(name_view(&user.name), "mount"@).push("-t"@).push(
            "overlay"@,
        ).push("overlayfs"@).push("-o"@).push(
            "lowerdir="@ + sub_dir@ + "/"@ + defaults::IMAGE_ROOT@ + ",upperdir="@ + sub_dir@
                + "/"@ + defaults::OVERLAY_UPPER@ + ",workdir="@ + sub_dir@ + "/"@
                + defaults::OVERLAY_WORK@,
        ).push(sub_dir@ + "/"@ + defaults::OVERLAY_ROOT@),
        r.root_mount_point@ == sub_dir@ + "/"@ + defaults::OVERLAY_ROOT@,
{
    let image_mount_point = crate::text::concat3(sub_dir, "/", defaults::IMAGE_ROOT);
    let overlay_mount_point = crate::text::concat3(sub_dir, "/", defaults::IMAGE_OVERLAY);
    let root_mount_point = crate::text::concat3(sub_dir, "/", defaults::OVERLAY_ROOT);
    let upper = crate::text::concat3(sub_dir, "/", defaults::OVERLAY_UPPER);
    let work = crate::text::concat3(sub_dir, "/", defaults::OVERLAY_WORK);
    let mut image_mount = user.run("mount");
    image_mount.arg(rootfs_image_path);
    image_mount.arg(image_mount_point.as_str());
    let mut overlay_mount = user.run("mount");
    overlay_mount.arg(overlay_path);
    overlay_mount.arg(overlay_mount_point.as_str());
    let mut overlay_dirs: Vec<String> = Vec::new();
    overlay_dirs.push(root_mount_point.as_str().to_owned());
    overlay_dirs.push(upper.as_str().to_owned());
    overlay_dirs.push(work.as_str().to_owned());
    proof {
        assert(overlay_dirs.deep_view() =~~= seq![
            sub_dir@ + "/"@ + defaults::OVERLAY_ROOT@,
            sub_dir@ + "/"@ + defaults::OVERLAY_UPPER@,
            sub_dir@ + "/"@ + defaults::OVERLAY_WORK@,
        ]);
    }
    let mut opt = crate::text::concat2("lowerdir=", image_mount_point.as_str());
    opt.append(",upperdir=");
    opt.append(upper.as_str());
    opt.append(",workdir=");
    opt.append(work.as_str());
    proof {
        assert(opt@ =~= "lowerdir="@ + sub_dir@ + "/"@ + defaults::IMAGE_ROOT@ + ",upperdir="@
            + sub_dir@ + "/"@ + defaults::OVERLAY_UPPER@ + ",workdir="@ + sub_dir@ + "/"@
            + defaults::OVERLAY_WORK@);
    }
    let mut assemble = user.run("mount");
    assemble.arg("-t");
    assemble.arg("overlay");
    assemble.arg("overlayfs");
    assemble.arg("-o");
    assemble.arg(opt.as_str());
    assemble.arg(root_mount_point.as_str());
    VmMountPlan { image_mount, overlay_mount, overlay_dirs, assemble, root_mount_point }
}

/// The unmounts that release a VM mount plan: merged overlay first, then
/// the overlay carrier, then the image — the reverse of acquisition.
pub fn umount_vm(sub_dir: &str, user: &User) -> (r: Vec<Cmd>)
    ensures
        r@.len() == 3,
        forall|i: int| 0 <= i < 3 ==> (#[trigger] r@[i]).program@ == "sudo"@,
        r@[0].args_view() == run_args(name_view(&user.name), "umount"@).push(
            sub_dir@ + "/"@ + defaults::OVERLAY_ROOT@,
        ),
        r@[1].args_view() == run_args(name_view(&user.name), "umount"@).push(
            sub_dir@ + "/"@ + defaults::IMAGE_OVERLAY@,
        ),
        r@[2].args_view() == run_args(name_view(&user.name), "umount"@).push(
            sub_dir@ + "/"@ + defaults::IMAGE_ROOT@,
        ),
{
    let mut r: Vec<Cmd> = Vec::new();
    let p0 = crate::text::concat3(sub_dir, "/", defaults::OVERLAY_ROOT);
    let p1 = crate::text::concat3(sub_dir, "/", defaults::IMAGE_OVERLAY);
    let p2 = crate::text::concat3(sub_dir, "/", defaults::IMAGE_ROOT);
    let mut c0 = user.run("umount");
    c0.arg(p0.as_str());
    let mut c1 = user.run("umount");
    c1.arg(p1.as_str());
    let mut c2 = user.run("umount");
    c2.arg(p2.as_str());
    r.push(c0);
    r.push(c1);
    r.push(c2);
    r
}


/// The garbage-collection decision for one VM ID file: whether the VM is
/// alive, and what to remove when it is not — the ID file and the bridge
/// socket always, the overlay image only when resume does not preserve
/// it.
pub fn gc_meta_files(vm_alive: bool, resume: bool, socket_exists: bool, overlay_exists: bool)
    -> (r: (bool, crate::lifecycle::GcPlan))
    ensures
        r.0 == vm_alive,
        r.1.remove_id_file == !vm_alive,
        r.1.remove_socket == (!vm_alive && socket_exists),
        r.1.remove_overlay == (!vm_alive && overlay_exists && !resume),
{
    (vm_alive, crate::lifecycle::gc_decision(vm_alive, resume, socket_exists, overlay_exists))
}

} // verus!
